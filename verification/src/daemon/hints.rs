//! Scene hints with optional expiry.

use vstd::prelude::*;
use crate::model::Scene;

verus! {

/// A scene that is active until it is withdrawn or expires.
#[derive(Clone, Copy, Debug, PartialEq, Eq, Structural)]
pub struct Hint {
    pub scene: Scene,
    /// The monotonic time in milliseconds from which the hint no longer holds.
    pub expires_at: Option<u64>,
}

/// When a time-limited hint of `ttl` milliseconds, given at `now`, ends.
pub open spec fn expiry(now: u64, ttl: u64) -> u64 {
    if now + ttl > u64::MAX {
        u64::MAX
    } else {
        (now + ttl) as u64
    }
}

impl Hint {
    /// A hint without expiry.
    pub fn persistent(scene: Scene) -> (h: Hint)
        ensures
            h == (Hint { scene, expires_at: None }),
    {
        Hint { scene, expires_at: None }
    }

    /// A hint that ends `ttl` milliseconds after `now`.
    pub fn with_ttl(scene: Scene, now: u64, ttl: u64) -> (h: Hint)
        ensures
            h == (Hint { scene, expires_at: Some(expiry(now, ttl)) }),
    {
        Hint { scene, expires_at: Some(now.saturating_add(ttl)) }
    }

    /// Whether the hint still holds at `now`.
    pub open spec fn live(self, now: u64) -> bool {
        match self.expires_at {
            Some(t) => now < t,
            None => true,
        }
    }

    /// Whether the hint still holds at `now`.
    pub fn is_live(&self, now: u64) -> (r: bool)
        ensures
            r == self.live(now),
    {
        match self.expires_at {
            Some(t) => now < t,
            None => true,
        }
    }
}

/// At most one hint per scene: for each scene whether it is active, and until
/// when.
#[derive(Clone, Copy, Debug, PartialEq, Eq, Structural)]
pub struct HintSet {
    idle: Option<Option<u64>>,
    touch: Option<Option<u64>>,
    trigger: Option<Option<u64>>,
    gesture: Option<Option<u64>>,
    switch: Option<Option<u64>>,
    boost: Option<Option<u64>>,
    wake: Option<Option<u64>>,
}

impl View for HintSet {
    type V = Map<Scene, Option<u64>>;

    closed spec fn view(&self) -> Map<Scene, Option<u64>> {
        Map::new(|s: Scene| self.slot(s) is Some, |s: Scene| self.slot(s)->0)
    }
}

/// The hints that still hold at `now`.
pub open spec fn unexpired(hints: Map<Scene, Option<u64>>, now: u64) -> Map<Scene, Option<u64>> {
    hints.restrict(
        Set::new(
            |s: Scene| hints.dom().contains(s) && Hint { scene: s, expires_at: hints[s] }.live(now),
        ),
    )
}

impl HintSet {
    spec fn slot(&self, scene: Scene) -> Option<Option<u64>> {
        match scene {
            Scene::Idle => self.idle,
            Scene::Touch => self.touch,
            Scene::Trigger => self.trigger,
            Scene::Gesture => self.gesture,
            Scene::Switch => self.switch,
            Scene::Boost => self.boost,
            Scene::Wake => self.wake,
        }
    }

    /// No hint.
    pub fn new() -> (h: Self)
        ensures
            h@ == Map::<Scene, Option<u64>>::empty(),
    {
        let h = HintSet {
            idle: None,
            touch: None,
            trigger: None,
            gesture: None,
            switch: None,
            boost: None,
            wake: None,
        };
        assert(h@ =~= Map::<Scene, Option<u64>>::empty());
        h
    }

    fn get(&self, scene: Scene) -> (r: Option<Option<u64>>)
        ensures
            r == self.slot(scene),
    {
        match scene {
            Scene::Idle => self.idle,
            Scene::Touch => self.touch,
            Scene::Trigger => self.trigger,
            Scene::Gesture => self.gesture,
            Scene::Switch => self.switch,
            Scene::Boost => self.boost,
            Scene::Wake => self.wake,
        }
    }

    fn put(&mut self, scene: Scene, value: Option<Option<u64>>)
        ensures
            forall|s: Scene| #[trigger]
                final(self).slot(s) == (if s == scene {
                    value
                } else {
                    old(self).slot(s)
                }),
    {
        match scene {
            Scene::Idle => {
                self.idle = value;
            },
            Scene::Touch => {
                self.touch = value;
            },
            Scene::Trigger => {
                self.trigger = value;
            },
            Scene::Gesture => {
                self.gesture = value;
            },
            Scene::Switch => {
                self.switch = value;
            },
            Scene::Boost => {
                self.boost = value;
            },
            Scene::Wake => {
                self.wake = value;
            },
        }
    }

    /// Withdraws the hint for `scene`.
    pub fn deactivate(&mut self, scene: Scene)
        ensures
            final(self)@ == old(self)@.remove(scene),
    {
        self.put(scene, None);
        assert(self@ =~= old(self)@.remove(scene));
    }

    /// Puts a hint in place of an earlier one for its scene.
    pub fn activate(&mut self, hint: Hint)
        ensures
            final(self)@ == old(self)@.insert(hint.scene, hint.expires_at),
    {
        self.put(hint.scene, Some(hint.expires_at));
        assert(self@ =~= old(self)@.insert(hint.scene, hint.expires_at));
    }

    /// Drops the hint for `scene` if it no longer holds at `now`.
    fn expire_one(&mut self, scene: Scene, now: u64) -> (dropped: bool)
        ensures
            forall|s: Scene| s != scene ==> #[trigger] final(self).slot(s) == old(self).slot(s),
            dropped == match old(self).slot(scene) {
                Some(e) => !(Hint { scene, expires_at: e }).live(now),
                None => false,
            },
            final(self).slot(scene) == (if dropped {
                None
            } else {
                old(self).slot(scene)
            }),
    {
        match self.get(scene) {
            Some(expires_at) => {
                let hint = Hint { scene, expires_at };
                if !hint.is_live(now) {
                    self.put(scene, None);
                    return true;
                }
                false
            },
            None => false,
        }
    }

    /// Drops the hints that no longer hold at `now`, and says whether there was
    /// one.
    pub fn expire(&mut self, now: u64) -> (dropped: bool)
        ensures
            final(self)@ == unexpired(old(self)@, now),
            dropped == (final(self)@ != old(self)@),
    {
        let a = self.expire_one(Scene::Idle, now);
        let b = self.expire_one(Scene::Touch, now);
        let c = self.expire_one(Scene::Trigger, now);
        let d = self.expire_one(Scene::Gesture, now);
        let e = self.expire_one(Scene::Switch, now);
        let f = self.expire_one(Scene::Boost, now);
        let g = self.expire_one(Scene::Wake, now);
        let dropped = a || b || c || d || e || f || g;
        proof {
            assert forall|s: Scene| #[trigger] self.slot(s) == (match old(self).slot(s) {
                Some(t) => if (Hint { scene: s, expires_at: t }).live(now) {
                    Some(t)
                } else {
                    None
                },
                None => None,
            }) by {
                match s {
                    Scene::Idle => {},
                    Scene::Touch => {},
                    Scene::Trigger => {},
                    Scene::Gesture => {},
                    Scene::Switch => {},
                    Scene::Boost => {},
                    Scene::Wake => {},
                }
            }
            assert(self@ =~= unexpired(old(self)@, now));
            if dropped {
                let s = if a {
                    Scene::Idle
                } else if b {
                    Scene::Touch
                } else if c {
                    Scene::Trigger
                } else if d {
                    Scene::Gesture
                } else if e {
                    Scene::Switch
                } else if f {
                    Scene::Boost
                } else {
                    Scene::Wake
                };
                assert(old(self).slot(s) is Some);
                assert(old(self)@.dom().contains(s));
                assert(self.slot(s) is None);
                assert(!self@.dom().contains(s));
            } else {
                assert(self@ =~= old(self)@);
            }
        }
        dropped
    }

    /// Whether a hint for `scene` holds at `now`.
    pub fn contains_active(&self, scene: Scene, now: u64) -> (r: bool)
        ensures
            r == unexpired(self@, now).dom().contains(scene),
    {
        match self.get(scene) {
            Some(expires_at) => {
                let hint = Hint { scene, expires_at };
                hint.is_live(now)
            },
            None => false,
        }
    }
}

/// A time-limited hint holds strictly before its end and never again.
pub proof fn hint_ends_for_good(h: Hint, earlier: u64, later: u64)
    requires
        earlier <= later,
        h.live(later),
    ensures
        h.live(earlier),
{
}

} // verus!
