//! Interaction events and scene hints.

use vstd::prelude::*;
use crate::model::Scene;
use crate::platform::{InputDeviceId, InputEvent, TouchContactId};
use super::config::InputPolicy;
use super::hints::{expiry, Hint};
use super::state::{evaluate, Action, ActionView, Model, ObservedView, RuntimeActor};

verus! {

/// How long a hint for a scene lasts; absent for a scene that is no hint.
pub open spec fn hint_duration(input: InputPolicy, scene: Scene) -> Option<u64> {
    match scene {
        Scene::Trigger => Some(input.trigger_duration_ms),
        Scene::Gesture => Some(input.gesture_duration_ms),
        Scene::Switch => Some(input.switch_duration_ms),
        Scene::Wake => Some(input.wake_duration_ms),
        Scene::Touch | Scene::Boost => Some(0),
        Scene::Idle => None,
    }
}

/// When a hint of the given duration ends; a duration of zero has no end.
pub open spec fn hint_end(duration: u64, now: u64) -> Option<u64> {
    if duration == 0 {
        None
    } else {
        Some(expiry(now, duration))
    }
}

/// The state with a hint for `scene`.
pub open spec fn with_hint(m: Model, scene: Scene, end: Option<u64>) -> Model {
    Model {
        observed: ObservedView { hints: m.observed.hints.insert(scene, end), ..m.observed },
        ..m
    }
}

/// The state without a hint for `scene`.
pub open spec fn without_hint(m: Model, scene: Scene) -> Model {
    Model {
        observed: ObservedView { hints: m.observed.hints.remove(scene), ..m.observed },
        ..m
    }
}

/// The state with the contacts that are down.
pub open spec fn with_contacts(m: Model, contacts: Set<TouchContactId>) -> Model {
    Model { observed: ObservedView { contacts, ..m.observed }, ..m }
}

/// The state after an external hint for `scene`.
pub open spec fn hinted(m: Model, scene: Scene, now: u64, then_barriers: bool) -> Model {
    match hint_duration(m.configuration.policy.input, scene) {
        None => m,
        Some(d) => with_hint(m, scene, hint_end(d, now)).asks(
            ActionView::Evaluate { then_barriers },
        ),
    }
}

/// The contacts that a resynchronisation leaves.
pub open spec fn resynced(contacts: Set<TouchContactId>, device: Option<InputDeviceId>) -> Set<
    TouchContactId,
> {
    match device {
        Some(d) => contacts.filter(|c: TouchContactId| c.device != d),
        None => Set::empty(),
    }
}

/// The state after an interaction event. The first contact starts a touch; the
/// last one ends it and triggers; a resynchronisation that ends a touch does
/// not trigger.
pub open spec fn input_reduced(m: Model, event: InputEvent, now: u64) -> Model {
    let contacts = m.observed.contacts;
    match event {
        InputEvent::TouchDown { contact, .. } => {
            let down = with_contacts(m, contacts.insert(contact));
            if contacts == Set::<TouchContactId>::empty() {
                with_hint(down, Scene::Touch, None).asks(evaluate())
            } else {
                down
            }
        },
        InputEvent::TouchUp { contact, .. } => {
            let up = with_contacts(m, contacts.remove(contact));
            if contacts == Set::<TouchContactId>::empty().insert(contact) {
                hinted(without_hint(up, Scene::Touch), Scene::Trigger, now, false)
            } else {
                up
            }
        },
        InputEvent::Gesture { .. } => hinted(m, Scene::Gesture, now, false),
        InputEvent::Resync { device } => {
            let rest = resynced(contacts, device);
            let left = with_contacts(m, rest);
            if contacts != Set::<TouchContactId>::empty() && rest == Set::<TouchContactId>::empty() {
                without_hint(left, Scene::Touch).asks(evaluate())
            } else {
                left
            }
        },
    }
}

impl RuntimeActor {
    /// Takes over an external hint.
    pub fn activate_external_hint(&mut self, scene: Scene, now: u64)
        ensures
            final(self)@ == hinted(old(self)@, scene, now, false),
    {
        self.activate_hint(scene, now, false);
    }

    /// Takes over an external hint; where asked for, the evaluation is followed
    /// by the mutation barriers.
    pub(crate) fn activate_hint(&mut self, scene: Scene, now: u64, then_barriers: bool)
        ensures
            final(self)@ == hinted(old(self)@, scene, now, then_barriers),
    {
        let input = self.configuration.policy.input;
        let duration: u64 = match scene {
            Scene::Trigger => input.trigger_duration_ms,
            Scene::Gesture => input.gesture_duration_ms,
            Scene::Switch => input.switch_duration_ms,
            Scene::Wake => input.wake_duration_ms,
            Scene::Touch => 0,
            Scene::Boost => 0,
            Scene::Idle => {
                return;
            },
        };
        if duration == 0 {
            self.observed.hints.activate(Hint::persistent(scene));
        } else {
            self.observed.hints.activate(Hint::with_ttl(scene, now, duration));
        }
        self.ask(Action::Evaluate { then_barriers });
    }

    /// Puts a contact down.
    fn touch_down(&mut self, contact: TouchContactId)
        ensures
            final(self)@ == ({
                let m = old(self)@;
                let down = with_contacts(m, m.observed.contacts.insert(contact));
                if m.observed.contacts == Set::<TouchContactId>::empty() {
                    with_hint(down, Scene::Touch, None).asks(evaluate())
                } else {
                    down
                }
            }),
    {
        if self.observed.contacts.press(contact) {
            self.observed.hints.activate(Hint::persistent(Scene::Touch));
            self.ask(Action::Evaluate { then_barriers: false });
        }
    }

    /// Takes over an interaction event.
    pub fn reduce_input(&mut self, event: InputEvent, now: u64)
        ensures
            final(self)@ == input_reduced(old(self)@, event, now),
    {
        match event {
            InputEvent::TouchDown { contact, .. } => {
                self.touch_down(contact);
            },
            InputEvent::TouchUp { contact, .. } => {
                if self.observed.contacts.release(contact) {
                    self.observed.hints.deactivate(Scene::Touch);
                    self.activate_hint(Scene::Trigger, now, false);
                }
            },
            InputEvent::Gesture { .. } => {
                self.activate_hint(Scene::Gesture, now, false);
            },
            InputEvent::Resync { device } => {
                let ended = self.observed.contacts.resync(device);
                assert(self.observed.contacts@ == resynced(old(self)@.observed.contacts, device));
                if ended {
                    self.observed.hints.deactivate(Scene::Touch);
                    self.ask(Action::Evaluate { then_barriers: false });
                }
            },
        }
    }
}

/// Whether the touch hint agrees with the contacts that are down.
pub open spec fn touch_wf(m: Model) -> bool {
    m.observed.hints.dom().contains(Scene::Touch) <==> m.observed.contacts != Set::<
        TouchContactId,
    >::empty()
}

/// The touch hint holds exactly while some contact is down.
pub proof fn touch_hint_follows_contacts(m: Model, event: InputEvent, now: u64)
    requires
        touch_wf(m),
    ensures
        touch_wf(input_reduced(m, event, now)),
{
    let contacts = m.observed.contacts;
    match event {
        InputEvent::TouchDown { contact, .. } => {
            assert(contacts.insert(contact).contains(contact));
        },
        InputEvent::TouchUp { contact, .. } => {
            if contacts == Set::<TouchContactId>::empty().insert(contact) {
                assert(contacts.remove(contact) =~= Set::<TouchContactId>::empty());
            } else if contacts.remove(contact) == Set::<TouchContactId>::empty() {
                if contacts.contains(contact) {
                    assert(contacts =~= Set::<TouchContactId>::empty().insert(contact));
                } else {
                    assert(contacts =~= Set::<TouchContactId>::empty());
                }
            } else {
                assert(contacts != Set::<TouchContactId>::empty()) by {
                    if contacts == Set::<TouchContactId>::empty() {
                        assert(contacts.remove(contact) =~= Set::<TouchContactId>::empty());
                    }
                }
            }
        },
        InputEvent::Gesture { .. } => {},
        InputEvent::Resync { device } => {
            if contacts == Set::<TouchContactId>::empty() {
                assert(resynced(contacts, device) =~= Set::<TouchContactId>::empty());
            }
        },
    }
}

} // verus!
