//! The touch contacts that are down, over all devices.

use vstd::prelude::*;
use crate::platform::{InputDeviceId, TouchContactId};

verus! {

/// The set of active touch contacts.
#[derive(Debug)]
pub struct ActiveTouchContacts {
    contacts: Vec<TouchContactId>,
}

impl View for ActiveTouchContacts {
    type V = Set<TouchContactId>;

    closed spec fn view(&self) -> Set<TouchContactId> {
        self.contacts@.to_set()
    }
}

impl Default for ActiveTouchContacts {
    fn default() -> (c: Self)
        ensures
            c@ == Set::<TouchContactId>::empty(),
    {
        let c = ActiveTouchContacts { contacts: Vec::new() };
        assert(c@ =~= Set::<TouchContactId>::empty());
        c
    }
}

impl ActiveTouchContacts {
    /// Whether no contact is down.
    pub fn is_empty(&self) -> (r: bool)
        ensures
            r == (self@ == Set::<TouchContactId>::empty()),
    {
        proof {
            if self.contacts@.len() > 0 {
                assert(self@.contains(self.contacts@[0]));
            } else {
                assert(self@ =~= Set::<TouchContactId>::empty());
            }
        }
        self.contacts.len() == 0
    }

    /// Whether `contact` is down.
    fn holds(&self, contact: TouchContactId) -> (r: bool)
        ensures
            r == self@.contains(contact),
    {
        let mut i: usize = 0;
        while i < self.contacts.len()
            invariant
                i <= self.contacts@.len(),
                forall|j: int| 0 <= j < i ==> self.contacts@[j] != contact,
            decreases self.contacts@.len() - i,
        {
            if self.contacts[i] == contact {
                assert(self.contacts@.contains(contact));
                return true;
            }
            i = i + 1;
        }
        false
    }

    /// Keeps the contacts other than `contact` that are not on `device`.
    fn keep_others(&mut self, contact: Option<TouchContactId>, device: Option<InputDeviceId>)
        ensures
            final(self)@ == old(self)@.filter(
                |c: TouchContactId| Some(c) != contact && Some(c.device) != device,
            ),
    {
        let ghost keep = |c: TouchContactId| Some(c) != contact && Some(c.device) != device;
        let mut kept: Vec<TouchContactId> = Vec::new();
        let mut i: usize = 0;
        while i < self.contacts.len()
            invariant
                i <= self.contacts@.len(),
                keep == (|c: TouchContactId| Some(c) != contact && Some(c.device) != device),
                forall|c: TouchContactId| #[trigger]
                    kept@.contains(c) ==> keep(c) && self.contacts@.contains(c),
                forall|j: int|
                    0 <= j < i && keep(#[trigger] self.contacts@[j]) ==> kept@.contains(
                        self.contacts@[j],
                    ),
            decreases self.contacts@.len() - i,
        {
            let c = self.contacts[i];
            let other = match contact {
                Some(x) => c != x,
                None => true,
            };
            let elsewhere = match device {
                Some(d) => c.device != d,
                None => true,
            };
            let ghost prior = kept@;
            if other && elsewhere {
                kept.push(c);
                proof {
                    assert(kept@[prior.len() as int] == c);
                    assert forall|e: TouchContactId| prior.contains(e) implies kept@.contains(e) by {
                        let k = choose|k: int| 0 <= k < prior.len() && prior[k] == e;
                        assert(kept@[k] == e);
                    }
                    assert forall|e: TouchContactId| #[trigger] kept@.contains(e) implies keep(e)
                        && self.contacts@.contains(e) by {
                        let k = choose|k: int| 0 <= k < kept@.len() && kept@[k] == e;
                        if k < prior.len() {
                            assert(prior.contains(e));
                        }
                    }
                }
            }
            i = i + 1;
        }
        proof {
            assert forall|c: TouchContactId| kept@.to_set().contains(c) <==> old(
                self,
            )@.filter(keep).contains(c) by {
                if self.contacts@.contains(c) && keep(c) {
                    let j = choose|j: int| 0 <= j < self.contacts@.len() && self.contacts@[j] == c;
                    assert(kept@.contains(self.contacts@[j]));
                }
            }
        }
        self.contacts = kept;
        assert(self@ =~= old(self)@.filter(keep));
    }

    /// Puts a contact down. Returns true only when it is the first one down.
    pub fn press(&mut self, contact: TouchContactId) -> (first: bool)
        ensures
            final(self)@ == old(self)@.insert(contact),
            first == (old(self)@ == Set::<TouchContactId>::empty()),
            final(self)@ == contacts_after(old(self)@, ContactCall::Press(contact)),
            first == call_returns(old(self)@, ContactCall::Press(contact)),
    {
        let was_empty = self.is_empty();
        if self.holds(contact) {
            assert(self@ =~= old(self)@.insert(contact));
            return false;
        }
        let ghost before = self.contacts@;
        self.contacts.push(contact);
        proof {
            assert(self.contacts@ =~= before.push(contact));
            assert forall|e: TouchContactId| self@.contains(e) <==> before.to_set().insert(
                contact,
            ).contains(e) by {
                if before.contains(e) {
                    let k = choose|k: int| 0 <= k < before.len() && before[k] == e;
                    assert(self.contacts@[k] == e);
                }
                assert(self.contacts@[before.len() as int] == contact);
            }
            assert(self@ =~= before.to_set().insert(contact));
        }
        was_empty
    }

    /// Lifts a contact. Returns true only when a known contact was the last one
    /// down.
    pub fn release(&mut self, contact: TouchContactId) -> (last: bool)
        ensures
            final(self)@ == old(self)@.remove(contact),
            last == (old(self)@ == Set::<TouchContactId>::empty().insert(contact)),
            final(self)@ == contacts_after(old(self)@, ContactCall::Release(contact)),
            last == call_returns(old(self)@, ContactCall::Release(contact)),
    {
        let known = self.holds(contact);
        self.keep_others(Some(contact), None);
        proof {
            assert(self@ =~= old(self)@.remove(contact));
            if old(self)@.contains(contact) && self@ == Set::<TouchContactId>::empty() {
                assert(old(self)@ =~= Set::<TouchContactId>::empty().insert(contact));
            }
            if old(self)@ == Set::<TouchContactId>::empty().insert(contact) {
                assert(self@ =~= Set::<TouchContactId>::empty());
            }
        }
        known && self.is_empty()
    }

    /// Discards one device, or all devices. Returns true when that ended a
    /// touch.
    pub fn resync(&mut self, device: Option<InputDeviceId>) -> (ended: bool)
        ensures
            final(self)@ == match device {
                Some(d) => old(self)@.filter(|c: TouchContactId| c.device != d),
                None => Set::<TouchContactId>::empty(),
            },
            ended == (old(self)@ != Set::<TouchContactId>::empty() && final(self)@ == Set::<
                TouchContactId,
            >::empty()),
            final(self)@ == contacts_after(old(self)@, ContactCall::Resync(device)),
            ended == call_returns(old(self)@, ContactCall::Resync(device)),
    {
        let had_contacts = !self.is_empty();
        match device {
            Some(d) => {
                self.keep_others(None, Some(d));
                assert(self@ =~= old(self)@.filter(|c: TouchContactId| c.device != d));
            },
            None => {
                self.clear();
            },
        }
        had_contacts && self.is_empty()
    }

    /// Lifts every contact.
    pub fn clear(&mut self)
        ensures
            final(self)@ == Set::<TouchContactId>::empty(),
    {
        self.contacts = Vec::new();
        assert(self@ =~= Set::<TouchContactId>::empty());
    }
}

/// A touch that was pressed and then released leaves the other contacts as
/// they were.
pub proof fn press_then_release(before: Set<TouchContactId>, contact: TouchContactId)
    requires
        !before.contains(contact),
    ensures
        before.insert(contact).remove(contact) == before,
{
    assert(before.insert(contact).remove(contact) =~= before);
}

/// Discarding one device keeps every contact of every other device, and no
/// contact of that one.
pub proof fn resync_keeps_other_devices(
    before: Set<TouchContactId>,
    device: InputDeviceId,
    contact: TouchContactId,
)
    ensures
        before.filter(|c: TouchContactId| c.device != device).contains(contact) <==> before.contains(
            contact,
        ) && contact.device != device,
{
}

/// One call on the contacts.
pub enum ContactCall {
    Press(TouchContactId),
    Release(TouchContactId),
    Resync(Option<InputDeviceId>),
}

/// The contacts that are down after a call.
pub open spec fn contacts_after(before: Set<TouchContactId>, call: ContactCall) -> Set<
    TouchContactId,
> {
    match call {
        ContactCall::Press(c) => before.insert(c),
        ContactCall::Release(c) => before.remove(c),
        ContactCall::Resync(device) => match device {
            Some(d) => before.filter(|c: TouchContactId| c.device != d),
            None => Set::<TouchContactId>::empty(),
        },
    }
}

/// What a call returns: for a press that a touch began, for the others that one
/// ended.
pub open spec fn call_returns(before: Set<TouchContactId>, call: ContactCall) -> bool {
    let none = Set::<TouchContactId>::empty();
    match call {
        ContactCall::Press(c) => before == none,
        ContactCall::Release(c) => before == none.insert(c),
        ContactCall::Resync(device) => before != none && contacts_after(before, call) == none,
    }
}

/// The contacts that are down after the first `n` calls, made from none.
pub open spec fn contacts_down(calls: Seq<ContactCall>, n: nat) -> Set<TouchContactId>
    decreases n,
{
    if n == 0 {
        Set::empty()
    } else {
        contacts_after(contacts_down(calls, (n - 1) as nat), calls[n - 1])
    }
}

/// Whether the call at position `i` says that a touch began.
pub open spec fn begins(calls: Seq<ContactCall>, i: int) -> bool {
    calls[i] is Press && call_returns(contacts_down(calls, i as nat), calls[i])
}

/// Whether the call at position `i` says that a touch ended.
pub open spec fn ends(calls: Seq<ContactCall>, i: int) -> bool {
    !(calls[i] is Press) && call_returns(contacts_down(calls, i as nat), calls[i])
}

/// How many of the first `n` calls say that a touch began.
pub open spec fn begun(calls: Seq<ContactCall>, n: nat) -> nat
    decreases n,
{
    if n == 0 {
        0
    } else {
        begun(calls, (n - 1) as nat) + (if begins(calls, n - 1) {
            1nat
        } else {
            0
        })
    }
}

/// How many of the first `n` calls say that a touch ended.
pub open spec fn ended(calls: Seq<ContactCall>, n: nat) -> nat
    decreases n,
{
    if n == 0 {
        0
    } else {
        ended(calls, (n - 1) as nat) + (if ends(calls, n - 1) {
            1nat
        } else {
            0
        })
    }
}

/// Over any row of calls made from no contact, touches begin and end in turn,
/// and a press comes first: as many have begun as have ended, and one more
/// exactly while a contact is down.
pub proof fn touches_begin_and_end_in_turn(calls: Seq<ContactCall>, n: nat)
    requires
        n <= calls.len(),
    ensures
        begun(calls, n) == ended(calls, n) + (if contacts_down(calls, n) == Set::<
            TouchContactId,
        >::empty() {
            0nat
        } else {
            1
        }),
    decreases n,
{
    if n > 0 {
        touches_begin_and_end_in_turn(calls, (n - 1) as nat);
        let none = Set::<TouchContactId>::empty();
        let before = contacts_down(calls, (n - 1) as nat);
        let after = contacts_down(calls, n);
        match calls[n - 1] {
            ContactCall::Press(c) => {
                assert(after.contains(c));
            },
            ContactCall::Release(c) => {
                assert(none.insert(c).contains(c));
                if before == none {
                    assert(after =~= none);
                } else if before == none.insert(c) {
                    assert(after =~= none);
                } else if after == none {
                    assert(before =~= none.insert(c)) by {
                        assert forall|x: TouchContactId| before.contains(x) implies x == c by {
                            if x != c {
                                assert(after.contains(x));
                            }
                        }
                        if !before.contains(c) {
                            assert(before =~= none);
                        }
                    }
                }
            },
            ContactCall::Resync(device) => {
                if before == none {
                    assert(after =~= none);
                }
            },
        }
    }
}

} // verus!
