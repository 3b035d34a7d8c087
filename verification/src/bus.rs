//! The change bus: payload-free pulses from the capture side to consumers.

use vstd::prelude::*;

verus! {

/// The number of pulses pending after one more is published onto `pending`.
/// The count saturates: a pulse onto a full bus merges into those pending.
pub open spec fn pulsed(pending: nat) -> nat {
    if pending < u64::MAX {
        pending + 1
    } else {
        pending
    }
}

/// A queue of pulses. A pulse carries nothing: it tells a consumer to query
/// the store again.
pub struct ChangeBus {
    pending: u64,
}

impl View for ChangeBus {
    type V = nat;

    closed spec fn view(&self) -> nat {
        self.pending as nat
    }
}

impl ChangeBus {
    /// A bus with nothing pending.
    pub fn new() -> (bus: ChangeBus)
        ensures
            bus@ == 0,
    {
        ChangeBus { pending: 0 }
    }

    /// Publishes one pulse. Never refused and never waits.
    pub fn publish(&mut self)
        ensures
            final(self)@ == pulsed(old(self)@),
    {
        if self.pending < u64::MAX {
            self.pending = self.pending + 1;
        }
    }

    /// Takes every pending pulse off the bus and returns how many there were.
    pub fn drain(&mut self) -> (count: u64)
        ensures
            count == old(self)@,
            final(self)@ == 0,
    {
        let count: u64 = self.pending;
        self.pending = 0;
        count
    }

    /// The number of pulses pending.
    pub fn pending(&self) -> (count: u64)
        ensures
            count == self@,
    {
        self.pending
    }
}

/// At least one notification per change: after a pulse is published, a
/// drain finds at least one pending, and no pulse published before it is
/// lost to one that follows.
pub proof fn lemma_published_is_pending(pending: nat)
    ensures
        pulsed(pending) >= 1,
        pulsed(pending) >= pending,
{
}

} // verus!
