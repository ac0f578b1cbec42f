//! Counting limiter that bounds how many settlement submissions may be in
//! flight at once.
//!
//! The limiter is the shared gate of the settlement dispatcher: a submission
//! task acquires a permit before it starts and releases it on every exit
//! path. Well-formedness — never more permits out than the configured
//! capacity — is established by the constructor and preserved by every
//! operation.

use vstd::prelude::*;

verus! {

/// A counting permit gate with a fixed capacity.
pub struct Limiter {
    capacity: usize,
    in_flight: usize,
}

impl Limiter {
    /// The configured bound on concurrent permits.
    pub closed spec fn capacity(&self) -> int {
        self.capacity as int
    }

    /// How many permits are currently out.
    pub closed spec fn in_flight(&self) -> int {
        self.in_flight as int
    }

    /// Well-formedness: the permits out never exceed the capacity.
    pub open spec fn wf(&self) -> bool {
        0 <= self.in_flight() <= self.capacity()
    }

    /// Creates a limiter with the given capacity and no permits out.
    pub fn new(capacity: usize) -> (r: Self)
        ensures
            r.wf(),
            r.capacity() == capacity as int,
            r.in_flight() == 0,
    {
        Limiter { capacity, in_flight: 0 }
    }

    /// Hands out a permit when one is free: succeeds exactly when fewer
    /// permits are out than the capacity allows.
    pub fn try_acquire(&mut self) -> (r: bool)
        requires
            old(self).wf(),
        ensures
            final(self).wf(),
            final(self).capacity() == old(self).capacity(),
            r == (old(self).in_flight() < old(self).capacity()),
            r ==> final(self).in_flight() == old(self).in_flight() + 1,
            !r ==> final(self).in_flight() == old(self).in_flight(),
    {
        if self.in_flight < self.capacity {
            self.in_flight = self.in_flight + 1;
            true
        } else {
            false
        }
    }

    /// Returns a permit. Callers hold a permit, so at least one is out.
    pub fn release(&mut self)
        requires
            old(self).wf(),
            old(self).in_flight() >= 1,
        ensures
            final(self).wf(),
            final(self).capacity() == old(self).capacity(),
            final(self).in_flight() == old(self).in_flight() - 1,
    {
        self.in_flight = self.in_flight - 1;
    }

    /// How many permits are out right now.
    pub fn current(&self) -> (r: usize)
        ensures
            r as int == self.in_flight(),
    {
        self.in_flight
    }
}

/// The concurrency bound: in every well-formed limiter state — the
/// constructor's state and every state an operation can reach from one — no
/// more permits are out than the configured capacity.
pub proof fn lemma_concurrency_bound(l: Limiter)
    requires
        l.wf(),
    ensures
        l.in_flight() <= l.capacity(),
{
}

} // verus!
