//! Bounded concurrency limiter: a counting semaphore with non-blocking
//! acquisition. With all slots taken, a new request is rejected rather than
//! queued, so that work never outlives an edge-compute time budget.

use vstd::prelude::*;

verus! {

/// A counting semaphore. `in_flight` is the number of slots currently held;
/// it never exceeds `capacity`.
pub struct Limiter {
    pub capacity: usize,
    pub in_flight: usize,
}

impl Limiter {
    /// The limiter's structural invariant.
    pub open spec fn wf(&self) -> bool {
        self.in_flight <= self.capacity
    }

    /// How many pipelines may run at once.
    pub open spec fn spec_capacity(&self) -> nat {
        self.capacity as nat
    }

    /// How many slots are currently held.
    pub open spec fn spec_in_flight(&self) -> nat {
        self.in_flight as nat
    }

    pub fn new(capacity: usize) -> (r: Limiter)
        ensures
            r.wf(),
            r.spec_capacity() == capacity,
            r.spec_in_flight() == 0,
    {
        Limiter { capacity, in_flight: 0 }
    }

    pub fn capacity(&self) -> (r: usize)
        ensures
            r == self.spec_capacity(),
    {
        self.capacity
    }

    pub fn in_flight(&self) -> (r: usize)
        ensures
            r == self.spec_in_flight(),
    {
        self.in_flight
    }

    /// Non-blocking acquisition: succeeds, taking one slot, exactly when a
    /// slot is free; a caller refused here is answered with the
    /// too-many-concurrent-requests error, never queued.
    pub fn try_acquire(&mut self) -> (acquired: bool)
        requires
            old(self).wf(),
        ensures
            final(self).wf(),
            final(self).spec_capacity() == old(self).spec_capacity(),
            acquired == (old(self).spec_in_flight() < old(self).spec_capacity()),
            acquired ==> final(self).spec_in_flight() == old(self).spec_in_flight() + 1,
            !acquired ==> final(self).spec_in_flight() == old(self).spec_in_flight(),
    {
        if self.in_flight < self.capacity {
            self.in_flight = self.in_flight + 1;
            true
        } else {
            false
        }
    }

    /// Returns a slot taken by `try_acquire`.
    pub fn release(&mut self)
        requires
            old(self).wf(),
            old(self).spec_in_flight() > 0,
        ensures
            final(self).wf(),
            final(self).spec_capacity() == old(self).spec_capacity(),
            final(self).spec_in_flight() == old(self).spec_in_flight() - 1,
    {
        self.in_flight = self.in_flight - 1;
    }
}

/// With capacity `k`, once `k` slots are held the next acquisition is
/// refused and the state is unchanged; as soon as any holder releases,
/// the next acquisition succeeds.
pub proof fn lemma_limiter_fail_fast(l: Limiter)
    requires
        l.wf(),
        l.spec_in_flight() == l.spec_capacity(),
    ensures
        !(l.spec_in_flight() < l.spec_capacity()),
        l.spec_in_flight() > 0 ==> (l.spec_in_flight() - 1) < l.spec_capacity(),
{
}

} // verus!
