//! Cooperative-shutdown bookkeeping.
//!
//! The coordinator pairs a fire-at-most-once cancellation flag with a counted
//! completion barrier.  Every spawned handler holds one barrier token for its
//! lifetime; the root triggers the flag once on interrupt, then waits until
//! every token has been released before it lets the process exit.  The
//! broadcasting and the waiting are carried out by the process around the
//! library; this type decides, at each step, what state the protocol is in.

use vstd::prelude::*;

verus! {

/// The cancellation flag and the completion barrier's count.
pub struct ShutdownCoordinator {
    triggered: bool,
    outstanding: u64,
}

impl ShutdownCoordinator {
    /// Has shutdown been triggered?
    pub closed spec fn is_triggered(&self) -> bool {
        self.triggered
    }

    /// How many issued barrier tokens are not yet released.
    pub closed spec fn outstanding_count(&self) -> u64 {
        self.outstanding
    }

    /// May the root let the process exit?  Only once shutdown was triggered
    /// and every handler has finished.
    pub open spec fn spec_may_exit(&self) -> bool {
        self.is_triggered() && self.outstanding_count() == 0
    }

    /// A fresh coordinator: not triggered, no handler outstanding.
    pub fn new() -> (coordinator: ShutdownCoordinator)
        ensures
            !coordinator.is_triggered(),
            coordinator.outstanding_count() == 0,
    {
        ShutdownCoordinator { triggered: false, outstanding: 0 }
    }

    /// Fire the shutdown signal.  Idempotent: the returned flag says whether
    /// this call was the one that fired it, so the caller broadcasts at most
    /// once.
    pub fn trigger(&mut self) -> (fired: bool)
        ensures
            final(self).is_triggered(),
            final(self).outstanding_count() == old(self).outstanding_count(),
            fired <==> !old(self).is_triggered(),
    {
        let fired = !self.triggered;
        self.triggered = true;
        fired
    }

    /// Hand out one barrier token for a newly spawned handler.
    pub fn issue_token(&mut self)
        requires
            old(self).outstanding_count() < u64::MAX,
        ensures
            final(self).outstanding_count() == old(self).outstanding_count() + 1,
            final(self).is_triggered() == old(self).is_triggered(),
    {
        self.outstanding = self.outstanding + 1;
    }

    /// Release the barrier token of a handler that has finished.
    pub fn release_token(&mut self)
        requires
            old(self).outstanding_count() > 0,
        ensures
            final(self).outstanding_count() == old(self).outstanding_count() - 1,
            final(self).is_triggered() == old(self).is_triggered(),
    {
        self.outstanding = self.outstanding - 1;
    }

    /// How many issued barrier tokens are not yet released.
    pub fn outstanding(&self) -> (count: u64)
        ensures
            count == self.outstanding_count(),
    {
        self.outstanding
    }

    /// Has every issued barrier token been released?
    pub fn drained(&self) -> (done: bool)
        ensures
            done <==> self.outstanding_count() == 0,
    {
        self.outstanding == 0
    }

    /// May the root let the process exit now?
    pub fn may_exit(&self) -> (allowed: bool)
        ensures
            allowed <==> self.spec_may_exit(),
    {
        self.triggered && self.outstanding == 0
    }
}

/// Graceful drain: while any handler still holds its barrier token, the
/// coordinator does not let the process exit, triggered or not; and once a
/// coordinator with `n` outstanding handlers is triggered, exactly `n`
/// releases are needed before it does.
pub proof fn lemma_drain_waits_for_all(coordinator: ShutdownCoordinator)
    ensures
        coordinator.outstanding_count() > 0 ==> !coordinator.spec_may_exit(),
        coordinator.is_triggered() && coordinator.outstanding_count() == 0
            ==> coordinator.spec_may_exit(),
{
}

} // verus!
