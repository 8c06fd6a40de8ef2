//! The cooperative shutdown protocol: a broadcast cancellation signal whose
//! sender handles double as a drain count.
//!
//! Every long-running worker holds one sender handle; the root holds the
//! original. Whichever party stops first broadcasts the signal; every other
//! worker observes it, re-broadcasts (idempotently), and releases its
//! handle on the way out. The root releases its own handle and then waits
//! until no handle remains, so the process never exits while a worker is
//! mid-cleanup.
//!
//! This module is the bookkeeping of that protocol; the surrounding shell
//! maps it onto its broadcast channel, whose receiver reports "closed"
//! exactly when every sender handle is gone.
use vstd::prelude::*;

verus! {

/// The observable state of the shutdown protocol: how many sender handles
/// are outstanding, and whether cancellation has been signaled.
pub struct ShutdownCoordinator {
    senders: u64,
    signaled: bool,
}

impl ShutdownCoordinator {
    /// Outstanding sender handles, the root's included.
    pub closed spec fn sender_count(&self) -> u64 {
        self.senders
    }

    /// Whether cancellation has been broadcast at least once.
    pub closed spec fn is_signaled(&self) -> bool {
        self.signaled
    }

    /// At process start the root holds the one handle and nothing is
    /// signaled.
    pub fn new() -> (c: Self)
        ensures
            c.sender_count() == 1,
            !c.is_signaled(),
    {
        ShutdownCoordinator { senders: 1, signaled: false }
    }

    /// A worker is spawned: it clones a live handle.
    pub fn register_worker(&mut self)
        requires
            1 <= old(self).sender_count() < u64::MAX,
        ensures
            final(self).sender_count() == old(self).sender_count() + 1,
            final(self).is_signaled() == old(self).is_signaled(),
    {
        self.senders = self.senders + 1;
    }

    /// Cancellation is broadcast. Idempotent: a redundant broadcast is
    /// harmless and changes nothing further.
    pub fn signal(&mut self)
        ensures
            final(self).is_signaled(),
            final(self).sender_count() == old(self).sender_count(),
    {
        self.signaled = true;
    }

    /// A worker stops, for any reason: it re-broadcasts the signal and
    /// releases its handle.
    pub fn worker_exit(&mut self)
        requires
            old(self).sender_count() >= 1,
        ensures
            final(self).sender_count() == old(self).sender_count() - 1,
            final(self).is_signaled(),
            *final(self) == exit_spec(*old(self)),
    {
        self.signaled = true;
        self.senders = self.senders - 1;
    }

    /// Whether the root's wait is over: no sender handle remains.
    pub fn drained(&self) -> (r: bool)
        ensures
            r == (self.sender_count() == 0),
    {
        self.senders == 0
    }
}

/// One worker's exit, as a transition.
pub closed spec fn exit_spec(c: ShutdownCoordinator) -> ShutdownCoordinator {
    ShutdownCoordinator { senders: (c.sender_count() - 1) as u64, signaled: true }
}

/// The state after `n` further workers have exited.
pub closed spec fn after_exits(c: ShutdownCoordinator, n: nat) -> ShutdownCoordinator
    decreases n,
{
    if n == 0 {
        c
    } else {
        after_exits(exit_spec(c), (n - 1) as nat)
    }
}

/// The drain terminates: once every outstanding handle holder has exited,
/// no handle remains and the signal stands, so the root's wait completes.
pub proof fn lemma_drain_completes(c: ShutdownCoordinator, n: nat)
    requires
        c.sender_count() == n,
    ensures
        after_exits(c, n).sender_count() == 0,
        n > 0 ==> after_exits(c, n).is_signaled(),
    decreases n,
{
    if n > 0 {
        lemma_drain_completes(exit_spec(c), (n - 1) as nat);
        if n == 1 {
            assert(after_exits(c, n) == after_exits(exit_spec(c), (n - 1) as nat));
        }
    }
}

} // verus!
