//! The anonymous process set.
//!
//! Fire-and-forget background launches are tracked here with no identity
//! beyond insertion: the set only grows, and the one bulk operation drains
//! every tracked process into a best-effort termination sweep. No liveness
//! or lookup operation exists by design — anonymous processes are opaque
//! once launched, and only mass termination is guaranteed.

use vstd::prelude::*;

use crate::sweep::KillSweep;

verus! {

/// The registry of anonymous background processes, by OS identifier.
///
/// Every identifier ever added stays in the set until the bulk clear on
/// shutdown; there is no individual removal.
pub struct BackgroundProcessesGuard {
    processes: Vec<u64>,
}

impl View for BackgroundProcessesGuard {
    type V = Seq<u64>;

    closed spec fn view(&self) -> Seq<u64> {
        self.processes@
    }
}

impl BackgroundProcessesGuard {
    /// An empty set: nothing is tracked yet.
    pub fn new() -> (g: BackgroundProcessesGuard)
        ensures
            g@ == Seq::<u64>::empty(),
    {
        BackgroundProcessesGuard { processes: Vec::new() }
    }

    /// Tracks one more background process. Never fails; the set grows by
    /// exactly this identifier.
    pub fn add_process(&mut self, pid: u64)
        ensures
            final(self)@ == old(self)@.push(pid),
    {
        self.processes.push(pid);
    }

    /// Empties the set, handing every tracked identifier back in insertion
    /// order.
    pub fn drain(&mut self) -> (v: Vec<u64>)
        ensures
            v@ == old(self)@,
            final(self)@ == Seq::<u64>::empty(),
    {
        let mut drained: Vec<u64> = Vec::new();
        core::mem::swap(&mut drained, &mut self.processes);
        drained
    }

    /// Drains the whole set into a termination sweep: the sweep targets
    /// every tracked process, in insertion order, and the set is cleared
    /// unconditionally before any terminate request is issued.
    pub fn kill_all_processes(&mut self) -> (s: KillSweep)
        ensures
            s.inv(),
            s.position() == 0,
            s.targets() == old(self)@,
            s.failed_targets() == Seq::<u64>::empty(),
            final(self)@ == Seq::<u64>::empty(),
    {
        let drained = self.drain();
        KillSweep::new(drained)
    }
}

} // verus!
