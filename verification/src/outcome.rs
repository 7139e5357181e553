//! Outcomes of the operating-system calls that the supervisor reacts to.
//!
//! The host performs the actual non-blocking status probe and the terminate
//! request on a child process; the registries take the observed outcome as an
//! argument and are verified for every possible outcome.

use vstd::prelude::*;

verus! {

/// What a non-blocking status probe of a tracked process reported.
///
/// The probe itself can fail (the OS query errors out); that third outcome is
/// kept distinct so the liveness check can map it to "still running"
/// explicitly, a deliberate safety bias against double-launching a role whose
/// true state is unknown.
#[derive(Clone, Copy, PartialEq, Eq, Structural, Debug)]
pub enum ProbeOutcome {
    /// The process has exited.
    Exited,
    /// The process is still running.
    Running,
    /// The OS query itself failed; the true state is unknown.
    Unknown,
}

/// What a terminate request on a tracked process reported.
#[derive(Clone, Copy, PartialEq, Eq, Structural, Debug)]
pub enum KillOutcome {
    /// The OS accepted the terminate request.
    Succeeded,
    /// The OS refused or failed the terminate request.
    Failed,
}

} // verus!
