//! Best-effort mass termination.
//!
//! Clearing a registry on shutdown must send a terminate request to every
//! tracked process even when some of those requests fail. A [`KillSweep`]
//! fixes the full list of targets up front; the host then walks it, issuing
//! one terminate request per target and reporting each outcome back. The
//! contracts show that the walk hands out every target exactly once and that
//! a failed request never shortens what is still to be attempted.

use vstd::prelude::*;

use crate::outcome::KillOutcome;

verus! {

/// A planned best-effort termination pass over a fixed list of process
/// identifiers.
///
/// The host repeatedly asks for the next target, issues the terminate
/// request, and records the outcome; failed targets are remembered so they
/// can be reported, never retried or skipped ahead of the rest.
pub struct KillSweep {
    targets: Vec<u64>,
    next: usize,
    failed: Vec<u64>,
}

impl KillSweep {
    /// All process identifiers this sweep will attempt, in order.
    pub closed spec fn targets(self) -> Seq<u64> {
        self.targets@
    }

    /// How many targets have been attempted so far.
    pub closed spec fn position(self) -> int {
        self.next as int
    }

    /// The targets whose terminate request has already been issued.
    pub open spec fn attempted(self) -> Seq<u64> {
        self.targets().take(self.position())
    }

    /// The targets still awaiting a terminate request.
    pub open spec fn remaining(self) -> Seq<u64> {
        self.targets().skip(self.position())
    }

    /// The attempted targets whose terminate request failed.
    pub closed spec fn failed_targets(self) -> Seq<u64> {
        self.failed@
    }

    pub open spec fn inv(self) -> bool {
        0 <= self.position() <= self.targets().len()
    }

    pub open spec fn done(self) -> bool {
        self.position() == self.targets().len()
    }

    /// Starts a sweep over the given targets; nothing is attempted yet.
    pub fn new(targets: Vec<u64>) -> (s: KillSweep)
        ensures
            s.inv(),
            s.targets() == targets@,
            s.position() == 0,
            s.failed_targets() == Seq::<u64>::empty(),
    {
        KillSweep { targets, next: 0, failed: Vec::new() }
    }

    /// The next process to send a terminate request to, or `None` once every
    /// target has been attempted.
    pub fn next_target(&self) -> (r: Option<u64>)
        requires
            self.inv(),
        ensures
            r == if self.done() {
                Option::<u64>::None
            } else {
                Option::Some(self.targets()[self.position()])
            },
    {
        if self.next < self.targets.len() {
            Some(self.targets[self.next])
        } else {
            None
        }
    }

    /// True once every target has been attempted.
    pub fn is_done(&self) -> (r: bool)
        requires
            self.inv(),
        ensures
            r == self.done(),
    {
        self.next == self.targets.len()
    }

    /// Records the outcome of the terminate request for the current target
    /// and moves on to the next one. The outcome decides only whether the
    /// target is noted as failed; it never changes which targets follow.
    pub fn record_outcome(&mut self, outcome: KillOutcome)
        requires
            old(self).inv(),
            !old(self).done(),
        ensures
            final(self).inv(),
            record_step(*old(self), outcome, *final(self)),
    {
        let n = self.targets.len();
        if matches!(outcome, KillOutcome::Failed) {
            let pid = self.targets[self.next];
            self.failed.push(pid);
        }
        assert(self.next < n);
        self.next = self.next + 1;
    }

    /// The targets whose terminate request failed, for reporting.
    pub fn failed_processes(&self) -> (r: &Vec<u64>)
        ensures
            r@ == self.failed_targets(),
    {
        &self.failed
    }
}

/// How one recorded outcome relates the sweep before it to the sweep after
/// it: the position advances past exactly one target, the target list is
/// untouched, and the outcome only decides whether that target is noted as
/// failed.
pub open spec fn record_step(pre: KillSweep, outcome: KillOutcome, post: KillSweep) -> bool {
    &&& post.targets() == pre.targets()
    &&& post.position() == pre.position() + 1
    &&& post.failed_targets() == if outcome is Succeeded {
        pre.failed_targets()
    } else {
        pre.failed_targets().push(pre.targets()[pre.position()])
    }
}

/// Mass-kill completeness: a sweep that has run to the end has attempted
/// every one of its targets, exactly in order, and has none remaining —
/// whatever the individual outcomes were.
pub proof fn lemma_mass_kill_completeness(s: KillSweep)
    requires
        s.inv(),
        s.done(),
    ensures
        s.attempted() == s.targets(),
        s.remaining() == Seq::<u64>::empty(),
{
    assert(s.attempted() =~= s.targets());
    assert(s.remaining() =~= Seq::<u64>::empty());
}

/// Best-effort shutdown: a failed terminate request advances the sweep
/// exactly as a successful one does — the targets already attempted and the
/// targets still to come are the same either way, so no failure can abort
/// the rest of the pass.
pub proof fn lemma_failure_does_not_abort(
    pre: KillSweep,
    o1: KillOutcome,
    o2: KillOutcome,
    post1: KillSweep,
    post2: KillSweep,
)
    requires
        pre.inv(),
        !pre.done(),
        record_step(pre, o1, post1),
        record_step(pre, o2, post2),
    ensures
        post1.attempted() == post2.attempted(),
        post1.remaining() == post2.remaining(),
        post1.attempted() == pre.attempted().push(pre.targets()[pre.position()]),
{
    assert(post1.attempted() =~= post2.attempted());
    assert(post1.remaining() =~= post2.remaining());
    assert(post1.attempted() =~= pre.attempted().push(pre.targets()[pre.position()]));
}

} // verus!
