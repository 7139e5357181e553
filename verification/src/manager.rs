//! The named process table.
//!
//! A mapping from a role name (for example "server" or "executor") to at
//! most one live process. The table self-heals: a liveness check that
//! observes the underlying process has exited removes the stale entry, so
//! the table never reports a dead process as present. A probe whose OS
//! query itself failed is conservatively treated as "still running" — a
//! deliberate safety bias against double-launching a role whose true state
//! is unknown.
//!
//! The table is stored as a vector of entries with pairwise-distinct role
//! names, kept in insertion order; its mathematical model is the map
//! [`ProcessManager::as_map`].

use vstd::prelude::*;

use crate::outcome::{KillOutcome, ProbeOutcome};
use crate::sweep::KillSweep;

verus! {

use vstd::string::StrSliceExecFns;

struct RoleEntry {
    role: String,
    pid: u64,
}

/// The registry of named singleton processes.
pub struct ProcessManager {
    entries: Vec<RoleEntry>,
}

/// Whether some entry of `s` carries the role name `k`.
pub open spec fn has_role(s: Seq<(Seq<char>, u64)>, k: Seq<char>) -> bool {
    exists|i: int| 0 <= i < s.len() && (#[trigger] s[i]).0 == k
}

/// The index of the entry carrying role name `k` (unique when roles are
/// pairwise distinct).
pub open spec fn role_index(s: Seq<(Seq<char>, u64)>, k: Seq<char>) -> int {
    choose|i: int| 0 <= i < s.len() && (#[trigger] s[i]).0 == k
}

/// The entry list read as a mapping from role name to process identifier.
pub open spec fn table_as_map(s: Seq<(Seq<char>, u64)>) -> Map<Seq<char>, u64> {
    Map::new(|k: Seq<char>| has_role(s, k), |k: Seq<char>| s[role_index(s, k)].1)
}

/// No two entries carry the same role name.
pub open spec fn distinct_roles(s: Seq<(Seq<char>, u64)>) -> bool {
    forall|i: int, j: int|
        0 <= i < j < s.len() ==> (#[trigger] s[i]).0 != (#[trigger] s[j]).0
}

impl View for ProcessManager {
    type V = Seq<(Seq<char>, u64)>;

    closed spec fn view(&self) -> Seq<(Seq<char>, u64)> {
        self.entries@.map_values(|e: RoleEntry| (e.role@, e.pid))
    }
}

/// An entry list with pairwise-distinct roles maps `k` to the process
/// identifier of the one entry that carries `k`.
pub proof fn lemma_role_entry(s: Seq<(Seq<char>, u64)>, k: Seq<char>, i: int)
    requires
        distinct_roles(s),
        0 <= i < s.len(),
        s[i].0 == k,
    ensures
        has_role(s, k),
        role_index(s, k) == i,
        table_as_map(s).contains_key(k),
        table_as_map(s)[k] == s[i].1,
{
    assert(has_role(s, k));
    let j = role_index(s, k);
    assert(0 <= j < s.len() && s[j].0 == k);
}

/// A role carried by no entry is absent from the map reading.
pub proof fn lemma_role_absent(s: Seq<(Seq<char>, u64)>, k: Seq<char>)
    requires
        !has_role(s, k),
    ensures
        !table_as_map(s).contains_key(k),
{
}

/// Appending an entry with a fresh role inserts exactly that pair into the
/// map reading and keeps the roles distinct.
pub proof fn lemma_push_role(s: Seq<(Seq<char>, u64)>, k: Seq<char>, pid: u64)
    requires
        distinct_roles(s),
        !has_role(s, k),
    ensures
        distinct_roles(s.push((k, pid))),
        table_as_map(s.push((k, pid))) == table_as_map(s).insert(k, pid),
{
    let s2 = s.push((k, pid));
    assert forall|i: int, j: int| 0 <= i < j < s2.len() implies (#[trigger] s2[i]).0 != (
    #[trigger] s2[j]).0 by {
        if j == s.len() {
            if s2[i].0 == k {
                assert(s[i].0 == k);
                assert(has_role(s, k));
            }
        }
    }
    let m1 = table_as_map(s2);
    let m2 = table_as_map(s).insert(k, pid);
    assert forall|k2: Seq<char>| m1.contains_key(k2) implies m2.contains_key(k2) && m1[k2]
        == m2[k2] by {
        let i = role_index(s2, k2);
        assert(0 <= i < s2.len() && s2[i].0 == k2);
        lemma_role_entry(s2, k2, i);
        if i == s.len() {
            assert(k2 == k);
        } else {
            assert(s[i] == s2[i]);
            lemma_role_entry(s, k2, i);
            assert(k2 != k);
        }
    }
    assert forall|k2: Seq<char>| m2.contains_key(k2) implies m1.contains_key(k2) by {
        if k2 == k {
            assert(s2[s.len() as int].0 == k);
            lemma_role_entry(s2, k2, s.len() as int);
        } else {
            let i = role_index(s, k2);
            assert(0 <= i < s.len() && s[i].0 == k2);
            assert(s2[i] == s[i]);
            lemma_role_entry(s2, k2, i);
        }
    }
    assert(m1 =~= m2);
}

/// Removing the entry at `i` removes exactly its role from the map reading
/// and keeps the roles distinct.
pub proof fn lemma_remove_role(s: Seq<(Seq<char>, u64)>, i: int)
    requires
        distinct_roles(s),
        0 <= i < s.len(),
    ensures
        distinct_roles(s.remove(i)),
        table_as_map(s.remove(i)) == table_as_map(s).remove(s[i].0),
{
    let k = s[i].0;
    let s2 = s.remove(i);
    assert forall|p: int, q: int| 0 <= p < q < s2.len() implies (#[trigger] s2[p]).0 != (
    #[trigger] s2[q]).0 by {
        let p0 = if p < i { p } else { p + 1 };
        let q0 = if q < i { q } else { q + 1 };
        assert(s2[p] == s[p0]);
        assert(s2[q] == s[q0]);
    }
    let m1 = table_as_map(s2);
    let m2 = table_as_map(s).remove(k);
    assert forall|k2: Seq<char>| m1.contains_key(k2) implies m2.contains_key(k2) && m1[k2]
        == m2[k2] by {
        let j = role_index(s2, k2);
        assert(0 <= j < s2.len() && s2[j].0 == k2);
        lemma_role_entry(s2, k2, j);
        let j0 = if j < i { j } else { j + 1 };
        assert(s2[j] == s[j0]);
        lemma_role_entry(s, k2, j0);
        assert(j0 != i);
        assert(k2 != k);
    }
    assert forall|k2: Seq<char>| m2.contains_key(k2) implies m1.contains_key(k2) by {
        let j0 = role_index(s, k2);
        assert(0 <= j0 < s.len() && s[j0].0 == k2);
        assert(k2 != k);
        assert(j0 != i);
        let j = if j0 < i { j0 } else { j0 - 1 };
        assert(s2[j] == s[j0]);
        lemma_role_entry(s2, k2, j);
    }
    assert(m1 =~= m2);
}

/// The process identifier of every role in the table appears among
/// [`ProcessManager::pids`] — the targets a shutdown sweep is built from.
pub proof fn lemma_tracked_pid_is_targeted(m: ProcessManager, k: Seq<char>)
    requires
        m.wf(),
        m.as_map().contains_key(k),
    ensures
        m.pids().contains(m.as_map()[k]),
{
    let i = role_index(m@, k);
    assert(0 <= i < m@.len() && m@[i].0 == k);
    lemma_role_entry(m@, k, i);
    assert(m.pids()[i] == m@[i].1);
}

/// True iff the role is tracked and the probe did not observe an exit: an
/// errored probe counts as still running.
pub open spec fn running_after_probe(
    m: Map<Seq<char>, u64>,
    role: Seq<char>,
    probe: ProbeOutcome,
) -> bool {
    m.contains_key(role) && !(probe is Exited)
}

/// The table after a liveness check: an observed exit removes the stale
/// entry, every other outcome leaves the table unchanged.
pub open spec fn table_after_probe(
    m: Map<Seq<char>, u64>,
    role: Seq<char>,
    probe: ProbeOutcome,
) -> Map<Seq<char>, u64> {
    if m.contains_key(role) && probe is Exited {
        m.remove(role)
    } else {
        m
    }
}

impl ProcessManager {
    /// The entry list holds pairwise-distinct role names.
    pub open spec fn wf(&self) -> bool {
        distinct_roles(self@)
    }

    /// The table read as a mapping from role name to process identifier.
    pub open spec fn as_map(&self) -> Map<Seq<char>, u64> {
        table_as_map(self@)
    }

    /// The tracked process identifiers, in entry order.
    pub open spec fn pids(&self) -> Seq<u64> {
        self@.map_values(|p: (Seq<char>, u64)| p.1)
    }

    /// An empty table: no role is tracked.
    pub fn new() -> (m: ProcessManager)
        ensures
            m.wf(),
            m@ == Seq::<(Seq<char>, u64)>::empty(),
            m.as_map() == Map::<Seq<char>, u64>::empty(),
    {
        let m = ProcessManager { entries: Vec::new() };
        proof {
            assert(m@ =~= Seq::<(Seq<char>, u64)>::empty());
            assert(m.as_map() =~= Map::<Seq<char>, u64>::empty());
        }
        m
    }

    /// The index of the entry for `role`, if one exists.
    fn find_index(&self, role: &str) -> (r: Option<usize>)
        ensures
            match r {
                Option::Some(i) => i < self@.len() && self@[i as int].0 == role@,
                Option::None => !has_role(self@, role@),
            },
    {
        let n = self.entries.len();
        let mut i: usize = 0;
        while i < n
            invariant
                n == self.entries.len(),
                0 <= i <= n,
                forall|j: int| 0 <= j < i ==> (#[trigger] self@[j]).0 != role@,
            decreases n - i,
        {
            assert(self@[i as int].0 == self.entries@[i as int].role@);
            if str_eq(self.entries[i].role.as_str(), role) {
                return Some(i);
            }
            i = i + 1;
        }
        None
    }

    /// Inserts or overwrites the entry for `role`. The caller is expected to
    /// have checked absence via the liveness check first: an overwritten
    /// entry is dropped, not terminated.
    pub fn add_process(&mut self, role: &str, pid: u64)
        requires
            old(self).wf(),
        ensures
            final(self).wf(),
            final(self).as_map() == old(self).as_map().insert(role@, pid),
    {
        let ghost s0 = self@;
        let ghost m0 = old(self).as_map();
        match self.find_index(role) {
            Some(i) => {
                let _ = self.entries.remove(i);
                proof {
                    assert(self@ =~= s0.remove(i as int));
                    lemma_remove_role(s0, i as int);
                    if has_role(self@, role@) {
                        let j = role_index(self@, role@);
                        assert(0 <= j < self@.len() && self@[j].0 == role@);
                        lemma_role_entry(self@, role@, j);
                    }
                    assert(!has_role(self@, role@));
                }
            },
            None => {},
        }
        let ghost s1 = self@;
        let entry = RoleEntry { role: role.to_owned(), pid };
        self.entries.push(entry);
        proof {
            assert(self@ =~= s1.push((role@, pid)));
            lemma_push_role(s1, role@, pid);
            assert(self.as_map() =~= m0.insert(role@, pid));
        }
    }

    /// The process identifier currently recorded for `role`, if any. Does
    /// not mutate the table and does not probe liveness.
    pub fn get_process_pid(&self, role: &str) -> (r: Option<u64>)
        requires
            self.wf(),
        ensures
            r == if self.as_map().contains_key(role@) {
                Option::Some(self.as_map()[role@])
            } else {
                Option::<u64>::None
            },
    {
        match self.find_index(role) {
            Some(i) => {
                proof {
                    lemma_role_entry(self@, role@, i as int);
                    assert(self@[i as int].1 == self.entries@[i as int].pid);
                }
                Some(self.entries[i].pid)
            },
            None => {
                proof {
                    lemma_role_absent(self@, role@);
                }
                None
            },
        }
    }

    /// Removes and returns the entry for `role`, transferring ownership of
    /// the tracked process to the caller, or returns nothing if the role is
    /// absent.
    pub fn get_process(&mut self, role: &str) -> (r: Option<u64>)
        requires
            old(self).wf(),
        ensures
            final(self).wf(),
            r == if old(self).as_map().contains_key(role@) {
                Option::Some(old(self).as_map()[role@])
            } else {
                Option::<u64>::None
            },
            final(self).as_map() == old(self).as_map().remove(role@),
    {
        let ghost s0 = self@;
        match self.find_index(role) {
            Some(i) => {
                proof {
                    lemma_role_entry(s0, role@, i as int);
                    assert(s0[i as int].1 == self.entries@[i as int].pid);
                }
                let e = self.entries.remove(i);
                proof {
                    assert(self@ =~= s0.remove(i as int));
                    lemma_remove_role(s0, i as int);
                }
                Some(e.pid)
            },
            None => {
                proof {
                    lemma_role_absent(s0, role@);
                    assert(table_as_map(s0).remove(role@) =~= table_as_map(s0));
                }
                None
            },
        }
    }

    /// The liveness check, fed with the outcome the host observed when it
    /// probed the tracked process. Returns true iff an entry exists for
    /// `role` and the probe did not report an exit; an observed exit removes
    /// the stale entry as a side effect (self-healing), and a failed probe
    /// conservatively counts as still running.
    pub fn is_process_running(&mut self, role: &str, probe: ProbeOutcome) -> (r: bool)
        requires
            old(self).wf(),
        ensures
            final(self).wf(),
            r == running_after_probe(old(self).as_map(), role@, probe),
            final(self).as_map() == table_after_probe(old(self).as_map(), role@, probe),
    {
        let ghost s0 = self@;
        match self.find_index(role) {
            Some(i) => {
                proof {
                    lemma_role_entry(s0, role@, i as int);
                }
                match probe {
                    ProbeOutcome::Exited => {
                        let _ = self.entries.remove(i);
                        proof {
                            assert(self@ =~= s0.remove(i as int));
                            lemma_remove_role(s0, i as int);
                        }
                        false
                    },
                    ProbeOutcome::Running => true,
                    ProbeOutcome::Unknown => true,
                }
            },
            None => {
                proof {
                    lemma_role_absent(s0, role@);
                }
                false
            },
        }
    }

    /// The single-role kill decision, fed with the outcome of the terminate
    /// request the host issued. A successful terminate removes the entry and
    /// reports success; a failed terminate leaves the entry untouched so the
    /// kill can be retried; an unknown role reports failure.
    pub fn kill_process(&mut self, role: &str, outcome: KillOutcome) -> (r: bool)
        requires
            old(self).wf(),
        ensures
            final(self).wf(),
            r == (old(self).as_map().contains_key(role@) && outcome is Succeeded),
            final(self).as_map() == if old(self).as_map().contains_key(role@)
                && outcome is Succeeded {
                old(self).as_map().remove(role@)
            } else {
                old(self).as_map()
            },
    {
        let ghost s0 = self@;
        match self.find_index(role) {
            Some(i) => {
                proof {
                    lemma_role_entry(s0, role@, i as int);
                }
                match outcome {
                    KillOutcome::Succeeded => {
                        let _ = self.entries.remove(i);
                        proof {
                            assert(self@ =~= s0.remove(i as int));
                            lemma_remove_role(s0, i as int);
                        }
                        true
                    },
                    KillOutcome::Failed => false,
                }
            },
            None => {
                proof {
                    lemma_role_absent(s0, role@);
                }
                false
            },
        }
    }

    /// Drains the whole table into a termination sweep: the sweep targets
    /// the process of every tracked role, in entry order, and the table is
    /// cleared unconditionally before any terminate request is issued.
    pub fn kill_all_processes(&mut self) -> (s: KillSweep)
        requires
            old(self).wf(),
        ensures
            s.inv(),
            s.position() == 0,
            s.targets() == old(self).pids(),
            s.failed_targets() == Seq::<u64>::empty(),
            final(self).wf(),
            final(self)@ == Seq::<(Seq<char>, u64)>::empty(),
            final(self).as_map() == Map::<Seq<char>, u64>::empty(),
    {
        let pids = self.drain_pids();
        KillSweep::new(pids)
    }

    /// Empties the table, handing the process identifier of every tracked
    /// role back in entry order.
    pub fn drain_pids(&mut self) -> (pids: Vec<u64>)
        ensures
            pids@ == old(self).pids(),
            final(self).wf(),
            final(self)@ == Seq::<(Seq<char>, u64)>::empty(),
            final(self).as_map() == Map::<Seq<char>, u64>::empty(),
    {
        let ghost s0 = self@;
        let mut pids: Vec<u64> = Vec::new();
        let n = self.entries.len();
        let mut i: usize = 0;
        while i < n
            invariant
                n == self.entries.len(),
                self@ == s0,
                0 <= i <= n,
                pids@.len() == i,
                forall|j: int| 0 <= j < i ==> pids@[j] == (#[trigger] s0[j]).1,
            decreases n - i,
        {
            assert(s0[i as int].1 == self.entries@[i as int].pid);
            pids.push(self.entries[i].pid);
            i = i + 1;
        }
        self.entries.clear();
        proof {
            assert(pids@ =~= old(self).pids());
            assert(self@ =~= Seq::<(Seq<char>, u64)>::empty());
            assert(self.as_map() =~= Map::<Seq<char>, u64>::empty());
        }
        pids
    }
}

/// Idempotent start: when a role is tracked and its probe does not observe
/// an exit, the liveness check reports running and leaves the table as it
/// was, so a second start of the role hands back the identifier already
/// registered and launches nothing.
pub proof fn lemma_idempotent_start(m: Map<Seq<char>, u64>, role: Seq<char>, probe: ProbeOutcome)
    requires
        m.contains_key(role),
        !(probe is Exited),
    ensures
        running_after_probe(m, role, probe),
        table_after_probe(m, role, probe) == m,
{
}

/// Self-healing liveness: once the tracked process of a role has exited,
/// the next liveness check for that role reports not-running and removes
/// the stale entry — so a subsequent start of the role is not turned away
/// with a false "already running" and registers a fresh process.
pub proof fn lemma_self_healing(m: Map<Seq<char>, u64>, role: Seq<char>, fresh_pid: u64)
    requires
        m.contains_key(role),
    ensures
        !running_after_probe(m, role, ProbeOutcome::Exited),
        !table_after_probe(m, role, ProbeOutcome::Exited).contains_key(role),
        table_after_probe(m, role, ProbeOutcome::Exited).insert(role, fresh_pid)[role]
            == fresh_pid,
{
}

/// Conservative liveness under an uncertain probe: when the OS query itself
/// fails, the role counts as still running and its entry stays, so an
/// unknown state can never lead to a double launch.
pub proof fn lemma_unknown_probe_is_conservative(m: Map<Seq<char>, u64>, role: Seq<char>)
    requires
        m.contains_key(role),
    ensures
        running_after_probe(m, role, ProbeOutcome::Unknown),
        table_after_probe(m, role, ProbeOutcome::Unknown) == m,
{
}

/// A successfully killed role is gone: after the single-role kill removes
/// its entry, every later liveness check reports not-running, whatever its
/// probe observes.
pub proof fn lemma_killed_role_absent(m: Map<Seq<char>, u64>, role: Seq<char>, probe: ProbeOutcome)
    ensures
        !running_after_probe(m.remove(role), role, probe),
        table_after_probe(m.remove(role), role, probe) == m.remove(role),
{
}

/// Character-by-character string comparison, so that role names can be
/// looked up without relying on an unspecified equality.
fn str_eq(a: &str, b: &str) -> (r: bool)
    ensures
        r == (a@ == b@),
{
    let la = a.unicode_len();
    let lb = b.unicode_len();
    if la != lb {
        return false;
    }
    let mut i: usize = 0;
    while i < la
        invariant
            la == a@.len(),
            lb == b@.len(),
            la == lb,
            0 <= i <= la,
            forall|j: int| 0 <= j < i ==> a@[j] == b@[j],
        decreases la - i,
    {
        let ca = a.get_char(i);
        let cb = b.get_char(i);
        if ca != cb {
            return false;
        }
        i = i + 1;
    }
    proof {
        assert(a@ =~= b@);
    }
    true
}

} // verus!
