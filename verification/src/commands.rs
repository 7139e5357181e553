//! The decisions of the command entry points.
//!
//! Each entry point the host exposes (run foreground, run background, start
//! a named role, query a role, the exit hook) splits into an OS action the
//! host performs — spawning, probing, terminating — and a decision over its
//! outcome. The decisions stand here, verified for every outcome the host
//! can hand back.

use vstd::prelude::*;

use crate::guard::BackgroundProcessesGuard;
use crate::manager::{running_after_probe, table_after_probe, ProcessManager};
use crate::naming::{dec_str, u64_to_decimal};
use crate::outcome::ProbeOutcome;
use crate::sweep::KillSweep;
use vstd::string::StringExecFns;

verus! {

/// The identifier of a background process, as reported to the host.
pub struct PythonCommand {
    pub pid: String,
}

/// What a status query of a named role reports.
pub struct ProcessStatus {
    pub is_running: bool,
    pub pid: Option<String>,
}

/// The run-foreground outcome: the captured standard output on a zero exit
/// status, the captured standard error as the failure detail otherwise.
pub fn run_python_result(success: bool, stdout: String, stderr: String) -> (r: Result<
    String,
    String,
>)
    ensures
        success ==> r == Result::<String, String>::Ok(stdout),
        !success ==> r == Result::<String, String>::Err(stderr),
{
    if success {
        Ok(stdout)
    } else {
        Err(stderr)
    }
}

/// Registers a freshly spawned anonymous background process and reports its
/// identifier in decimal, as the run-background entry point returns it.
pub fn register_background(guard: &mut BackgroundProcessesGuard, pid: u64) -> (c: PythonCommand)
    ensures
        final(guard)@ == old(guard)@.push(pid),
        c.pid@ == dec_str(pid as nat),
{
    guard.add_process(pid);
    PythonCommand { pid: u64_to_decimal(pid) }
}

/// The already-running path of a start entry point: if the role is tracked
/// and the probe did not observe an exit, the identifier already registered
/// is returned and nothing must be launched; otherwise (with any stale
/// entry self-healed away) the caller is told to launch.
pub fn reuse_running_role(manager: &mut ProcessManager, role: &str, probe: ProbeOutcome) -> (r:
    Option<PythonCommand>)
    requires
        old(manager).wf(),
    ensures
        final(manager).wf(),
        final(manager).as_map() == table_after_probe(old(manager).as_map(), role@, probe),
        r is Some <==> running_after_probe(old(manager).as_map(), role@, probe),
        (r matches Some(c) ==> c.pid@ == dec_str(old(manager).as_map()[role@] as nat)),
{
    if manager.is_process_running(role, probe) {
        match manager.get_process_pid(role) {
            Some(pid) => Some(PythonCommand { pid: u64_to_decimal(pid) }),
            None => {
                proof {
                    assert(false);
                }
                None
            },
        }
    } else {
        None
    }
}

/// Registers a freshly launched role process and reports its identifier,
/// as the start entry points return it.
pub fn register_role(manager: &mut ProcessManager, role: &str, pid: u64) -> (c: PythonCommand)
    requires
        old(manager).wf(),
    ensures
        final(manager).wf(),
        final(manager).as_map() == old(manager).as_map().insert(role@, pid),
        c.pid@ == dec_str(pid as nat),
{
    manager.add_process(role, pid);
    PythonCommand { pid: u64_to_decimal(pid) }
}

/// The status query of a named role: reports whether the role is running
/// (self-healing a stale entry as a side effect) and, if so, its
/// identifier. It always succeeds.
pub fn role_status(manager: &mut ProcessManager, role: &str, probe: ProbeOutcome) -> (s:
    ProcessStatus)
    requires
        old(manager).wf(),
    ensures
        final(manager).wf(),
        final(manager).as_map() == table_after_probe(old(manager).as_map(), role@, probe),
        s.is_running == running_after_probe(old(manager).as_map(), role@, probe),
        (s.pid matches Some(p) ==> s.is_running && p@ == dec_str(
            old(manager).as_map()[role@] as nat,
        )),
        s.is_running ==> s.pid is Some,
{
    let is_running = manager.is_process_running(role, probe);
    if is_running {
        match manager.get_process_pid(role) {
            Some(pid) => ProcessStatus { is_running, pid: Some(u64_to_decimal(pid)) },
            None => {
                proof {
                    assert(false);
                }
                ProcessStatus { is_running, pid: None }
            },
        }
    } else {
        ProcessStatus { is_running, pid: None }
    }
}

/// The fixed argument list the service role is launched with: the
/// interpreter runs the server module.
pub fn server_launch_args() -> (r: Vec<String>)
    ensures
        r@.len() == 2,
        r@[0]@ == "-m"@,
        r@[1]@ == "server"@,
{
    let mut args: Vec<String> = Vec::new();
    args.push(String::from_str("-m"));
    args.push(String::from_str("server"));
    args
}

/// The fixed argument list the executor role is launched with: the
/// interpreter runs the executor module.
pub fn executor_launch_args() -> (r: Vec<String>)
    ensures
        r@.len() == 2,
        r@[0]@ == "-m"@,
        r@[1]@ == "ss_executor"@,
{
    let mut args: Vec<String> = Vec::new();
    args.push(String::from_str("-m"));
    args.push(String::from_str("ss_executor"));
    args
}

/// The exit-hook decision: both registries are drained, unconditionally and
/// completely, into one best-effort termination sweep whose targets are
/// every anonymous process followed by the process of every named role.
pub fn begin_shutdown(guard: &mut BackgroundProcessesGuard, manager: &mut ProcessManager) -> (s:
    KillSweep)
    requires
        old(manager).wf(),
    ensures
        s.inv(),
        s.position() == 0,
        s.targets() == old(guard)@ + old(manager).pids(),
        s.failed_targets() == Seq::<u64>::empty(),
        final(guard)@ == Seq::<u64>::empty(),
        final(manager).wf(),
        final(manager)@ == Seq::<(Seq<char>, u64)>::empty(),
        final(manager).as_map() == Map::<Seq<char>, u64>::empty(),
{
    let mut targets = guard.drain();
    let mut named = manager.drain_pids();
    targets.append(&mut named);
    KillSweep::new(targets)
}

/// Mass-kill completeness for the exit hook: once the shutdown sweep has
/// run to the end, a terminate request was issued for every process either
/// registry tracked — each of the anonymous processes and each named
/// role's process — whatever the individual outcomes were; the registries
/// themselves were already empty when the sweep began.
pub proof fn lemma_shutdown_covers_everything(anon: Seq<u64>, named: Seq<u64>, s: KillSweep)
    requires
        s.inv(),
        s.done(),
        s.targets() == anon + named,
    ensures
        s.attempted() == anon + named,
        forall|i: int| 0 <= i < anon.len() ==> s.attempted().contains(#[trigger] anon[i]),
        forall|i: int| 0 <= i < named.len() ==> s.attempted().contains(#[trigger] named[i]),
{
    crate::sweep::lemma_mass_kill_completeness(s);
    assert forall|i: int| 0 <= i < anon.len() implies s.attempted().contains(
        #[trigger] anon[i],
    ) by {
        assert(s.attempted()[i] == anon[i]);
    }
    assert forall|i: int| 0 <= i < named.len() implies s.attempted().contains(
        #[trigger] named[i],
    ) by {
        assert(s.attempted()[anon.len() + i] == named[i]);
    }
}

} // verus!
