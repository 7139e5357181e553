use python_supervisor::commands::{
    begin_shutdown, executor_launch_args, register_background, register_role, reuse_running_role,
    role_status, run_python_result, server_launch_args,
};
use python_supervisor::guard::BackgroundProcessesGuard;
use python_supervisor::manager::ProcessManager;
use python_supervisor::outcome::{KillOutcome, ProbeOutcome};

#[test]
fn foreground_success_returns_stdout() {
    let r = run_python_result(true, String::from("ok"), String::from(""));
    assert_eq!(r, Ok(String::from("ok")));
}

#[test]
fn foreground_failure_returns_stderr() {
    let r = run_python_result(false, String::from(""), String::from("bad"));
    assert_eq!(r, Err(String::from("bad")));
}

#[test]
fn idempotent_start_reuses_identifier() {
    let mut manager = ProcessManager::new();
    let first = register_role(&mut manager, "server", 4100);
    assert_eq!(first.pid, "4100");
    // A second start sees the role running and reuses the identifier, twice
    // in a row, without registering anything new.
    let again = reuse_running_role(&mut manager, "server", ProbeOutcome::Running);
    assert_eq!(again.expect("still running").pid, "4100");
    let again = reuse_running_role(&mut manager, "server", ProbeOutcome::Running);
    assert_eq!(again.expect("still running").pid, "4100");
    assert_eq!(manager.get_process_pid("server"), Some(4100));
}

#[test]
fn self_healing_removes_stale_entry() {
    let mut manager = ProcessManager::new();
    register_role(&mut manager, "server", 4100);
    // The tracked process exited externally: the status query reports
    // not-running and drops the stale entry.
    let status = role_status(&mut manager, "server", ProbeOutcome::Exited);
    assert!(!status.is_running);
    assert_eq!(status.pid, None);
    assert_eq!(manager.get_process_pid("server"), None);
    // A subsequent start is not turned away: it registers a fresh process.
    assert!(reuse_running_role(&mut manager, "server", ProbeOutcome::Running).is_none());
    let fresh = register_role(&mut manager, "server", 4200);
    assert_eq!(fresh.pid, "4200");
    assert_eq!(manager.get_process_pid("server"), Some(4200));
}

#[test]
fn probe_error_counts_as_running() {
    let mut manager = ProcessManager::new();
    register_role(&mut manager, "executor", 77);
    let status = role_status(&mut manager, "executor", ProbeOutcome::Unknown);
    assert!(status.is_running);
    assert_eq!(status.pid, Some(String::from("77")));
    assert_eq!(manager.get_process_pid("executor"), Some(77));
}

#[test]
fn status_of_unknown_role_is_not_running() {
    let mut manager = ProcessManager::new();
    let status = role_status(&mut manager, "server", ProbeOutcome::Running);
    assert!(!status.is_running);
    assert_eq!(status.pid, None);
}

#[test]
fn mass_kill_attempts_every_process_despite_failures() {
    let mut guard = BackgroundProcessesGuard::new();
    let mut manager = ProcessManager::new();
    register_background(&mut guard, 11);
    register_background(&mut guard, 12);
    register_role(&mut manager, "server", 21);
    register_role(&mut manager, "executor", 22);

    let mut sweep = begin_shutdown(&mut guard, &mut manager);
    // Both registries are cleared before any terminate request is issued.
    assert_eq!(manager.get_process_pid("server"), None);
    assert_eq!(manager.get_process_pid("executor"), None);

    let mut attempted = Vec::new();
    let mut step = 0;
    while let Some(pid) = sweep.next_target() {
        attempted.push(pid);
        // The second terminate request fails; the sweep must go on anyway.
        let outcome = if step == 1 { KillOutcome::Failed } else { KillOutcome::Succeeded };
        sweep.record_outcome(outcome);
        step += 1;
    }
    assert!(sweep.is_done());
    assert_eq!(attempted, vec![11, 12, 21, 22]);
    assert_eq!(sweep.failed_processes(), &vec![12]);
}

#[test]
fn kill_returns_false_for_unknown_role() {
    let mut manager = ProcessManager::new();
    assert!(!manager.kill_process("server", KillOutcome::Succeeded));
}

#[test]
fn failed_kill_keeps_entry_for_retry() {
    let mut manager = ProcessManager::new();
    register_role(&mut manager, "server", 31);
    assert!(!manager.kill_process("server", KillOutcome::Failed));
    assert_eq!(manager.get_process_pid("server"), Some(31));
}

#[test]
fn successful_kill_removes_role_from_queries() {
    let mut manager = ProcessManager::new();
    register_role(&mut manager, "server", 31);
    register_role(&mut manager, "executor", 32);
    assert!(manager.kill_process("server", KillOutcome::Succeeded));
    assert_eq!(manager.get_process_pid("server"), None);
    let status = role_status(&mut manager, "server", ProbeOutcome::Running);
    assert!(!status.is_running);
    // The other role is untouched.
    assert_eq!(manager.get_process_pid("executor"), Some(32));
}

#[test]
fn take_transfers_the_entry() {
    let mut manager = ProcessManager::new();
    register_role(&mut manager, "server", 41);
    assert_eq!(manager.get_process("server"), Some(41));
    assert_eq!(manager.get_process("server"), None);
}

#[test]
fn overwriting_a_role_keeps_one_entry() {
    let mut manager = ProcessManager::new();
    manager.add_process("server", 51);
    manager.add_process("server", 52);
    assert_eq!(manager.get_process_pid("server"), Some(52));
    let mut guard = BackgroundProcessesGuard::new();
    let sweep = begin_shutdown(&mut guard, &mut manager);
    assert_eq!(sweep.next_target(), Some(52));
}

#[test]
fn anonymous_processes_drain_in_insertion_order() {
    let mut guard = BackgroundProcessesGuard::new();
    guard.add_process(5);
    guard.add_process(3);
    guard.add_process(5);
    let mut sweep = guard.kill_all_processes();
    let mut order = Vec::new();
    while let Some(pid) = sweep.next_target() {
        order.push(pid);
        sweep.record_outcome(KillOutcome::Succeeded);
    }
    assert_eq!(order, vec![5, 3, 5]);
    assert!(sweep.failed_processes().is_empty());
}

#[test]
fn manager_kill_all_attempts_every_role() {
    let mut manager = ProcessManager::new();
    register_role(&mut manager, "server", 61);
    register_role(&mut manager, "executor", 62);
    let mut sweep = manager.kill_all_processes();
    // The table is cleared unconditionally, before any outcome is known.
    assert_eq!(manager.get_process_pid("server"), None);
    assert_eq!(manager.get_process_pid("executor"), None);
    let mut order = Vec::new();
    while let Some(pid) = sweep.next_target() {
        order.push(pid);
        // Even when every terminate request fails, every role is attempted.
        sweep.record_outcome(KillOutcome::Failed);
    }
    assert_eq!(order, vec![61, 62]);
    assert_eq!(sweep.failed_processes(), &vec![61, 62]);
}

#[test]
fn shutdown_with_nothing_tracked_is_empty() {
    let mut guard = BackgroundProcessesGuard::new();
    let mut manager = ProcessManager::new();
    let sweep = begin_shutdown(&mut guard, &mut manager);
    assert!(sweep.is_done());
    assert_eq!(sweep.next_target(), None);
    assert!(sweep.failed_processes().is_empty());
}

#[test]
fn launch_args_select_the_modules() {
    let server = server_launch_args();
    assert_eq!(server, vec![String::from("-m"), String::from("server")]);
    let executor = executor_launch_args();
    assert_eq!(executor, vec![String::from("-m"), String::from("ss_executor")]);
}
