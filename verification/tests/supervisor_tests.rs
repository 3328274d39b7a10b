use rust_interface::supervisor::{
    compute_backoff, python_worker_command, RestartPolicy, Supervisor, SupervisorAction,
    WorkerState,
};

fn policy(max_restarts: u32) -> RestartPolicy {
    RestartPolicy { max_restarts, base_delay_ms: 100, max_delay_ms: 1000 }
}

fn supervisor(max_restarts: u32) -> Supervisor {
    Supervisor::new(python_worker_command("/etc/runtime.toml"), policy(max_restarts))
}

#[test]
fn python_command_has_module_and_config_path() {
    let cmd = python_worker_command("/etc/runtime.toml");
    assert_eq!(cmd.program, "python");
    assert_eq!(cmd.args, vec![String::from("-m runtime"), String::from("/etc/runtime.toml")]);
    assert_eq!(cmd.clone(), cmd);
}

#[test]
fn backoff_doubles_up_to_the_cap() {
    let got: Vec<u64> = (0..6).map(|n| compute_backoff(100, 1000, n)).collect();
    assert_eq!(got, vec![100, 200, 400, 800, 1000, 1000]);
}

#[test]
fn backoff_never_exceeds_the_cap() {
    assert_eq!(compute_backoff(5000, 1000, 0), 1000);
    assert_eq!(compute_backoff(5000, 1000, 3), 1000);
    assert_eq!(compute_backoff(1, u64::MAX, 63), 1 << 63);
    assert_eq!(compute_backoff(1, u64::MAX, 64), u64::MAX);
    assert_eq!(compute_backoff(3, u64::MAX, 1000), u64::MAX);
}

#[test]
fn backoff_of_zero_stays_zero() {
    assert_eq!(compute_backoff(0, 1000, 10), 0);
    assert_eq!(compute_backoff(100, 0, 10), 0);
}

#[test]
fn new_supervisor_is_idle() {
    let s = supervisor(3);
    assert_eq!(s.state(), WorkerState::Idle);
    assert_eq!(s.restarts(), 0);
    assert!(!s.is_alive());
    assert!(!s.is_fatal());
    assert_eq!(s.policy(), policy(3));
    assert_eq!(s.command().program, "python");
}

#[test]
fn start_spawns_at_once() {
    let mut s = supervisor(3);
    assert_eq!(s.start(), SupervisorAction::Spawn { delay_ms: 0 });
    assert_eq!(s.state(), WorkerState::Starting);
    assert_eq!(s.start(), SupervisorAction::Nothing);
    s.on_spawned();
    assert!(s.is_alive());
    assert_eq!(s.start(), SupervisorAction::Nothing);
}

#[test]
fn failed_first_spawn_is_left_to_the_host() {
    let mut s = supervisor(3);
    s.start();
    assert_eq!(s.on_spawn_failed(), SupervisorAction::Nothing);
    assert_eq!(s.state(), WorkerState::Idle);
    assert_eq!(s.restarts(), 0);
    assert_eq!(s.start(), SupervisorAction::Spawn { delay_ms: 0 });
}

#[test]
fn exits_are_answered_with_growing_waits_until_the_budget_is_spent() {
    let mut s = supervisor(2);
    s.start();
    s.on_spawned();
    assert_eq!(s.on_exit(), SupervisorAction::Spawn { delay_ms: 100 });
    assert_eq!(s.state(), WorkerState::Restarting);
    assert!(!s.is_alive());
    s.on_spawned();
    assert!(s.is_alive());
    assert_eq!(s.on_exit(), SupervisorAction::Spawn { delay_ms: 200 });
    s.on_spawned();
    assert_eq!(s.restarts(), 2);
    assert_eq!(s.on_exit(), SupervisorAction::Escalate);
    assert!(s.is_fatal());
    assert_eq!(s.on_exit(), SupervisorAction::Nothing);
    assert_eq!(s.start(), SupervisorAction::Nothing);
    s.on_spawned();
    assert!(s.is_fatal());
}

#[test]
fn failed_restart_uses_up_a_restart() {
    let mut s = supervisor(2);
    s.start();
    s.on_spawned();
    assert_eq!(s.on_exit(), SupervisorAction::Spawn { delay_ms: 100 });
    assert_eq!(s.on_spawn_failed(), SupervisorAction::Spawn { delay_ms: 200 });
    assert_eq!(s.on_spawn_failed(), SupervisorAction::Escalate);
    assert!(s.is_fatal());
}

#[test]
fn no_budget_means_the_first_exit_is_fatal() {
    let mut s = supervisor(0);
    s.start();
    s.on_spawned();
    assert_eq!(s.on_exit(), SupervisorAction::Escalate);
    assert!(s.is_fatal());
}

#[test]
fn exit_reports_are_ignored_unless_the_worker_runs() {
    let mut s = supervisor(3);
    assert_eq!(s.on_exit(), SupervisorAction::Nothing);
    s.start();
    assert_eq!(s.on_exit(), SupervisorAction::Nothing);
    assert_eq!(s.state(), WorkerState::Starting);
}

#[test]
fn terminate_kills_a_running_worker() {
    let mut s = supervisor(3);
    s.start();
    s.on_spawned();
    assert_eq!(s.terminate(), SupervisorAction::Kill);
    assert_eq!(s.state(), WorkerState::Terminated);
    assert_eq!(s.on_exit(), SupervisorAction::Nothing);
    assert_eq!(s.terminate(), SupervisorAction::Nothing);
    assert_eq!(s.start(), SupervisorAction::Spawn { delay_ms: 0 });
}

#[test]
fn terminate_of_an_idle_supervisor_kills_nothing() {
    let mut s = supervisor(3);
    assert_eq!(s.terminate(), SupervisorAction::Nothing);
    assert_eq!(s.state(), WorkerState::Terminated);
}

#[test]
fn requested_restart_spawns_at_once_and_leaves_the_budget() {
    let mut s = supervisor(1);
    assert_eq!(s.restart(), SupervisorAction::Nothing);
    s.start();
    assert_eq!(s.restart(), SupervisorAction::Nothing);
    s.on_spawned();
    assert_eq!(s.restart(), SupervisorAction::Spawn { delay_ms: 0 });
    assert_eq!(s.state(), WorkerState::Restarting);
    assert_eq!(s.restarts(), 0);
    s.on_spawned();
    assert!(s.is_alive());
    assert_eq!(s.on_exit(), SupervisorAction::Spawn { delay_ms: 100 });
    assert_eq!(s.restarts(), 1);
}

#[test]
fn failed_spawn_after_a_requested_restart_counts_as_a_restart() {
    let mut s = supervisor(1);
    s.start();
    s.on_spawned();
    s.restart();
    assert_eq!(s.on_spawn_failed(), SupervisorAction::Spawn { delay_ms: 100 });
    assert_eq!(s.on_spawn_failed(), SupervisorAction::Escalate);
}
