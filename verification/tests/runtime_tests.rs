use rust_interface::errors::ExecutionError;
use rust_interface::framing::{FrameBuffer, FrameStep};
use rust_interface::messages::{Ack, Request, Response};
use rust_interface::protocol::{decode_request, encode_response};
use rust_interface::runtime::{
    call_timeout, interpret, PendingOp, Progress, Reaction, Reply, RuntimeAdapter, Step,
    WorkerEvent,
};
use rust_interface::runtime_model::{AdapterConfig, ERR_ARTIFACT_NOT_ACTIVE};
use rust_interface::supervisor::{
    python_worker_command, RestartPolicy, SupervisorAction, WorkerState,
};
use rust_interface::types::{
    ArtifactId, CallOutcome, CallRequest, DeploymentStatus, ExecutionContext, FailureKind,
    ServiceInstanceSpec, StateEffect,
};

fn config() -> AdapterConfig {
    AdapterConfig {
        control_timeout_ms: 3000,
        min_call_timeout_ms: 10,
        max_call_timeout_ms: 2000,
        budget_per_ms: 100,
    }
}

fn idle_adapter(max_restarts: u32) -> RuntimeAdapter {
    RuntimeAdapter::new(
        config(),
        python_worker_command("runtime.toml"),
        RestartPolicy { max_restarts, base_delay_ms: 50, max_delay_ms: 400 },
    )
}

fn running_adapter() -> RuntimeAdapter {
    let mut adapter = idle_adapter(2);
    assert_eq!(adapter.start(), SupervisorAction::Spawn { delay_ms: 0 });
    adapter.on_worker_started();
    adapter
}

fn a1() -> ArtifactId {
    ArtifactId { name: String::from("A1"), version: String::from("1.0.0") }
}

fn instance(id: u32) -> ServiceInstanceSpec {
    ServiceInstanceSpec { instance_id: id, artifact: a1(), args: b"args".to_vec() }
}

fn call(instance_id: u32, budget: u64) -> CallRequest {
    CallRequest {
        instance_id,
        method: String::from("method"),
        payload: b"payload".to_vec(),
        context: ExecutionContext { height: 5, caller: vec![1, 2, 3], budget },
    }
}

fn sent(step: Step) -> (u64, Request, u64) {
    match step {
        Step::Send { id, frame, timeout_ms } => {
            let mut buf = FrameBuffer::new(1 << 20);
            buf.extend(&frame);
            let payload = match buf.next_frame() {
                FrameStep::Frame(p) => p,
                other => panic!("no frame: {:?}", other),
            };
            assert_eq!(buf.pending_len(), 0);
            let (wire_id, request) = decode_request(&payload).unwrap();
            assert_eq!(wire_id, id);
            (id, request, timeout_ms)
        }
        Step::Done(r) => panic!("nothing was sent: {:?}", r),
    }
}

fn answer(adapter: &mut RuntimeAdapter, id: u64, response: Response) -> Reaction {
    adapter.on_event(WorkerEvent::Frame(encode_response(id, &response)))
}

fn finished(reaction: Reaction) -> Result<Reply, ExecutionError> {
    assert_eq!(reaction.action, SupervisorAction::Nothing);
    match reaction.progress {
        Progress::Finished(r) => r,
        Progress::Ignored => panic!("the call did not finish"),
    }
}

fn deploy_a1(adapter: &mut RuntimeAdapter) {
    let (id, _, _) = sent(adapter.deploy_artifact(&a1(), b"spec"));
    let r = finished(answer(adapter, id, Response::DeployAck { status: Ack::Accepted }));
    assert_eq!(r, Ok(Reply::Deployment { status: DeploymentStatus::Active }));
}

#[test]
fn call_timeout_follows_the_budget_within_bounds() {
    let c = config();
    assert_eq!(call_timeout(&c, 50_000), 500);
    assert_eq!(call_timeout(&c, 50_099), 500);
    assert_eq!(call_timeout(&c, 0), 10);
    assert_eq!(call_timeout(&c, 999), 10);
    assert_eq!(call_timeout(&c, 1_000), 10);
    assert_eq!(call_timeout(&c, 1_100), 11);
    assert_eq!(call_timeout(&c, 200_000), 2000);
    assert_eq!(call_timeout(&c, u64::MAX), 2000);
}

#[test]
fn call_timeout_without_a_rate_is_the_longest_wait() {
    let c = AdapterConfig { budget_per_ms: 0, ..config() };
    assert_eq!(call_timeout(&c, 0), 2000);
    assert_eq!(call_timeout(&c, 12345), 2000);
}

#[test]
fn call_timeout_with_contradicting_bounds_is_the_shortest_wait() {
    let c = AdapterConfig { min_call_timeout_ms: 5000, ..config() };
    assert_eq!(call_timeout(&c, 50_000), 5000);
    assert_eq!(call_timeout(&c, u64::MAX), 5000);
}

#[test]
fn calls_are_refused_before_the_worker_runs() {
    let mut adapter = idle_adapter(2);
    assert_eq!(adapter.deploy_artifact(&a1(), b"spec"), Step::Done(Err(ExecutionError::Unavailable)));
    assert_eq!(adapter.execute(&call(1, 0)), Step::Done(Err(ExecutionError::Unavailable)));
    assert_eq!(adapter.state_hash_contribution(), Step::Done(Err(ExecutionError::Unavailable)));
    assert_eq!(adapter.deployment_status(&a1()), None);
    adapter.start();
    assert_eq!(adapter.commit_service(1), Step::Done(Err(ExecutionError::Unavailable)));
    assert!(!adapter.is_call_in_flight());
}

#[test]
fn deploy_sends_the_request_and_marks_the_artifact_pending() {
    let mut adapter = running_adapter();
    let (id, request, timeout_ms) = sent(adapter.deploy_artifact(&a1(), b"spec"));
    assert_eq!(id, 1);
    assert_eq!(request, Request::DeployArtifact { artifact: a1(), spec: b"spec".to_vec() });
    assert_eq!(timeout_ms, 3000);
    assert_eq!(adapter.deployment_status(&a1()), Some(DeploymentStatus::Pending));
    assert!(!adapter.is_artifact_deployed(&a1()));
    assert!(adapter.is_call_in_flight());
}

#[test]
fn deploy_twice_sends_one_request() {
    let mut adapter = running_adapter();
    let (id, _, _) = sent(adapter.deploy_artifact(&a1(), b"spec"));
    assert_eq!(
        adapter.deploy_artifact(&a1(), b"spec"),
        Step::Done(Ok(Reply::Deployment { status: DeploymentStatus::Pending }))
    );
    assert_eq!(
        adapter.deploy_artifact(&a1(), b"spec"),
        Step::Done(Ok(Reply::Deployment { status: DeploymentStatus::Pending }))
    );
    let r = finished(answer(&mut adapter, id, Response::DeployAck { status: Ack::Accepted }));
    assert_eq!(r, Ok(Reply::Deployment { status: DeploymentStatus::Active }));
    assert_eq!(
        adapter.deploy_artifact(&a1(), b"spec"),
        Step::Done(Ok(Reply::Deployment { status: DeploymentStatus::Active }))
    );
    let (next_id, _, _) = sent(adapter.state_hash_contribution());
    assert_eq!(next_id, id + 1);
}

#[test]
fn deployed_artifact_can_be_instantiated() {
    let mut adapter = running_adapter();
    deploy_a1(&mut adapter);
    assert!(adapter.is_artifact_deployed(&a1()));
    let (id, request, _) = sent(adapter.start_service(&instance(1)));
    assert_eq!(request, Request::StartInstance { instance: instance(1) });
    let r = finished(answer(&mut adapter, id, Response::StartAck { status: Ack::Accepted }));
    assert_eq!(r, Ok(Reply::Started { instance_id: 1 }));
    assert!(!adapter.is_call_in_flight());
}

#[test]
fn service_on_an_artifact_that_is_not_active_is_refused() {
    let mut adapter = running_adapter();
    let refused = Step::Done(Err(ExecutionError::Application {
        code: ERR_ARTIFACT_NOT_ACTIVE,
        message: String::from("artifact is not active"),
    }));
    assert_eq!(adapter.start_service(&instance(1)), refused);
    let (id, _, _) = sent(adapter.deploy_artifact(&a1(), b"spec"));
    let rejected = Ack::Rejected { code: 8, message: String::from("broken") };
    let r = finished(answer(&mut adapter, id, Response::DeployAck { status: rejected }));
    assert_eq!(r, Err(ExecutionError::Application { code: 8, message: String::from("broken") }));
    assert_eq!(adapter.start_service(&instance(1)), refused);
    assert!(!adapter.is_call_in_flight());
}

#[test]
fn rejected_deployment_is_failed_and_can_be_retried() {
    let mut adapter = running_adapter();
    let (id, _, _) = sent(adapter.deploy_artifact(&a1(), b"spec"));
    let rejected = Ack::Rejected { code: 8, message: String::from("broken") };
    let cause = ExecutionError::Application { code: 8, message: String::from("broken") };
    let r = finished(answer(&mut adapter, id, Response::DeployAck { status: rejected }));
    assert_eq!(r, Err(cause.clone()));
    assert_eq!(adapter.deployment_status(&a1()), Some(DeploymentStatus::Failed(cause)));
    let (retry_id, request, _) = sent(adapter.deploy_artifact(&a1(), b"spec v2"));
    assert_eq!(retry_id, id + 1);
    assert_eq!(request, Request::DeployArtifact { artifact: a1(), spec: b"spec v2".to_vec() });
    let r = finished(answer(&mut adapter, retry_id, Response::DeployAck { status: Ack::Accepted }));
    assert_eq!(r, Ok(Reply::Deployment { status: DeploymentStatus::Active }));
    assert!(adapter.is_artifact_deployed(&a1()));
}

#[test]
fn execute_returns_payload_and_effects() {
    let mut adapter = running_adapter();
    let (id, request, timeout_ms) = sent(adapter.execute(&call(1, 50_000)));
    assert_eq!(request, Request::ExecuteCall { call: call(1, 50_000) });
    assert_eq!(timeout_ms, 500);
    let effects = vec![
        StateEffect::Put { key: b"balance".to_vec(), value: vec![10] },
        StateEffect::Delete { key: b"lock".to_vec() },
    ];
    let outcome = CallOutcome::Success { payload: b"done".to_vec(), effects: effects.clone() };
    let r = finished(answer(&mut adapter, id, Response::ExecuteResult { outcome }));
    assert_eq!(r, Ok(Reply::Executed { payload: b"done".to_vec(), effects }));
}

#[test]
fn application_error_is_returned_with_its_code_each_time() {
    let mut adapter = running_adapter();
    let mut results = Vec::new();
    for _ in 0..2 {
        let (id, _, _) = sent(adapter.execute(&call(1, 1000)));
        let outcome = CallOutcome::Failure {
            kind: FailureKind::Service,
            code: 42,
            message: String::from("reverted"),
        };
        results.push(finished(answer(&mut adapter, id, Response::ExecuteResult { outcome })));
    }
    assert_eq!(
        results[0],
        Err(ExecutionError::Application { code: 42, message: String::from("reverted") })
    );
    assert_eq!(results[0], results[1]);
    assert!(results[0].as_ref().unwrap_err().is_deterministic());
}

#[test]
fn timed_out_call_is_unavailable_and_its_late_answer_is_dropped() {
    let mut adapter = running_adapter();
    let (first, _, _) = sent(adapter.execute(&call(1, 1000)));
    let r = finished(adapter.on_event(WorkerEvent::Timeout { id: first }));
    assert_eq!(r, Err(ExecutionError::Unavailable));
    assert!(!adapter.is_call_in_flight());

    let late = Response::ExecuteResult {
        outcome: CallOutcome::Success { payload: b"late".to_vec(), effects: vec![] },
    };
    let dropped = answer(&mut adapter, first, late.clone());
    assert_eq!(dropped.progress, Progress::Ignored);

    let (second, _, _) = sent(adapter.execute(&call(1, 1000)));
    assert_eq!(second, first + 1);
    let dropped = answer(&mut adapter, first, late);
    assert_eq!(dropped.progress, Progress::Ignored);
    assert!(adapter.is_call_in_flight());

    let fresh = Response::ExecuteResult {
        outcome: CallOutcome::Success { payload: b"fresh".to_vec(), effects: vec![] },
    };
    let r = finished(answer(&mut adapter, second, fresh));
    assert_eq!(r, Ok(Reply::Executed { payload: b"fresh".to_vec(), effects: vec![] }));
}

#[test]
fn timeout_for_another_request_is_ignored() {
    let mut adapter = running_adapter();
    let (id, _, _) = sent(adapter.execute(&call(1, 1000)));
    let reaction = adapter.on_event(WorkerEvent::Timeout { id: id + 1 });
    assert_eq!(reaction.progress, Progress::Ignored);
    assert!(adapter.is_call_in_flight());
    let idle = running_adapter().on_event(WorkerEvent::Timeout { id: 1 });
    assert_eq!(idle.progress, Progress::Ignored);
}

#[test]
fn commit_twice_succeeds_and_the_replay_is_a_no_op() {
    let mut adapter = running_adapter();
    deploy_a1(&mut adapter);
    let (id, _, _) = sent(adapter.start_service(&instance(1)));
    finished(answer(&mut adapter, id, Response::StartAck { status: Ack::Accepted })).unwrap();

    let (id, request, _) = sent(adapter.commit_service(1));
    assert_eq!(request, Request::CommitInstance { instance_id: 1 });
    let r = finished(answer(&mut adapter, id, Response::CommitAck { status: Ack::Accepted }));
    assert_eq!(r, Ok(Reply::Committed { applied: true }));

    let (id, _, _) = sent(adapter.commit_service(1));
    let r = finished(answer(&mut adapter, id, Response::CommitAck { status: Ack::Unknown }));
    assert_eq!(r, Ok(Reply::Committed { applied: false }));
}

#[test]
fn stop_of_an_instance_the_worker_forgot_succeeds() {
    let mut adapter = running_adapter();
    let (id, request, _) = sent(adapter.stop_service(3));
    assert_eq!(request, Request::StopInstance { instance_id: 3 });
    let r = finished(answer(&mut adapter, id, Response::StopAck { status: Ack::Unknown }));
    assert_eq!(r, Ok(Reply::Stopped { applied: false }));
    let (id, _, _) = sent(adapter.stop_service(3));
    let rejected = Ack::Rejected { code: 2, message: String::from("busy") };
    let r = finished(answer(&mut adapter, id, Response::StopAck { status: rejected }));
    assert_eq!(r, Err(ExecutionError::Application { code: 2, message: String::from("busy") }));
}

#[test]
fn state_hash_is_what_the_worker_says() {
    let mut adapter = running_adapter();
    let (id, request, timeout_ms) = sent(adapter.state_hash_contribution());
    assert_eq!(request, Request::QueryStateHash);
    assert_eq!(timeout_ms, 3000);
    let r = finished(answer(&mut adapter, id, Response::StateHashResult { digest: vec![7; 32] }));
    assert_eq!(r, Ok(Reply::StateHash { digest: vec![7; 32] }));
}

#[test]
fn state_hash_is_never_made_up() {
    let mut adapter = running_adapter();
    let (id, _, _) = sent(adapter.state_hash_contribution());
    let r = finished(adapter.on_event(WorkerEvent::Timeout { id }));
    assert_eq!(r, Err(ExecutionError::Unavailable));
    assert!(r.unwrap_err().aborts_block());
}

#[test]
fn worker_exit_fails_the_call_and_closes_the_channel() {
    let mut adapter = running_adapter();
    let (id, _, _) = sent(adapter.execute(&call(1, 1000)));
    let reaction = adapter.on_event(WorkerEvent::Disconnected);
    assert_eq!(reaction.progress, Progress::Finished(Err(ExecutionError::Unavailable)));
    assert_eq!(reaction.action, SupervisorAction::Spawn { delay_ms: 50 });
    assert_eq!(adapter.supervisor().state(), WorkerState::Restarting);
    assert_eq!(adapter.execute(&call(1, 1000)), Step::Done(Err(ExecutionError::Unavailable)));
    assert_eq!(adapter.deploy_artifact(&a1(), b"s"), Step::Done(Err(ExecutionError::Unavailable)));
    let late = Response::ExecuteResult {
        outcome: CallOutcome::Success { payload: vec![], effects: vec![] },
    };
    assert_eq!(answer(&mut adapter, id, late).progress, Progress::Ignored);
}

#[test]
fn worker_exit_fails_a_pending_deployment() {
    let mut adapter = running_adapter();
    sent(adapter.deploy_artifact(&a1(), b"spec"));
    let reaction = adapter.on_event(WorkerEvent::Disconnected);
    assert_eq!(reaction.progress, Progress::Finished(Err(ExecutionError::Unavailable)));
    assert_eq!(
        adapter.deployment_status(&a1()),
        Some(DeploymentStatus::Failed(ExecutionError::Unavailable))
    );
}

#[test]
fn restarted_worker_gets_a_new_channel() {
    let mut adapter = running_adapter();
    let (first, _, _) = sent(adapter.execute(&call(1, 1000)));
    adapter.on_event(WorkerEvent::Disconnected);
    adapter.on_worker_started();
    assert!(adapter.supervisor().is_alive());
    let (id, _, _) = sent(adapter.execute(&call(1, 1000)));
    assert_eq!(id, first);
}

#[test]
fn spent_restart_budget_is_fatal() {
    let mut adapter = idle_adapter(1);
    adapter.start();
    adapter.on_worker_started();
    let reaction = adapter.on_event(WorkerEvent::Disconnected);
    assert_eq!(reaction.progress, Progress::Ignored);
    assert_eq!(reaction.action, SupervisorAction::Spawn { delay_ms: 50 });
    assert_eq!(adapter.on_spawn_failed(), SupervisorAction::Escalate);
    assert!(adapter.supervisor().is_fatal());
    assert_eq!(adapter.execute(&call(1, 0)), Step::Done(Err(ExecutionError::SupervisorFatal)));
    assert_eq!(adapter.commit_service(1), Step::Done(Err(ExecutionError::SupervisorFatal)));
    assert_eq!(adapter.state_hash_contribution(), Step::Done(Err(ExecutionError::SupervisorFatal)));
    adapter.on_worker_started();
    assert_eq!(adapter.stop_service(1), Step::Done(Err(ExecutionError::SupervisorFatal)));
}

#[test]
fn second_call_is_refused_while_one_is_in_flight() {
    let mut adapter = running_adapter();
    let (id, _, _) = sent(adapter.execute(&call(1, 1000)));
    assert_eq!(adapter.commit_service(1), Step::Done(Err(ExecutionError::Unavailable)));
    assert_eq!(adapter.deploy_artifact(&a1(), b"s"), Step::Done(Err(ExecutionError::Unavailable)));
    assert_eq!(adapter.deployment_status(&a1()), None);
    let outcome = CallOutcome::Success { payload: vec![], effects: vec![] };
    let r = finished(answer(&mut adapter, id, Response::ExecuteResult { outcome }));
    assert_eq!(r, Ok(Reply::Executed { payload: vec![], effects: vec![] }));
}

#[test]
fn stray_response_leaves_the_call_waiting() {
    let mut adapter = running_adapter();
    let (id, _, _) = sent(adapter.commit_service(1));
    for stray in [0, id + 1, u64::MAX] {
        let r = answer(&mut adapter, stray, Response::CommitAck { status: Ack::Accepted });
        assert_eq!(r.progress, Progress::Ignored);
        assert_eq!(r.action, SupervisorAction::Nothing);
    }
    let r = finished(answer(&mut adapter, id, Response::CommitAck { status: Ack::Accepted }));
    assert_eq!(r, Ok(Reply::Committed { applied: true }));
}

#[test]
fn malformed_response_is_a_protocol_violation() {
    let mut adapter = running_adapter();
    let (id, _, _) = sent(adapter.execute(&call(1, 1000)));
    let mut payload = encode_response(id, &Response::CommitAck { status: Ack::Accepted });
    payload.push(1);
    let r = finished(adapter.on_event(WorkerEvent::Frame(payload)));
    assert_eq!(r, Err(ExecutionError::ProtocolViolation));
    assert!(!adapter.is_call_in_flight());

    let (_, _, _) = sent(adapter.execute(&call(1, 1000)));
    let r = finished(adapter.on_event(WorkerEvent::Frame(vec![1, 2])));
    assert_eq!(r, Err(ExecutionError::ProtocolViolation));
}

#[test]
fn response_of_the_wrong_kind_is_a_protocol_violation() {
    let mut adapter = running_adapter();
    let (id, _, _) = sent(adapter.execute(&call(1, 1000)));
    let r = finished(answer(&mut adapter, id, Response::CommitAck { status: Ack::Accepted }));
    assert_eq!(r, Err(ExecutionError::ProtocolViolation));
    let (id, _, _) = sent(adapter.deploy_artifact(&a1(), b"spec"));
    let r = finished(answer(&mut adapter, id, Response::DeployAck { status: Ack::Unknown }));
    assert_eq!(r, Err(ExecutionError::ProtocolViolation));
    assert_eq!(
        adapter.deployment_status(&a1()),
        Some(DeploymentStatus::Failed(ExecutionError::ProtocolViolation))
    );
}

#[test]
fn interpret_reads_each_kind_of_answer() {
    let commit = PendingOp::Commit { instance_id: 1 };
    assert_eq!(
        interpret(&commit, Response::CommitAck { status: Ack::Accepted }),
        Ok(Reply::Committed { applied: true })
    );
    assert_eq!(
        interpret(&commit, Response::StopAck { status: Ack::Accepted }),
        Err(ExecutionError::ProtocolViolation)
    );
    assert_eq!(
        interpret(&PendingOp::Start { instance_id: 5 }, Response::StartAck { status: Ack::Unknown }),
        Err(ExecutionError::ProtocolViolation)
    );
    assert_eq!(
        interpret(&PendingOp::StateHash, Response::StateHashResult { digest: vec![1] }),
        Ok(Reply::StateHash { digest: vec![1] })
    );
    let failure = CallOutcome::Failure {
        kind: FailureKind::Runtime,
        code: 3,
        message: String::from("oom"),
    };
    assert_eq!(
        interpret(&PendingOp::Execute, Response::ExecuteResult { outcome: failure }),
        Err(ExecutionError::Application { code: 3, message: String::from("oom") })
    );
}

#[test]
fn terminate_ends_the_call_in_flight() {
    let mut adapter = running_adapter();
    sent(adapter.execute(&call(1, 1000)));
    let reaction = adapter.terminate();
    assert_eq!(reaction.progress, Progress::Finished(Err(ExecutionError::Unavailable)));
    assert_eq!(reaction.action, SupervisorAction::Kill);
    assert_eq!(adapter.execute(&call(1, 1000)), Step::Done(Err(ExecutionError::Unavailable)));
    let again = adapter.terminate();
    assert_eq!(again.progress, Progress::Ignored);
    assert_eq!(again.action, SupervisorAction::Nothing);
}

#[test]
fn restored_artifact_is_deployed() {
    let mut adapter = running_adapter();
    adapter.restore_artifact(&a1(), b"spec");
    assert!(adapter.is_artifact_deployed(&a1()));
    let (_, request, _) = sent(adapter.start_service(&instance(2)));
    assert_eq!(request, Request::StartInstance { instance: instance(2) });
}

#[test]
fn restore_does_not_overrule_a_deployment_in_flight() {
    let mut adapter = running_adapter();
    let (id, _, _) = sent(adapter.deploy_artifact(&a1(), b"spec"));
    adapter.restore_artifact(&a1(), b"spec");
    assert_eq!(adapter.deployment_status(&a1()), Some(DeploymentStatus::Pending));
    let rejected = Ack::Rejected { code: 1, message: String::new() };
    finished(answer(&mut adapter, id, Response::DeployAck { status: rejected })).unwrap_err();
    assert!(!adapter.is_artifact_deployed(&a1()));
}

#[test]
fn adapter_keeps_its_configuration() {
    let adapter = idle_adapter(2);
    assert_eq!(adapter.config(), config());
    assert_eq!(adapter.supervisor().command().program, "python");
    assert_eq!(adapter.supervisor().state(), WorkerState::Idle);
}

#[test]
fn requested_restart_ends_the_call_and_opens_a_new_channel() {
    let mut adapter = running_adapter();
    deploy_a1(&mut adapter);
    sent(adapter.execute(&call(1, 1000)));
    let reaction = adapter.restart();
    assert_eq!(reaction.progress, Progress::Finished(Err(ExecutionError::Unavailable)));
    assert_eq!(reaction.action, SupervisorAction::Spawn { delay_ms: 0 });
    assert_eq!(adapter.execute(&call(1, 1000)), Step::Done(Err(ExecutionError::Unavailable)));
    adapter.on_worker_started();
    assert!(adapter.is_artifact_deployed(&a1()));
    let (id, _, _) = sent(adapter.execute(&call(1, 1000)));
    assert_eq!(id, 1);
}

#[test]
fn requested_restart_of_a_worker_that_does_not_run_does_nothing() {
    let mut adapter = idle_adapter(2);
    let reaction = adapter.restart();
    assert_eq!(reaction.progress, Progress::Ignored);
    assert_eq!(reaction.action, SupervisorAction::Nothing);
    assert_eq!(adapter.supervisor().state(), WorkerState::Idle);
}
