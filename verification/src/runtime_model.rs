//! The runtime adapter as a state machine over mathematical values: what each
//! host call and each report from the worker does to the state, and what the
//! host gets back. The executable adapter is proved to follow it step by
//! step, and the laws at the end of this file are proved of it.

use crate::channel::{ChannelModel, DeliveryView};
use crate::errors::{
    ChannelError, DecodeError, ExecutionErrorView, spec_translate_channel_error,
    spec_translate_decode_error,
};
use crate::framing::spec_frame;
use crate::messages::{AckView, RequestView, ResponseView};
use crate::pending_deployment::{
    DeploymentRecord, after_begin, after_complete, begin_issues, begin_status, status_of,
};
use crate::protocol::{
    lemma_decode_encode_response, spec_encode_request, spec_encode_response, spec_peek_id,
};
use crate::supervisor::{SupervisorAction, SupervisorModel, WorkerState};
use crate::types::{
    ArtifactIdView, CallOutcomeView, CallRequestView, DeploymentStatusView, FailureKind,
    ServiceInstanceSpecView, StateEffectView,
};
use vstd::prelude::*;

verus! {

/// The code of the failure that refuses a service on an artifact that is not
/// deployed.
pub const ERR_ARTIFACT_NOT_ACTIVE: u32 = 1;

/// How long the adapter waits for the worker.
#[derive(Clone, Copy, Debug, PartialEq, Eq, Structural)]
pub struct AdapterConfig {
    /// The wait for the answer to a deployment, lifecycle or state-hash
    /// request, in milliseconds.
    pub control_timeout_ms: u64,
    /// The shortest wait for the answer to a call.
    pub min_call_timeout_ms: u64,
    /// The longest wait for the answer to a call.
    pub max_call_timeout_ms: u64,
    /// How many units of the host's resource budget buy one millisecond.
    pub budget_per_ms: u64,
}

/// The wait for the answer to a call with the given budget: the budget
/// converted to milliseconds, kept between the shortest and the longest wait.
/// Where the two bounds contradict each other the shortest wait stands.
pub open spec fn spec_call_timeout(config: AdapterConfig, budget: u64) -> u64 {
    let raw = if config.budget_per_ms == 0 {
        config.max_call_timeout_ms
    } else {
        budget / config.budget_per_ms
    };
    let capped = if raw > config.max_call_timeout_ms {
        config.max_call_timeout_ms
    } else {
        raw
    };
    if capped < config.min_call_timeout_ms {
        config.min_call_timeout_ms
    } else {
        capped
    }
}

/// The request that is in flight, as far as its answer depends on it.
pub enum PendingOpView {
    Deploy { artifact: ArtifactIdView },
    Start { instance_id: u32 },
    Commit { instance_id: u32 },
    Stop { instance_id: u32 },
    Execute,
    StateHash,
}

/// What a host call yields when it succeeds.
pub enum ReplyView {
    Deployment { status: DeploymentStatusView },
    Started { instance_id: u32 },
    Committed { applied: bool },
    Stopped { applied: bool },
    Executed { payload: Seq<u8>, effects: Seq<StateEffectView> },
    StateHash { digest: Seq<u8> },
}

/// What a host call leads to at once.
pub enum StepView {
    /// A request has to go to the worker; the answer comes with a later
    /// event.
    Send { id: u64, frame: Seq<u8>, timeout_ms: u64 },
    /// The call is over.
    Done { result: Result<ReplyView, ExecutionErrorView> },
}

/// What the embedding program reports.
pub enum EventView {
    /// The payload of one frame from the worker.
    Frame { payload: Seq<u8> },
    /// No answer came in time for request `id`.
    Timeout { id: u64 },
    /// The worker exited or its streams closed.
    Disconnected,
}

/// What an event means for the call in flight.
pub enum ProgressView {
    /// Nothing: the call, if there is one, still waits.
    Ignored,
    /// The call is over.
    Finished { result: Result<ReplyView, ExecutionErrorView> },
}

/// What an event leads to.
pub struct ReactionView {
    pub progress: ProgressView,
    pub action: SupervisorAction,
}

/// The failure that stands for a refused instantiation.
pub open spec fn artifact_not_active() -> ExecutionErrorView {
    ExecutionErrorView::Application {
        code: ERR_ARTIFACT_NOT_ACTIVE,
        message: "artifact is not active"@,
    }
}

/// What an acknowledgement means for a deployment or an instantiation: only
/// acceptance succeeds, and an `Unknown` is no answer to such a request.
pub open spec fn interpret_creation(status: AckView, reply: ReplyView) -> Result<
    ReplyView,
    ExecutionErrorView,
> {
    match status {
        AckView::Accepted => Ok(reply),
        AckView::Unknown => Err(ExecutionErrorView::ProtocolViolation),
        AckView::Rejected { code, message } => Err(
            ExecutionErrorView::Application { code, message },
        ),
    }
}

/// What an acknowledgement means for a commit or a stop: a worker that has
/// no record of the instance has nothing left to do, which is success.
pub open spec fn interpret_lifecycle(status: AckView) -> Result<bool, ExecutionErrorView> {
    match status {
        AckView::Accepted => Ok(true),
        AckView::Unknown => Ok(false),
        AckView::Rejected { code, message } => Err(
            ExecutionErrorView::Application { code, message },
        ),
    }
}

/// What the worker's response means for the request in flight. A response
/// of another kind than the request asks for violates the protocol.
pub open spec fn spec_interpret(op: PendingOpView, response: ResponseView) -> Result<
    ReplyView,
    ExecutionErrorView,
> {
    match (op, response) {
        (PendingOpView::Deploy { artifact }, ResponseView::DeployAck { status }) => {
            interpret_creation(
                status,
                ReplyView::Deployment { status: DeploymentStatusView::Active },
            )
        },
        (PendingOpView::Start { instance_id }, ResponseView::StartAck { status }) => {
            interpret_creation(status, ReplyView::Started { instance_id })
        },
        (PendingOpView::Commit { instance_id }, ResponseView::CommitAck { status }) => {
            match interpret_lifecycle(status) {
                Ok(applied) => Ok(ReplyView::Committed { applied }),
                Err(e) => Err(e),
            }
        },
        (PendingOpView::Stop { instance_id }, ResponseView::StopAck { status }) => {
            match interpret_lifecycle(status) {
                Ok(applied) => Ok(ReplyView::Stopped { applied }),
                Err(e) => Err(e),
            }
        },
        (PendingOpView::Execute, ResponseView::ExecuteResult { outcome }) => match outcome {
            CallOutcomeView::Success { payload, effects } => Ok(
                ReplyView::Executed { payload, effects },
            ),
            CallOutcomeView::Failure { kind, code, message } => Err(
                ExecutionErrorView::Application { code, message },
            ),
        },
        (PendingOpView::StateHash, ResponseView::StateHashResult { digest }) => Ok(
            ReplyView::StateHash { digest },
        ),
        _ => Err(ExecutionErrorView::ProtocolViolation),
    }
}

/// How a finished call counts for the deployment it may have been.
pub open spec fn deployment_outcome(result: Result<ReplyView, ExecutionErrorView>) -> Result<
    (),
    ExecutionErrorView,
> {
    match result {
        Ok(_) => Ok(()),
        Err(e) => Err(e),
    }
}

/// Mathematical state of the adapter.
pub struct AdapterModel {
    pub config: AdapterConfig,
    pub channel: ChannelModel,
    pub deployments: Map<ArtifactIdView, DeploymentRecord>,
    pub supervisor: SupervisorModel,
    pub pending: Option<PendingOpView>,
}

impl AdapterModel {
    /// A request awaits its answer exactly when the adapter knows what it
    /// was, only while the worker runs, and an artifact is pending exactly
    /// while the request to deploy it is the one in flight.
    pub open spec fn wf(self) -> bool {
        &&& self.channel.wf()
        &&& self.pending is Some <==> self.channel.awaiting is Some
        &&& self.pending is Some ==> self.supervisor.is_alive()
        &&& forall|a: ArtifactIdView|
            status_of(self.deployments, a) == Some(DeploymentStatusView::Pending) <==> self.pending
                == Some(PendingOpView::Deploy { artifact: a })
    }

    /// The state of a new adapter: nothing deployed, nothing in flight.
    pub open spec fn initial(config: AdapterConfig, supervisor: SupervisorModel) -> AdapterModel {
        AdapterModel {
            config,
            channel: ChannelModel::fresh(),
            deployments: Map::empty(),
            supervisor,
            pending: None,
        }
    }

    /// Why no request can go to the worker at all, if so: the supervisor
    /// gave up, or the worker does not run.
    pub open spec fn refusal(self) -> Option<ExecutionErrorView> {
        if self.supervisor.state == WorkerState::Fatal {
            Some(ExecutionErrorView::SupervisorFatal)
        } else if !self.supervisor.is_alive() {
            Some(ExecutionErrorView::Unavailable)
        } else {
            None
        }
    }

    /// Hands a request to the channel. Where the channel takes it, it is in
    /// flight; where not, the call is over.
    pub open spec fn issue(self, request: RequestView, op: PendingOpView, timeout_ms: u64) -> (
        AdapterModel,
        StepView,
    ) {
        match self.channel.send_result() {
            Ok(id) => (
                AdapterModel { channel: self.channel.after_send(), pending: Some(op), ..self },
                StepView::Send {
                    id,
                    frame: spec_frame(spec_encode_request(id, request)),
                    timeout_ms,
                },
            ),
            Err(e) => (
                AdapterModel { channel: self.channel.after_send(), ..self },
                StepView::Done { result: Err(spec_translate_channel_error(e)) },
            ),
        }
    }

    /// A request that needs nothing but a running worker and a free channel.
    pub open spec fn call(self, request: RequestView, op: PendingOpView, timeout_ms: u64) -> (
        AdapterModel,
        StepView,
    ) {
        match self.refusal() {
            Some(e) => (self, StepView::Done { result: Err(e) }),
            None => self.issue(request, op, timeout_ms),
        }
    }

    /// Whether the worker has confirmed the deployment of the artifact.
    pub open spec fn is_artifact_deployed(self, artifact: ArtifactIdView) -> bool {
        status_of(self.deployments, artifact) == Some(DeploymentStatusView::Active)
    }

    /// The host asks for an artifact. One that is pending or deployed is
    /// answered from the table; for any other a request goes out, if the
    /// channel takes it, and the artifact is pending from then on.
    pub open spec fn deploy_artifact(self, artifact: ArtifactIdView, spec: Seq<u8>) -> (
        AdapterModel,
        StepView,
    ) {
        match self.refusal() {
            Some(e) => (self, StepView::Done { result: Err(e) }),
            None => if !begin_issues(self.deployments, artifact) {
                (
                    self,
                    StepView::Done {
                        result: Ok(
                            ReplyView::Deployment {
                                status: begin_status(self.deployments, artifact),
                            },
                        ),
                    },
                )
            } else {
                let (next, step) = self.issue(
                    RequestView::DeployArtifact { artifact, spec },
                    PendingOpView::Deploy { artifact },
                    self.config.control_timeout_ms,
                );
                if step is Send {
                    (
                        AdapterModel {
                            deployments: after_begin(self.deployments, artifact, spec),
                            ..next
                        },
                        step,
                    )
                } else {
                    (next, step)
                }
            },
        }
    }

    /// The host starts a service. Refused where its artifact is not
    /// deployed.
    pub open spec fn start_service(self, instance: ServiceInstanceSpecView) -> (
        AdapterModel,
        StepView,
    ) {
        match self.refusal() {
            Some(e) => (self, StepView::Done { result: Err(e) }),
            None => if !self.is_artifact_deployed(instance.artifact) {
                (self, StepView::Done { result: Err(artifact_not_active()) })
            } else {
                self.issue(
                    RequestView::StartInstance { instance },
                    PendingOpView::Start { instance_id: instance.instance_id },
                    self.config.control_timeout_ms,
                )
            },
        }
    }

    /// The host commits a service.
    pub open spec fn commit_service(self, instance_id: u32) -> (AdapterModel, StepView) {
        self.call(
            RequestView::CommitInstance { instance_id },
            PendingOpView::Commit { instance_id },
            self.config.control_timeout_ms,
        )
    }

    /// The host stops a service.
    pub open spec fn stop_service(self, instance_id: u32) -> (AdapterModel, StepView) {
        self.call(
            RequestView::StopInstance { instance_id },
            PendingOpView::Stop { instance_id },
            self.config.control_timeout_ms,
        )
    }

    /// The host makes a call; the wait for its answer follows from its budget.
    pub open spec fn execute(self, call: CallRequestView) -> (AdapterModel, StepView) {
        self.call(
            RequestView::ExecuteCall { call },
            PendingOpView::Execute,
            spec_call_timeout(self.config, call.context.budget),
        )
    }

    /// The host asks for the worker's contribution to the state hash.
    pub open spec fn state_hash_contribution(self) -> (AdapterModel, StepView) {
        self.call(
            RequestView::QueryStateHash,
            PendingOpView::StateHash,
            self.config.control_timeout_ms,
        )
    }

    /// The call in flight ends with `result`. A deployment takes it as its
    /// outcome.
    pub open spec fn finish(self, result: Result<ReplyView, ExecutionErrorView>) -> AdapterModel {
        match self.pending {
            Some(PendingOpView::Deploy { artifact }) => AdapterModel {
                pending: None,
                deployments: after_complete(
                    self.deployments,
                    artifact,
                    deployment_outcome(result),
                ),
                ..self
            },
            _ => AdapterModel { pending: None, ..self },
        }
    }

    /// What the event means for the call in flight: how it ends, if it ends.
    pub open spec fn resolution(self, event: EventView) -> Option<
        Result<ReplyView, ExecutionErrorView>,
    > {
        match self.pending {
            None => None,
            Some(op) => match event {
                EventView::Frame { payload } => match self.channel.delivery(payload) {
                    DeliveryView::Discarded => None,
                    DeliveryView::Delivered { id, response } => Some(
                        spec_interpret(op, response),
                    ),
                    DeliveryView::Malformed { id } => Some(
                        Err(spec_translate_decode_error(DecodeError::Malformed)),
                    ),
                    DeliveryView::Failed { id, error } => Some(
                        Err(spec_translate_channel_error(error)),
                    ),
                },
                EventView::Timeout { id } => if self.channel.times_out(id) {
                    Some(Err(spec_translate_channel_error(ChannelError::Timeout)))
                } else {
                    None
                },
                EventView::Disconnected => Some(
                    Err(spec_translate_channel_error(ChannelError::Disconnected)),
                ),
            },
        }
    }

    /// The channel after the event.
    pub open spec fn channel_after(self, event: EventView) -> ChannelModel {
        match event {
            EventView::Frame { payload } => self.channel.after_frame(payload),
            EventView::Timeout { id } => self.channel.after_timeout(id),
            EventView::Disconnected => self.channel.after_disconnect(),
        }
    }

    /// The supervisor after the event, and what it asks for: only the loss
    /// of the worker concerns it.
    pub open spec fn supervisor_after(self, event: EventView) -> (
        SupervisorModel,
        SupervisorAction,
    ) {
        match event {
            EventView::Disconnected => self.supervisor.on_exit(),
            _ => (self.supervisor, SupervisorAction::Nothing),
        }
    }

    /// The state after an event, and what follows from it.
    pub open spec fn on_event(self, event: EventView) -> (AdapterModel, ReactionView) {
        let moved = AdapterModel {
            channel: self.channel_after(event),
            supervisor: self.supervisor_after(event).0,
            ..self
        };
        let action = self.supervisor_after(event).1;
        match self.resolution(event) {
            None => (moved, ReactionView { progress: ProgressView::Ignored, action }),
            Some(result) => (
                moved.finish(result),
                ReactionView { progress: ProgressView::Finished { result }, action },
            ),
        }
    }

    /// The worker reports an artifact as deployed. The table takes it,
    /// unless the request to deploy that artifact is in flight, whose answer
    /// then decides.
    pub open spec fn restore_artifact(self, artifact: ArtifactIdView, spec: Seq<u8>) -> AdapterModel {
        if status_of(self.deployments, artifact) == Some(DeploymentStatusView::Pending) {
            self
        } else {
            AdapterModel {
                deployments: self.deployments.insert(
                    artifact,
                    DeploymentRecord { spec, status: DeploymentStatusView::Active },
                ),
                ..self
            }
        }
    }

    /// The host asks for the worker to be started.
    pub open spec fn start(self) -> (AdapterModel, SupervisorAction) {
        (AdapterModel { supervisor: self.supervisor.start().0, ..self }, self.supervisor.start().1)
    }

    /// The worker was spawned: where that makes it run, a new channel
    /// begins.
    pub open spec fn on_worker_started(self) -> AdapterModel {
        let supervisor = self.supervisor.on_spawned();
        if supervisor.is_alive() && !self.supervisor.is_alive() {
            AdapterModel { supervisor, channel: ChannelModel::fresh(), ..self }
        } else {
            self
        }
    }

    /// The worker could not be spawned.
    pub open spec fn on_spawn_failed(self) -> (AdapterModel, SupervisorAction) {
        (
            AdapterModel { supervisor: self.supervisor.on_spawn_failed().0, ..self },
            self.supervisor.on_spawn_failed().1,
        )
    }

    /// The connection to the worker is given up. A call in flight ends as
    /// on the loss of the worker.
    pub open spec fn close(self) -> (AdapterModel, ProgressView) {
        let moved = AdapterModel { channel: self.channel.after_disconnect(), ..self };
        match self.pending {
            None => (moved, ProgressView::Ignored),
            Some(_) => {
                let result = Err(spec_translate_channel_error(ChannelError::Disconnected));
                (moved.finish(result), ProgressView::Finished { result })
            },
        }
    }

    /// The host ends the worker.
    pub open spec fn terminate(self) -> (AdapterModel, ReactionView) {
        let (closed, progress) = self.close();
        (
            AdapterModel { supervisor: self.supervisor.terminate().0, ..closed },
            ReactionView { progress, action: self.supervisor.terminate().1 },
        )
    }

    /// The host asks for the worker to be replaced. Where it runs, its
    /// connection is given up and a new worker is to be spawned; where not,
    /// nothing happens.
    pub open spec fn restart(self) -> (AdapterModel, ReactionView) {
        if self.supervisor.is_alive() {
            let (closed, progress) = self.close();
            (
                AdapterModel { supervisor: self.supervisor.restart().0, ..closed },
                ReactionView { progress, action: self.supervisor.restart().1 },
            )
        } else {
            (
                self,
                ReactionView {
                    progress: ProgressView::Ignored,
                    action: SupervisorAction::Nothing,
                },
            )
        }
    }
}

/// Every host call and every event keeps the state well formed.
pub proof fn lemma_transitions_keep_wf(
    m: AdapterModel,
    artifact: ArtifactIdView,
    spec: Seq<u8>,
    instance: ServiceInstanceSpecView,
    instance_id: u32,
    call: CallRequestView,
    event: EventView,
)
    requires
        m.wf(),
    ensures
        m.deploy_artifact(artifact, spec).0.wf(),
        m.start_service(instance).0.wf(),
        m.commit_service(instance_id).0.wf(),
        m.stop_service(instance_id).0.wf(),
        m.execute(call).0.wf(),
        m.state_hash_contribution().0.wf(),
        m.on_event(event).0.wf(),
        m.start().0.wf(),
        m.on_worker_started().wf(),
        m.on_spawn_failed().0.wf(),
        m.terminate().0.wf(),
        m.restart().0.wf(),
        m.restore_artifact(artifact, spec).wf(),
{
    lemma_close_keeps_wf(m, m.supervisor.terminate().0);
    lemma_close_keeps_wf(m, m.supervisor.restart().0);
    lemma_restore_keeps_wf(m, artifact, spec);
    if m.refusal() is None {
        lemma_issue_keeps_wf(
            m,
            RequestView::StartInstance { instance },
            PendingOpView::Start { instance_id: instance.instance_id },
            m.config.control_timeout_ms,
        );
        lemma_issue_keeps_wf(
            m,
            RequestView::CommitInstance { instance_id },
            PendingOpView::Commit { instance_id },
            m.config.control_timeout_ms,
        );
        lemma_issue_keeps_wf(
            m,
            RequestView::StopInstance { instance_id },
            PendingOpView::Stop { instance_id },
            m.config.control_timeout_ms,
        );
        lemma_issue_keeps_wf(
            m,
            RequestView::ExecuteCall { call },
            PendingOpView::Execute,
            spec_call_timeout(m.config, call.context.budget),
        );
        lemma_issue_keeps_wf(
            m,
            RequestView::QueryStateHash,
            PendingOpView::StateHash,
            m.config.control_timeout_ms,
        );
    }
    lemma_deploy_keeps_wf(m, artifact, spec);
    lemma_event_keeps_wf(m, event);
}

/// Handing a request that is no deployment to the channel keeps the state
/// well formed.
pub proof fn lemma_issue_keeps_wf(
    m: AdapterModel,
    request: RequestView,
    op: PendingOpView,
    timeout_ms: u64,
)
    requires
        m.wf(),
        m.refusal() is None,
        !(op is Deploy),
    ensures
        m.issue(request, op, timeout_ms).0.wf(),
{
}

/// Asking for an artifact keeps the state well formed.
pub proof fn lemma_deploy_keeps_wf(m: AdapterModel, artifact: ArtifactIdView, spec: Seq<u8>)
    requires
        m.wf(),
    ensures
        m.deploy_artifact(artifact, spec).0.wf(),
{
    let next = m.deploy_artifact(artifact, spec).0;
    if m.refusal() is None && begin_issues(m.deployments, artifact) && m.channel.send_result()
        is Ok {
        assert(m.pending is None);
        assert forall|a: ArtifactIdView|
            status_of(next.deployments, a) == Some(DeploymentStatusView::Pending) <==> next.pending
                == Some(PendingOpView::Deploy { artifact: a }) by {
            if a != artifact {
                assert(status_of(next.deployments, a) == status_of(m.deployments, a));
            }
        }
    }
}

/// Restoring an artifact keeps the state well formed, and the artifact is
/// deployed afterwards unless its deployment is in flight.
pub proof fn lemma_restore_keeps_wf(m: AdapterModel, artifact: ArtifactIdView, spec: Seq<u8>)
    requires
        m.wf(),
    ensures
        m.restore_artifact(artifact, spec).wf(),
        m.restore_artifact(artifact, spec).is_artifact_deployed(artifact) || m.pending == Some(
            PendingOpView::Deploy { artifact },
        ),
{
    let next = m.restore_artifact(artifact, spec);
    assert forall|a: ArtifactIdView|
        status_of(next.deployments, a) == Some(DeploymentStatusView::Pending) <==> next.pending
            == Some(PendingOpView::Deploy { artifact: a }) by {
        if a != artifact {
            assert(status_of(next.deployments, a) == status_of(m.deployments, a));
        }
    }
}

/// Ending the call in flight keeps the state well formed, given that the
/// channel has stopped waiting.
pub proof fn lemma_finish_keeps_wf(
    moved: AdapterModel,
    m: AdapterModel,
    result: Result<ReplyView, ExecutionErrorView>,
)
    requires
        m.wf(),
        moved.channel.wf(),
        moved.channel.awaiting is None,
        moved.pending == m.pending,
        moved.deployments == m.deployments,
    ensures
        moved.finish(result).wf(),
        m.pending is None ==> moved.finish(result).deployments == m.deployments,
{
    let next = moved.finish(result);
    match m.pending {
        Some(PendingOpView::Deploy { artifact }) => {
            assert(status_of(m.deployments, artifact) == Some(DeploymentStatusView::Pending));
            assert forall|a: ArtifactIdView|
                status_of(next.deployments, a) != Some(DeploymentStatusView::Pending) by {
                if a != artifact {
                    assert(status_of(next.deployments, a) == status_of(m.deployments, a));
                    assert(m.pending != Some(PendingOpView::Deploy { artifact: a }));
                }
            }
        },
        _ => {
            assert forall|a: ArtifactIdView|
                status_of(next.deployments, a) != Some(DeploymentStatusView::Pending) by {
                assert(m.pending != Some(PendingOpView::Deploy { artifact: a }));
            }
        },
    }
}

/// Giving up the connection keeps the state well formed and leaves no
/// call in flight, so that the supervisor may then change in any way.
pub proof fn lemma_close_keeps_wf(m: AdapterModel, then: SupervisorModel)
    requires
        m.wf(),
    ensures
        m.close().0.wf(),
        m.close().0.pending is None,
        (AdapterModel { supervisor: then, ..m.close().0 }).wf(),
{
    let moved = AdapterModel { channel: m.channel.after_disconnect(), ..m };
    lemma_finish_keeps_wf(moved, m, Err(ExecutionErrorView::Unavailable));
}

/// Every event keeps the state well formed.
pub proof fn lemma_event_keeps_wf(m: AdapterModel, event: EventView)
    requires
        m.wf(),
    ensures
        m.on_event(event).0.wf(),
{
    let moved = AdapterModel {
        channel: m.channel_after(event),
        supervisor: m.supervisor_after(event).0,
        ..m
    };
    match m.resolution(event) {
        None => {
            assert(moved.channel.awaiting == m.channel.awaiting || m.pending is None);
        },
        Some(result) => {
            lemma_finish_keeps_wf(moved, m, result);
        },
    }
}

/// A call ends once: an event ends a call only if one is in flight, and
/// none is in flight afterwards. No event ever yields an answer when nothing
/// was asked.
pub proof fn lemma_call_ends_once(m: AdapterModel, event: EventView)
    requires
        m.wf(),
    ensures
        m.on_event(event).1.progress is Finished ==> m.pending is Some && m.on_event(
            event,
        ).0.pending is None,
        m.on_event(event).1.progress is Ignored ==> m.on_event(event).0.pending == m.pending,
        m.pending is None ==> m.on_event(event).1.progress is Ignored,
{
}

/// Asking for the same artifact again while its deployment is in flight
/// reports `Pending`, sends nothing, and changes nothing: one request goes
/// to the worker, however often the host asks.
pub proof fn lemma_deploy_twice_issues_once(
    m: AdapterModel,
    artifact: ArtifactIdView,
    spec: Seq<u8>,
    again: Seq<u8>,
)
    requires
        m.wf(),
        m.deploy_artifact(artifact, spec).1 is Send,
    ensures
        ({
            let first = m.deploy_artifact(artifact, spec).0;
            first.deploy_artifact(artifact, again) == (
                first,
                StepView::Done {
                    result: Ok(ReplyView::Deployment { status: DeploymentStatusView::Pending }),
                },
            )
        }),
{
}

/// Asking for an artifact that is deployed reports `Active` and sends
/// nothing, as long as the worker runs.
pub proof fn lemma_deploy_of_active_sends_nothing(
    m: AdapterModel,
    artifact: ArtifactIdView,
    spec: Seq<u8>,
)
    requires
        m.wf(),
        m.refusal() is None,
        m.is_artifact_deployed(artifact),
    ensures
        m.deploy_artifact(artifact, spec) == (
            m,
            StepView::Done {
                result: Ok(ReplyView::Deployment { status: DeploymentStatusView::Active }),
            },
        ),
{
}

/// When the worker is lost while a call is in flight, the call ends at once
/// with `Unavailable`; and from then on every host call is refused without
/// anything being sent, until the worker runs again.
pub proof fn lemma_worker_loss_fails_call(
    m: AdapterModel,
    artifact: ArtifactIdView,
    spec: Seq<u8>,
    instance: ServiceInstanceSpecView,
    instance_id: u32,
    call: CallRequestView,
)
    requires
        m.wf(),
    ensures
        m.pending is Some ==> m.on_event(EventView::Disconnected).1.progress
            == (ProgressView::Finished { result: Err(ExecutionErrorView::Unavailable) }),
        ({
            let dead = m.on_event(EventView::Disconnected).0;
            &&& dead.pending is None
            &&& !dead.channel.connected
            &&& dead.refusal() is Some
            &&& dead.deploy_artifact(artifact, spec) == (
                dead,
                StepView::Done { result: Err(dead.refusal()->0) },
            )
            &&& dead.start_service(instance) == (
                dead,
                StepView::Done { result: Err(dead.refusal()->0) },
            )
            &&& dead.commit_service(instance_id) == (
                dead,
                StepView::Done { result: Err(dead.refusal()->0) },
            )
            &&& dead.stop_service(instance_id) == (
                dead,
                StepView::Done { result: Err(dead.refusal()->0) },
            )
            &&& dead.execute(call) == (dead, StepView::Done { result: Err(dead.refusal()->0) })
            &&& dead.state_hash_contribution() == (
                dead,
                StepView::Done { result: Err(dead.refusal()->0) },
            )
        }),
{
}

/// No refusal is ever a failure that may be committed, and none stands in
/// for a result: a call that cannot reach the worker fails with
/// `Unavailable` or `SupervisorFatal`.
pub proof fn lemma_refusal_aborts(m: AdapterModel)
    ensures
        m.refusal() matches Some(e) ==> e == ExecutionErrorView::Unavailable || e
            == ExecutionErrorView::SupervisorFatal,
{
}

/// A message whose correlation identifier is not the awaited one is dropped:
/// the state stays as it is, so the call in flight and every later call
/// proceed as if the message had never arrived.
pub proof fn lemma_stray_response_is_ignored(m: AdapterModel, payload: Seq<u8>)
    requires
        m.wf(),
        spec_peek_id(payload) matches Some(id) && m.channel.awaiting != Some(id),
    ensures
        m.on_event(EventView::Frame { payload }) == (
            m,
            ReactionView { progress: ProgressView::Ignored, action: SupervisorAction::Nothing },
        ),
{
}

/// A call that timed out ends with `Unavailable`, and whatever the worker
/// still sends for it is dropped, before and after the next call is issued.
pub proof fn lemma_late_response_is_ignored(
    m: AdapterModel,
    id: u64,
    payload: Seq<u8>,
    call: CallRequestView,
)
    requires
        m.wf(),
        m.channel.awaiting == Some(id),
        spec_peek_id(payload) == Some(id),
    ensures
        m.on_event(EventView::Timeout { id }).1.progress == (ProgressView::Finished {
            result: Err(ExecutionErrorView::Unavailable),
        }),
        ({
            let idle = m.on_event(EventView::Timeout { id }).0;
            let busy = idle.execute(call).0;
            &&& idle.on_event(EventView::Frame { payload }).0 == idle
            &&& idle.on_event(EventView::Frame { payload }).1.progress == ProgressView::Ignored
            &&& busy.on_event(EventView::Frame { payload }).0 == busy
            &&& busy.on_event(EventView::Frame { payload }).1.progress == ProgressView::Ignored
        }),
{
}

/// After the worker accepts a deployment, the artifact is deployed.
pub proof fn lemma_accepted_deployment_is_active(
    m: AdapterModel,
    artifact: ArtifactIdView,
    spec: Seq<u8>,
)
    requires
        m.wf(),
        m.deploy_artifact(artifact, spec).1 is Send,
    ensures
        ({
            let (sent, step) = m.deploy_artifact(artifact, spec);
            let payload = spec_encode_response(
                step->id,
                ResponseView::DeployAck { status: AckView::Accepted },
            );
            let (done, reaction) = sent.on_event(EventView::Frame { payload });
            &&& reaction.progress == (ProgressView::Finished {
                result: Ok(ReplyView::Deployment { status: DeploymentStatusView::Active }),
            })
            &&& done.is_artifact_deployed(artifact)
            &&& done.pending is None
        }),
{
    let (sent, step) = m.deploy_artifact(artifact, spec);
    let response = ResponseView::DeployAck { status: AckView::Accepted };
    lemma_decode_encode_response(step->id, response);
}

/// A commit or a stop that the worker no longer knows of succeeds like one
/// it carried out, so replaying either is harmless.
pub proof fn lemma_lifecycle_replay_succeeds(instance_id: u32)
    ensures
        spec_interpret(
            PendingOpView::Commit { instance_id },
            ResponseView::CommitAck { status: AckView::Accepted },
        ) == Ok::<ReplyView, ExecutionErrorView>(ReplyView::Committed { applied: true }),
        spec_interpret(
            PendingOpView::Commit { instance_id },
            ResponseView::CommitAck { status: AckView::Unknown },
        ) == Ok::<ReplyView, ExecutionErrorView>(ReplyView::Committed { applied: false }),
        spec_interpret(
            PendingOpView::Stop { instance_id },
            ResponseView::StopAck { status: AckView::Accepted },
        ) == Ok::<ReplyView, ExecutionErrorView>(ReplyView::Stopped { applied: true }),
        spec_interpret(
            PendingOpView::Stop { instance_id },
            ResponseView::StopAck { status: AckView::Unknown },
        ) == Ok::<ReplyView, ExecutionErrorView>(ReplyView::Stopped { applied: false }),
{
}

/// Whatever the worker answers, the only failure that a response can lead
/// to besides a protocol violation is the application failure it reports;
/// and a failed call is reported with the code and the message as the
/// worker gave them.
pub proof fn lemma_interpret_failures(
    op: PendingOpView,
    response: ResponseView,
    kind: FailureKind,
    code: u32,
    message: Seq<char>,
)
    ensures
        spec_interpret(op, response) matches Err(e) ==> e == ExecutionErrorView::ProtocolViolation
            || e is Application,
        spec_interpret(
            PendingOpView::Execute,
            ResponseView::ExecuteResult {
                outcome: CallOutcomeView::Failure { kind, code, message },
            },
        ) == Err::<ReplyView, ExecutionErrorView>(
            ExecutionErrorView::Application { code, message },
        ),
{
}

} // verus!
