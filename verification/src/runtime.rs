//! The runtime adapter: the host's execution-runtime contract on top of the
//! channel, the deployment table and the supervisor.
//!
//! Every host call either ends at once or yields a request to send; the
//! answer comes in with a later event. The adapter never waits, never
//! retries and never makes up a result: a call that fails says how.

use crate::channel::{Channel, Delivery};
use crate::errors::{
    DecodeError, ExecutionError, ExecutionErrorView, translate_channel_error,
    translate_decode_error, translate_worker_failure,
};
use crate::messages::{Ack, Request, Response};
use crate::pending_deployment::{PendingDeployments, status_of, status_view};
use crate::runtime_model::{
    AdapterConfig, AdapterModel, ERR_ARTIFACT_NOT_ACTIVE, EventView, PendingOpView, ProgressView,
    ReactionView, ReplyView, StepView, lemma_close_keeps_wf, lemma_deploy_keeps_wf,
    lemma_event_keeps_wf, lemma_issue_keeps_wf, lemma_restore_keeps_wf, spec_call_timeout,
    spec_interpret,
};
use crate::supervisor::{
    RestartPolicy, Supervisor, SupervisorAction, SupervisorModel, WorkerCommand,
};
use crate::types::{
    ArtifactId, CallOutcome, CallRequest, DeploymentStatus, ServiceInstanceSpec, StateEffect,
    effect_views,
};
use vstd::prelude::*;
use vstd::slice::*;
use vstd::string::*;

verus! {

/// The request that is in flight, as far as its answer depends on it.
#[derive(Debug, PartialEq, Eq)]
pub enum PendingOp {
    Deploy { artifact: ArtifactId },
    Start { instance_id: u32 },
    Commit { instance_id: u32 },
    Stop { instance_id: u32 },
    Execute,
    StateHash,
}

impl View for PendingOp {
    type V = PendingOpView;

    open spec fn view(&self) -> PendingOpView {
        match self {
            PendingOp::Deploy { artifact } => PendingOpView::Deploy { artifact: artifact@ },
            PendingOp::Start { instance_id } => PendingOpView::Start {
                instance_id: *instance_id,
            },
            PendingOp::Commit { instance_id } => PendingOpView::Commit {
                instance_id: *instance_id,
            },
            PendingOp::Stop { instance_id } => PendingOpView::Stop { instance_id: *instance_id },
            PendingOp::Execute => PendingOpView::Execute,
            PendingOp::StateHash => PendingOpView::StateHash,
        }
    }
}

/// What a host call yields when it succeeds.
#[derive(Debug, PartialEq, Eq)]
pub enum Reply {
    /// Where the deployment of the artifact stands.
    Deployment { status: DeploymentStatus },
    /// The service runs under this instance identifier.
    Started { instance_id: u32 },
    /// The commit is through; `applied` is false where the worker had
    /// nothing left to do.
    Committed { applied: bool },
    /// The service is stopped; `applied` is false where the worker had
    /// nothing left to do.
    Stopped { applied: bool },
    /// The call returned.
    Executed { payload: Vec<u8>, effects: Vec<StateEffect> },
    /// The worker's contribution to the state hash.
    StateHash { digest: Vec<u8> },
}

impl View for Reply {
    type V = ReplyView;

    open spec fn view(&self) -> ReplyView {
        match self {
            Reply::Deployment { status } => ReplyView::Deployment { status: status@ },
            Reply::Started { instance_id } => ReplyView::Started { instance_id: *instance_id },
            Reply::Committed { applied } => ReplyView::Committed { applied: *applied },
            Reply::Stopped { applied } => ReplyView::Stopped { applied: *applied },
            Reply::Executed { payload, effects } => ReplyView::Executed {
                payload: payload@,
                effects: effect_views(effects@),
            },
            Reply::StateHash { digest } => ReplyView::StateHash { digest: digest@ },
        }
    }
}

/// The model of a call's result.
pub open spec fn result_view(r: Result<Reply, ExecutionError>) -> Result<
    ReplyView,
    ExecutionErrorView,
> {
    match r {
        Ok(reply) => Ok(reply@),
        Err(e) => Err(e@),
    }
}

/// What a host call leads to at once.
#[derive(Debug, PartialEq, Eq)]
pub enum Step {
    /// Write `frame` to the worker and report what comes back; report a
    /// timeout for `id` if nothing does within `timeout_ms` milliseconds.
    Send { id: u64, frame: Vec<u8>, timeout_ms: u64 },
    /// The call is over.
    Done(Result<Reply, ExecutionError>),
}

impl View for Step {
    type V = StepView;

    open spec fn view(&self) -> StepView {
        match self {
            Step::Send { id, frame, timeout_ms } => StepView::Send {
                id: *id,
                frame: frame@,
                timeout_ms: *timeout_ms,
            },
            Step::Done(r) => StepView::Done { result: result_view(*r) },
        }
    }
}

/// What the embedding program reports.
#[derive(Debug, PartialEq, Eq)]
pub enum WorkerEvent {
    /// The payload of one frame from the worker.
    Frame(Vec<u8>),
    /// No answer came in time for request `id`.
    Timeout { id: u64 },
    /// The worker exited or its streams closed.
    Disconnected,
}

impl View for WorkerEvent {
    type V = EventView;

    open spec fn view(&self) -> EventView {
        match self {
            WorkerEvent::Frame(payload) => EventView::Frame { payload: payload@ },
            WorkerEvent::Timeout { id } => EventView::Timeout { id: *id },
            WorkerEvent::Disconnected => EventView::Disconnected,
        }
    }
}

/// What an event means for the call in flight.
#[derive(Debug, PartialEq, Eq)]
pub enum Progress {
    /// Nothing: the call, if there is one, still waits.
    Ignored,
    /// The call is over.
    Finished(Result<Reply, ExecutionError>),
}

impl View for Progress {
    type V = ProgressView;

    open spec fn view(&self) -> ProgressView {
        match self {
            Progress::Ignored => ProgressView::Ignored,
            Progress::Finished(r) => ProgressView::Finished { result: result_view(*r) },
        }
    }
}

/// What an event leads to: the fate of the call in flight, and what the
/// supervisor asks the embedding program to do.
#[derive(Debug, PartialEq, Eq)]
pub struct Reaction {
    pub progress: Progress,
    pub action: SupervisorAction,
}

impl View for Reaction {
    type V = ReactionView;

    open spec fn view(&self) -> ReactionView {
        ReactionView { progress: self.progress@, action: self.action }
    }
}

/// Computes the wait for the answer to a call with the given budget.
pub fn call_timeout(config: &AdapterConfig, budget: u64) -> (r: u64)
    ensures
        r == spec_call_timeout(*config, budget),
{
    let raw: u64 = if config.budget_per_ms == 0 {
        config.max_call_timeout_ms
    } else {
        budget / config.budget_per_ms
    };
    let capped: u64 = if raw > config.max_call_timeout_ms {
        config.max_call_timeout_ms
    } else {
        raw
    };
    if capped < config.min_call_timeout_ms {
        config.min_call_timeout_ms
    } else {
        capped
    }
}

fn interpret_creation(status: Ack, reply: Reply) -> (r: Result<Reply, ExecutionError>)
    ensures
        result_view(r) == crate::runtime_model::interpret_creation(status@, reply@),
{
    match status {
        Ack::Accepted => Ok(reply),
        Ack::Unknown => Err(ExecutionError::ProtocolViolation),
        Ack::Rejected { code, message } => Err(translate_worker_failure(code, message)),
    }
}

fn interpret_lifecycle(status: Ack) -> (r: Result<bool, ExecutionError>)
    ensures
        match r {
            Ok(applied) => crate::runtime_model::interpret_lifecycle(status@) == Ok::<
                bool,
                ExecutionErrorView,
            >(applied),
            Err(e) => crate::runtime_model::interpret_lifecycle(status@) == Err::<
                bool,
                ExecutionErrorView,
            >(e@),
        },
{
    match status {
        Ack::Accepted => Ok(true),
        Ack::Unknown => Ok(false),
        Ack::Rejected { code, message } => Err(translate_worker_failure(code, message)),
    }
}

/// Says what the worker's response means for the request it answers. A
/// failure that the worker reports becomes an application failure with the
/// worker's code and message; a response of the wrong kind violates the
/// protocol.
pub fn interpret(op: &PendingOp, response: Response) -> (r: Result<Reply, ExecutionError>)
    ensures
        result_view(r) == spec_interpret(op@, response@),
{
    match op {
        PendingOp::Deploy { artifact } => match response {
            Response::DeployAck { status } => interpret_creation(
                status,
                Reply::Deployment { status: DeploymentStatus::Active },
            ),
            _ => Err(ExecutionError::ProtocolViolation),
        },
        PendingOp::Start { instance_id } => match response {
            Response::StartAck { status } => interpret_creation(
                status,
                Reply::Started { instance_id: *instance_id },
            ),
            _ => Err(ExecutionError::ProtocolViolation),
        },
        PendingOp::Commit { instance_id } => match response {
            Response::CommitAck { status } => match interpret_lifecycle(status) {
                Ok(applied) => Ok(Reply::Committed { applied }),
                Err(e) => Err(e),
            },
            _ => Err(ExecutionError::ProtocolViolation),
        },
        PendingOp::Stop { instance_id } => match response {
            Response::StopAck { status } => match interpret_lifecycle(status) {
                Ok(applied) => Ok(Reply::Stopped { applied }),
                Err(e) => Err(e),
            },
            _ => Err(ExecutionError::ProtocolViolation),
        },
        PendingOp::Execute => match response {
            Response::ExecuteResult { outcome } => match outcome {
                CallOutcome::Success { payload, effects } => Ok(
                    Reply::Executed { payload, effects },
                ),
                CallOutcome::Failure { kind, code, message } => Err(
                    translate_worker_failure(code, message),
                ),
            },
            _ => Err(ExecutionError::ProtocolViolation),
        },
        PendingOp::StateHash => match response {
            Response::StateHashResult { digest } => Ok(Reply::StateHash { digest }),
            _ => Err(ExecutionError::ProtocolViolation),
        },
    }
}

/// The host-side runtime for one supervised worker.
#[derive(Debug)]
pub struct RuntimeAdapter {
    config: AdapterConfig,
    channel: Channel,
    deployments: PendingDeployments,
    supervisor: Supervisor,
    pending: Option<PendingOp>,
}

/// The model of what is in flight.
pub open spec fn pending_view(p: Option<PendingOp>) -> Option<PendingOpView> {
    match p {
        Some(op) => Some(op@),
        None => None,
    }
}

impl View for RuntimeAdapter {
    type V = AdapterModel;

    closed spec fn view(&self) -> AdapterModel {
        AdapterModel {
            config: self.config,
            channel: self.channel@,
            deployments: self.deployments@,
            supervisor: self.supervisor@,
            pending: pending_view(self.pending),
        }
    }
}

impl RuntimeAdapter {
    /// What holds of every adapter that this module hands out, and what
    /// every operation keeps.
    pub closed spec fn wf(&self) -> bool {
        self.deployments.wf() && self@.wf()
    }

    /// The state of a well-formed adapter is well formed, so the laws of
    /// the state machine hold of it.
    pub proof fn lemma_model_wf(&self)
        requires
            self.wf(),
        ensures
            self@.wf(),
    {
    }

    /// An adapter for a worker that has not been started.
    pub fn new(config: AdapterConfig, command: WorkerCommand, policy: RestartPolicy) -> (r: Self)
        ensures
            r.wf(),
            r@ == AdapterModel::initial(config, SupervisorModel::initial(command@, policy)),
    {
        RuntimeAdapter {
            config,
            channel: Channel::new(),
            deployments: PendingDeployments::new(),
            supervisor: Supervisor::new(command, policy),
            pending: None,
        }
    }

    /// The waits the adapter was set up with.
    pub fn config(&self) -> (r: AdapterConfig)
        ensures
            r == self@.config,
    {
        self.config
    }

    /// The supervisor of the worker, for its state and its command.
    pub fn supervisor(&self) -> (r: &Supervisor)
        ensures
            r@ == self@.supervisor,
    {
        &self.supervisor
    }

    /// Whether a request awaits its answer.
    pub fn is_call_in_flight(&self) -> (r: bool)
        ensures
            r == self@.pending is Some,
    {
        self.pending.is_some()
    }

    /// Whether the artifact is deployed and confirmed by the worker.
    pub fn is_artifact_deployed(&self, artifact: &ArtifactId) -> (r: bool)
        requires
            self.wf(),
        ensures
            r == self@.is_artifact_deployed(artifact@),
    {
        self.deployments.is_active(artifact)
    }

    /// Where the deployment of the artifact stands; `None` if it was never
    /// asked for.
    pub fn deployment_status(&self, artifact: &ArtifactId) -> (r: Option<DeploymentStatus>)
        requires
            self.wf(),
        ensures
            status_view(r) == status_of(self@.deployments, artifact@),
    {
        self.deployments.status(artifact)
    }

    fn refusal(&self) -> (r: Option<ExecutionError>)
        ensures
            match r {
                Some(e) => self@.refusal() == Some(e@),
                None => self@.refusal() is None,
            },
    {
        if self.supervisor.is_fatal() {
            Some(ExecutionError::SupervisorFatal)
        } else if !self.supervisor.is_alive() {
            Some(ExecutionError::Unavailable)
        } else {
            None
        }
    }

    fn issue(&mut self, request: &Request, op: PendingOp, timeout_ms: u64) -> (r: Step)
        ensures
            (final(self)@, r@) == old(self)@.issue(request@, op@, timeout_ms),
            final(self).deployments == old(self).deployments,
    {
        match self.channel.send(request) {
            Ok(out) => {
                self.pending = Some(op);
                Step::Send { id: out.id, frame: out.frame, timeout_ms }
            },
            Err(e) => Step::Done(Err(translate_channel_error(e))),
        }
    }

    fn call(&mut self, request: &Request, op: PendingOp, timeout_ms: u64) -> (r: Step)
        requires
            old(self).wf(),
            !(op@ is Deploy),
        ensures
            final(self).wf(),
            (final(self)@, r@) == old(self)@.call(request@, op@, timeout_ms),
    {
        match self.refusal() {
            Some(e) => Step::Done(Err(e)),
            None => {
                proof {
                    lemma_issue_keeps_wf(self@, request@, op@, timeout_ms);
                }
                self.issue(request, op, timeout_ms)
            },
        }
    }

    /// Asks for the deployment of an artifact. One that is pending or
    /// deployed is answered from the table and nothing is sent; for any
    /// other the request to send is returned, and the artifact is pending
    /// until the answer is reported.
    pub fn deploy_artifact(&mut self, artifact: &ArtifactId, spec: &[u8]) -> (r: Step)
        requires
            old(self).wf(),
        ensures
            final(self).wf(),
            (final(self)@, r@) == old(self)@.deploy_artifact(artifact@, spec@),
    {
        proof {
            lemma_deploy_keeps_wf(self@, artifact@, spec@);
        }
        match self.refusal() {
            Some(e) => { return Step::Done(Err(e)); },
            None => {},
        }
        if !self.deployments.needs_request(artifact) {
            let status = self.deployments.begin(artifact, spec);
            return Step::Done(Ok(Reply::Deployment { status }));
        }
        let request = Request::DeployArtifact {
            artifact: artifact.clone(),
            spec: slice_to_vec(spec),
        };
        let op = PendingOp::Deploy { artifact: artifact.clone() };
        let step = self.issue(&request, op, self.config.control_timeout_ms);
        let sent: bool = match &step {
            Step::Send { .. } => true,
            Step::Done(_) => false,
        };
        if sent {
            let _ = self.deployments.begin(artifact, spec);
        }
        step
    }

    /// Starts a service. Refused with an application failure where its
    /// artifact is not deployed; on success the reply holds the instance
    /// identifier.
    pub fn start_service(&mut self, instance: &ServiceInstanceSpec) -> (r: Step)
        requires
            old(self).wf(),
        ensures
            final(self).wf(),
            (final(self)@, r@) == old(self)@.start_service(instance@),
    {
        match self.refusal() {
            Some(e) => { return Step::Done(Err(e)); },
            None => {},
        }
        if !self.deployments.is_active(&instance.artifact) {
            return Step::Done(
                Err(
                    ExecutionError::Application {
                        code: ERR_ARTIFACT_NOT_ACTIVE,
                        message: String::from_str("artifact is not active"),
                    },
                ),
            );
        }
        let request = Request::StartInstance { instance: instance.clone() };
        let op = PendingOp::Start { instance_id: instance.instance_id };
        proof {
            lemma_issue_keeps_wf(self@, request@, op@, self.config.control_timeout_ms);
        }
        self.issue(&request, op, self.config.control_timeout_ms)
    }

    /// Tells the worker that a service is committed. A worker that has no
    /// record of the instance counts as success.
    pub fn commit_service(&mut self, instance_id: u32) -> (r: Step)
        requires
            old(self).wf(),
        ensures
            final(self).wf(),
            (final(self)@, r@) == old(self)@.commit_service(instance_id),
    {
        let request = Request::CommitInstance { instance_id };
        self.call(&request, PendingOp::Commit { instance_id }, self.config.control_timeout_ms)
    }

    /// Tells the worker that a service is stopped. A worker that has no
    /// record of the instance counts as success.
    pub fn stop_service(&mut self, instance_id: u32) -> (r: Step)
        requires
            old(self).wf(),
        ensures
            final(self).wf(),
            (final(self)@, r@) == old(self)@.stop_service(instance_id),
    {
        let request = Request::StopInstance { instance_id };
        self.call(&request, PendingOp::Stop { instance_id }, self.config.control_timeout_ms)
    }

    /// Issues a call. The wait for its answer follows from the call's
    /// resource budget.
    pub fn execute(&mut self, call: &CallRequest) -> (r: Step)
        requires
            old(self).wf(),
        ensures
            final(self).wf(),
            (final(self)@, r@) == old(self)@.execute(call@),
    {
        let timeout_ms = call_timeout(&self.config, call.context.budget);
        let request = Request::ExecuteCall { call: call.clone() };
        self.call(&request, PendingOp::Execute, timeout_ms)
    }

    /// Asks the worker for its contribution to the state hash. Where the
    /// worker cannot be asked the call fails; no digest is made up.
    pub fn state_hash_contribution(&mut self) -> (r: Step)
        requires
            old(self).wf(),
        ensures
            final(self).wf(),
            (final(self)@, r@) == old(self)@.state_hash_contribution(),
    {
        let request = Request::QueryStateHash;
        self.call(&request, PendingOp::StateHash, self.config.control_timeout_ms)
    }

    fn finish(&mut self, result: &Result<Reply, ExecutionError>)
        requires
            old(self).deployments.wf(),
        ensures
            final(self).deployments.wf(),
            final(self)@ == old(self)@.finish(result_view(*result)),
    {
        let op = self.pending.take();
        match op {
            Some(PendingOp::Deploy { artifact }) => {
                let outcome: Result<(), ExecutionError> = match result {
                    Ok(_) => Ok(()),
                    Err(e) => Err(e.clone()),
                };
                let _ = self.deployments.complete(&artifact, outcome);
            },
            _ => {},
        }
    }

    /// Takes in what the embedding program reports and says what follows:
    /// whether the call in flight is over and how, and what to do about the
    /// worker.
    pub fn on_event(&mut self, event: WorkerEvent) -> (r: Reaction)
        requires
            old(self).wf(),
        ensures
            final(self).wf(),
            (final(self)@, r@) == old(self)@.on_event(event@),
    {
        proof {
            lemma_event_keeps_wf(self@, event@);
        }
        let (delivery, action) = match event {
            WorkerEvent::Frame(payload) => (
                self.channel.on_frame(payload.as_slice()),
                SupervisorAction::Nothing,
            ),
            WorkerEvent::Timeout { id } => (self.channel.on_timeout(id), SupervisorAction::Nothing),
            WorkerEvent::Disconnected => {
                let delivery = self.channel.on_disconnect();
                (delivery, self.supervisor.on_exit())
            },
        };
        let result: Result<Reply, ExecutionError> = match delivery {
            Delivery::Discarded => {
                return Reaction { progress: Progress::Ignored, action };
            },
            Delivery::Delivered { id, response } => match &self.pending {
                Some(op) => interpret(op, response),
                None => Err(ExecutionError::ProtocolViolation),
            },
            Delivery::Malformed { id } => Err(translate_decode_error(DecodeError::Malformed)),
            Delivery::Failed { id, error } => Err(translate_channel_error(error)),
        };
        self.finish(&result);
        Reaction { progress: Progress::Finished(result), action }
    }

    /// Records an artifact that the worker reports as deployed, as when the
    /// table is rebuilt from the worker's records. Where the request to
    /// deploy that artifact is in flight, its answer decides and nothing
    /// changes.
    pub fn restore_artifact(&mut self, artifact: &ArtifactId, spec: &[u8])
        requires
            old(self).wf(),
        ensures
            final(self).wf(),
            final(self)@ == old(self)@.restore_artifact(artifact@, spec@),
    {
        proof {
            lemma_restore_keeps_wf(self@, artifact@, spec@);
        }
        let pending: bool = match self.deployments.status(artifact) {
            Some(DeploymentStatus::Pending) => true,
            _ => false,
        };
        if !pending {
            self.deployments.restore(artifact, spec);
        }
    }

    /// The host asks for the worker to be started.
    pub fn start(&mut self) -> (r: SupervisorAction)
        requires
            old(self).wf(),
        ensures
            final(self).wf(),
            (final(self)@, r) == old(self)@.start(),
    {
        self.supervisor.start()
    }

    /// Reports that the worker was spawned. Where that makes it run, a new
    /// channel begins and calls are accepted again.
    pub fn on_worker_started(&mut self)
        requires
            old(self).wf(),
        ensures
            final(self).wf(),
            final(self)@ == old(self)@.on_worker_started(),
    {
        let was_alive = self.supervisor.is_alive();
        self.supervisor.on_spawned();
        if !was_alive && self.supervisor.is_alive() {
            self.channel = Channel::new();
        }
    }

    /// Reports that the worker could not be spawned.
    pub fn on_spawn_failed(&mut self) -> (r: SupervisorAction)
        requires
            old(self).wf(),
        ensures
            final(self).wf(),
            (final(self)@, r) == old(self)@.on_spawn_failed(),
    {
        self.supervisor.on_spawn_failed()
    }

    fn close(&mut self) -> (r: Progress)
        requires
            old(self).wf(),
        ensures
            final(self).wf(),
            (final(self)@, r@) == old(self)@.close(),
    {
        proof {
            lemma_close_keeps_wf(self@, self@.supervisor);
        }
        match self.channel.on_disconnect() {
            Delivery::Failed { id, error } => {
                let result: Result<Reply, ExecutionError> = Err(translate_channel_error(error));
                self.finish(&result);
                Progress::Finished(result)
            },
            _ => Progress::Ignored,
        }
    }

    /// The host ends the worker. A call in flight ends with `Unavailable`.
    pub fn terminate(&mut self) -> (r: Reaction)
        requires
            old(self).wf(),
        ensures
            final(self).wf(),
            (final(self)@, r@) == old(self)@.terminate(),
    {
        proof {
            lemma_close_keeps_wf(self@, self@.supervisor.terminate().0);
        }
        let progress = self.close();
        let action = self.supervisor.terminate();
        Reaction { progress, action }
    }

    /// The host asks for the worker to be replaced. A call in flight ends
    /// with `Unavailable`, and calls are refused until the new worker runs.
    pub fn restart(&mut self) -> (r: Reaction)
        requires
            old(self).wf(),
        ensures
            final(self).wf(),
            (final(self)@, r@) == old(self)@.restart(),
    {
        if !self.supervisor.is_alive() {
            return Reaction { progress: Progress::Ignored, action: SupervisorAction::Nothing };
        }
        proof {
            lemma_close_keeps_wf(self@, self@.supervisor.restart().0);
        }
        let progress = self.close();
        let action = self.supervisor.restart();
        Reaction { progress, action }
    }
}

} // verus!
