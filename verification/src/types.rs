//! The values that cross the process boundary, each with its mathematical
//! model. The models are what the contracts of this crate speak about.

use crate::errors::{ExecutionError, ExecutionErrorView};
use vstd::prelude::*;

verus! {

/// A copy of a byte vector.
pub fn clone_bytes(v: &Vec<u8>) -> (r: Vec<u8>)
    ensures
        r@ == v@,
{
    let r = v.clone();
    assert(r@ =~= v@);
    r
}

/// Model of an [`ArtifactId`].
pub struct ArtifactIdView {
    pub name: Seq<char>,
    pub version: Seq<char>,
}

/// Identifies a deployable unit of service logic by name and version.
#[derive(Debug, PartialEq, Eq)]
pub struct ArtifactId {
    pub name: String,
    pub version: String,
}

impl View for ArtifactId {
    type V = ArtifactIdView;

    open spec fn view(&self) -> ArtifactIdView {
        ArtifactIdView { name: self.name@, version: self.version@ }
    }
}

impl Clone for ArtifactId {
    fn clone(&self) -> (r: Self)
        ensures
            r@ == self@,
    {
        ArtifactId { name: self.name.clone(), version: self.version.clone() }
    }
}

impl ArtifactId {
    /// Whether two identifiers name the same artifact.
    pub fn same(&self, other: &ArtifactId) -> (r: bool)
        ensures
            r == (self@ == other@),
    {
        self.name == other.name && self.version == other.version
    }
}

/// Model of an [`ExecutionContext`].
pub struct ExecutionContextView {
    pub height: u64,
    pub caller: Seq<u8>,
    pub budget: u64,
}

/// What the host tells the worker about the circumstances of a call.
#[derive(Debug, PartialEq, Eq)]
pub struct ExecutionContext {
    /// Height of the block being processed.
    pub height: u64,
    /// Identity of the caller, opaque to this crate.
    pub caller: Vec<u8>,
    /// Resources the call may use, in the host's units.
    pub budget: u64,
}

impl View for ExecutionContext {
    type V = ExecutionContextView;

    open spec fn view(&self) -> ExecutionContextView {
        ExecutionContextView { height: self.height, caller: self.caller@, budget: self.budget }
    }
}

impl Clone for ExecutionContext {
    fn clone(&self) -> (r: Self)
        ensures
            r@ == self@,
    {
        ExecutionContext {
            height: self.height,
            caller: clone_bytes(&self.caller),
            budget: self.budget,
        }
    }
}

/// Model of a [`ServiceInstanceSpec`].
pub struct ServiceInstanceSpecView {
    pub instance_id: u32,
    pub artifact: ArtifactIdView,
    pub args: Seq<u8>,
}

/// A running instance of a deployed artifact.
#[derive(Debug, PartialEq, Eq)]
pub struct ServiceInstanceSpec {
    /// Unique per host.
    pub instance_id: u32,
    pub artifact: ArtifactId,
    /// Instantiation arguments, opaque to this crate.
    pub args: Vec<u8>,
}

impl View for ServiceInstanceSpec {
    type V = ServiceInstanceSpecView;

    open spec fn view(&self) -> ServiceInstanceSpecView {
        ServiceInstanceSpecView {
            instance_id: self.instance_id,
            artifact: self.artifact@,
            args: self.args@,
        }
    }
}

impl Clone for ServiceInstanceSpec {
    fn clone(&self) -> (r: Self)
        ensures
            r@ == self@,
    {
        ServiceInstanceSpec {
            instance_id: self.instance_id,
            artifact: self.artifact.clone(),
            args: clone_bytes(&self.args),
        }
    }
}

/// Model of a [`CallRequest`].
pub struct CallRequestView {
    pub instance_id: u32,
    pub method: Seq<char>,
    pub payload: Seq<u8>,
    pub context: ExecutionContextView,
}

/// One addressed invocation of a service instance.
#[derive(Debug, PartialEq, Eq)]
pub struct CallRequest {
    pub instance_id: u32,
    /// Selects the interface and method.
    pub method: String,
    pub payload: Vec<u8>,
    pub context: ExecutionContext,
}

impl View for CallRequest {
    type V = CallRequestView;

    open spec fn view(&self) -> CallRequestView {
        CallRequestView {
            instance_id: self.instance_id,
            method: self.method@,
            payload: self.payload@,
            context: self.context@,
        }
    }
}

impl Clone for CallRequest {
    fn clone(&self) -> (r: Self)
        ensures
            r@ == self@,
    {
        CallRequest {
            instance_id: self.instance_id,
            method: self.method.clone(),
            payload: clone_bytes(&self.payload),
            context: self.context.clone(),
        }
    }
}

/// Model of a [`StateEffect`].
pub enum StateEffectView {
    Put { key: Seq<u8>, value: Seq<u8> },
    Delete { key: Seq<u8> },
}

/// One change to service state that a call asks the host to apply.
#[derive(Debug, PartialEq, Eq)]
pub enum StateEffect {
    Put { key: Vec<u8>, value: Vec<u8> },
    Delete { key: Vec<u8> },
}

impl View for StateEffect {
    type V = StateEffectView;

    open spec fn view(&self) -> StateEffectView {
        match self {
            StateEffect::Put { key, value } => StateEffectView::Put { key: key@, value: value@ },
            StateEffect::Delete { key } => StateEffectView::Delete { key: key@ },
        }
    }
}

impl Clone for StateEffect {
    fn clone(&self) -> (r: Self)
        ensures
            r@ == self@,
    {
        match self {
            StateEffect::Put { key, value } => StateEffect::Put {
                key: clone_bytes(key),
                value: clone_bytes(value),
            },
            StateEffect::Delete { key } => StateEffect::Delete { key: clone_bytes(key) },
        }
    }
}

/// The models of a list of effects, in order.
pub open spec fn effect_views(v: Seq<StateEffect>) -> Seq<StateEffectView> {
    Seq::new(v.len(), |i: int| v[i]@)
}

/// A copy of a list of effects.
pub fn clone_effects(v: &Vec<StateEffect>) -> (r: Vec<StateEffect>)
    ensures
        effect_views(r@) == effect_views(v@),
{
    let mut r: Vec<StateEffect> = Vec::new();
    let mut i: usize = 0;
    while i < v.len()
        invariant
            i <= v.len(),
            r.len() == i,
            forall|j: int| 0 <= j < i ==> r@[j]@ == v@[j]@,
        decreases v.len() - i,
    {
        r.push(v[i].clone());
        i += 1;
    }
    assert(effect_views(r@) =~= effect_views(v@));
    r
}

/// Who raised a failure inside the worker.
#[derive(Clone, Copy, Debug, PartialEq, Eq, Structural)]
pub enum FailureKind {
    /// The service logic itself.
    Service,
    /// The worker's runtime around the service logic.
    Runtime,
}

/// Model of a [`CallOutcome`].
pub enum CallOutcomeView {
    Success { payload: Seq<u8>, effects: Seq<StateEffectView> },
    Failure { kind: FailureKind, code: u32, message: Seq<char> },
}

/// What the worker answers to a call. It holds nothing but values that are
/// safe to replicate.
#[derive(Debug, PartialEq, Eq)]
pub enum CallOutcome {
    Success { payload: Vec<u8>, effects: Vec<StateEffect> },
    Failure { kind: FailureKind, code: u32, message: String },
}

impl View for CallOutcome {
    type V = CallOutcomeView;

    open spec fn view(&self) -> CallOutcomeView {
        match self {
            CallOutcome::Success { payload, effects } => CallOutcomeView::Success {
                payload: payload@,
                effects: effect_views(effects@),
            },
            CallOutcome::Failure { kind, code, message } => CallOutcomeView::Failure {
                kind: *kind,
                code: *code,
                message: message@,
            },
        }
    }
}

impl Clone for CallOutcome {
    fn clone(&self) -> (r: Self)
        ensures
            r@ == self@,
    {
        match self {
            CallOutcome::Success { payload, effects } => CallOutcome::Success {
                payload: clone_bytes(payload),
                effects: clone_effects(effects),
            },
            CallOutcome::Failure { kind, code, message } => CallOutcome::Failure {
                kind: *kind,
                code: *code,
                message: message.clone(),
            },
        }
    }
}

/// Model of a [`DeploymentStatus`].
pub enum DeploymentStatusView {
    Pending,
    Active,
    Failed(ExecutionErrorView),
}

/// Where the deployment of an artifact stands. `Active` and `Failed` are
/// final for the request that led to them.
#[derive(Debug, PartialEq, Eq)]
pub enum DeploymentStatus {
    /// Requested, not yet confirmed by the worker.
    Pending,
    /// Confirmed by the worker.
    Active,
    /// Rejected by the worker, or the request was lost; holds the cause.
    Failed(ExecutionError),
}

impl View for DeploymentStatus {
    type V = DeploymentStatusView;

    open spec fn view(&self) -> DeploymentStatusView {
        match self {
            DeploymentStatus::Pending => DeploymentStatusView::Pending,
            DeploymentStatus::Active => DeploymentStatusView::Active,
            DeploymentStatus::Failed(e) => DeploymentStatusView::Failed(e@),
        }
    }
}

impl Clone for DeploymentStatus {
    fn clone(&self) -> (r: Self)
        ensures
            r@ == self@,
    {
        match self {
            DeploymentStatus::Pending => DeploymentStatus::Pending,
            DeploymentStatus::Active => DeploymentStatus::Active,
            DeploymentStatus::Failed(e) => DeploymentStatus::Failed(e.clone()),
        }
    }
}

impl DeploymentStatus {
    /// Whether the worker has confirmed the deployment.
    pub fn is_active(&self) -> (r: bool)
        ensures
            r == (self@ is Active),
    {
        match self {
            DeploymentStatus::Active => true,
            _ => false,
        }
    }

    /// Whether no further transition can follow without a new request.
    pub fn is_terminal(&self) -> (r: bool)
        ensures
            r == !(self@ is Pending),
    {
        match self {
            DeploymentStatus::Pending => false,
            _ => true,
        }
    }
}

} // verus!
