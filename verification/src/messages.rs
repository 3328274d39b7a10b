//! The messages exchanged with the worker. Every request kind has one
//! response kind; on the wire each travels with a correlation identifier.

use crate::types::{
    ArtifactId, ArtifactIdView, CallOutcome, CallOutcomeView, CallRequest, CallRequestView,
    ServiceInstanceSpec, ServiceInstanceSpecView, clone_bytes,
};
use vstd::prelude::*;

verus! {

/// Model of a [`Request`].
pub enum RequestView {
    DeployArtifact { artifact: ArtifactIdView, spec: Seq<u8> },
    StartInstance { instance: ServiceInstanceSpecView },
    CommitInstance { instance_id: u32 },
    StopInstance { instance_id: u32 },
    ExecuteCall { call: CallRequestView },
    QueryStateHash,
}

/// What the host asks of the worker.
#[derive(Debug, PartialEq, Eq)]
pub enum Request {
    DeployArtifact { artifact: ArtifactId, spec: Vec<u8> },
    StartInstance { instance: ServiceInstanceSpec },
    CommitInstance { instance_id: u32 },
    StopInstance { instance_id: u32 },
    ExecuteCall { call: CallRequest },
    QueryStateHash,
}

impl View for Request {
    type V = RequestView;

    open spec fn view(&self) -> RequestView {
        match self {
            Request::DeployArtifact { artifact, spec } => RequestView::DeployArtifact {
                artifact: artifact@,
                spec: spec@,
            },
            Request::StartInstance { instance } => RequestView::StartInstance {
                instance: instance@,
            },
            Request::CommitInstance { instance_id } => RequestView::CommitInstance {
                instance_id: *instance_id,
            },
            Request::StopInstance { instance_id } => RequestView::StopInstance {
                instance_id: *instance_id,
            },
            Request::ExecuteCall { call } => RequestView::ExecuteCall { call: call@ },
            Request::QueryStateHash => RequestView::QueryStateHash,
        }
    }
}

impl Clone for Request {
    fn clone(&self) -> (r: Self)
        ensures
            r@ == self@,
    {
        match self {
            Request::DeployArtifact { artifact, spec } => Request::DeployArtifact {
                artifact: artifact.clone(),
                spec: clone_bytes(spec),
            },
            Request::StartInstance { instance } => Request::StartInstance {
                instance: instance.clone(),
            },
            Request::CommitInstance { instance_id } => Request::CommitInstance {
                instance_id: *instance_id,
            },
            Request::StopInstance { instance_id } => Request::StopInstance {
                instance_id: *instance_id,
            },
            Request::ExecuteCall { call } => Request::ExecuteCall { call: call.clone() },
            Request::QueryStateHash => Request::QueryStateHash,
        }
    }
}

/// Model of an [`Ack`].
pub enum AckView {
    Accepted,
    Unknown,
    Rejected { code: u32, message: Seq<char> },
}

/// How the worker answers a deployment or lifecycle request.
#[derive(Debug, PartialEq, Eq)]
pub enum Ack {
    /// Done as asked.
    Accepted,
    /// The worker has no record of the subject of the request.
    Unknown,
    /// Refused, with the worker's code and advisory message.
    Rejected { code: u32, message: String },
}

impl View for Ack {
    type V = AckView;

    open spec fn view(&self) -> AckView {
        match self {
            Ack::Accepted => AckView::Accepted,
            Ack::Unknown => AckView::Unknown,
            Ack::Rejected { code, message } => AckView::Rejected {
                code: *code,
                message: message@,
            },
        }
    }
}

impl Clone for Ack {
    fn clone(&self) -> (r: Self)
        ensures
            r@ == self@,
    {
        match self {
            Ack::Accepted => Ack::Accepted,
            Ack::Unknown => Ack::Unknown,
            Ack::Rejected { code, message } => Ack::Rejected {
                code: *code,
                message: message.clone(),
            },
        }
    }
}

/// Model of a [`Response`].
pub enum ResponseView {
    DeployAck { status: AckView },
    StartAck { status: AckView },
    CommitAck { status: AckView },
    StopAck { status: AckView },
    ExecuteResult { outcome: CallOutcomeView },
    StateHashResult { digest: Seq<u8> },
}

/// What the worker answers.
#[derive(Debug, PartialEq, Eq)]
pub enum Response {
    DeployAck { status: Ack },
    StartAck { status: Ack },
    CommitAck { status: Ack },
    StopAck { status: Ack },
    ExecuteResult { outcome: CallOutcome },
    StateHashResult { digest: Vec<u8> },
}

impl View for Response {
    type V = ResponseView;

    open spec fn view(&self) -> ResponseView {
        match self {
            Response::DeployAck { status } => ResponseView::DeployAck { status: status@ },
            Response::StartAck { status } => ResponseView::StartAck { status: status@ },
            Response::CommitAck { status } => ResponseView::CommitAck { status: status@ },
            Response::StopAck { status } => ResponseView::StopAck { status: status@ },
            Response::ExecuteResult { outcome } => ResponseView::ExecuteResult {
                outcome: outcome@,
            },
            Response::StateHashResult { digest } => ResponseView::StateHashResult {
                digest: digest@,
            },
        }
    }
}

impl Clone for Response {
    fn clone(&self) -> (r: Self)
        ensures
            r@ == self@,
    {
        match self {
            Response::DeployAck { status } => Response::DeployAck { status: status.clone() },
            Response::StartAck { status } => Response::StartAck { status: status.clone() },
            Response::CommitAck { status } => Response::CommitAck { status: status.clone() },
            Response::StopAck { status } => Response::StopAck { status: status.clone() },
            Response::ExecuteResult { outcome } => Response::ExecuteResult {
                outcome: outcome.clone(),
            },
            Response::StateHashResult { digest } => Response::StateHashResult {
                digest: clone_bytes(digest),
            },
        }
    }
}

} // verus!
