//! Messages as they travel: a correlation identifier, a tag that names the
//! kind of message, and the body.
//!
//! Decoding a whole message accepts exactly the byte strings that encoding
//! produces: no byte may be left over, and no message has two encodings.

use crate::codec::{
    bytes_fit, lemma_read_inverts_write_bytes, lemma_read_inverts_write_text,
    lemma_read_inverts_write_u32, lemma_read_inverts_write_u64, lemma_read_inverts_write_u8,
    lemma_read_write_bytes, lemma_read_write_text, lemma_read_write_u32,
    lemma_read_write_u64, lemma_read_write_u8, put_bytes, put_text, put_u32, put_u64, put_u8,
    read_bytes, read_text, read_u32, read_u64, read_u8, take_bytes, take_text, take_u32,
    take_u64, take_u8, text_fits, write_bytes, write_text, write_u32, write_u64, write_u8,
};
use crate::errors::DecodeError;
use crate::messages::{Ack, AckView, Request, RequestView, Response, ResponseView};
use crate::wire::{
    artifact_fits, call_fits, instance_fits, lemma_read_inverts_write_artifact,
    lemma_read_inverts_write_call, lemma_read_inverts_write_instance,
    lemma_read_inverts_write_outcome, lemma_read_write_artifact, lemma_read_write_call,
    lemma_read_write_instance, lemma_read_write_outcome, outcome_fits, put_artifact, put_call,
    put_instance, put_outcome, read_artifact, read_call, read_instance, read_outcome,
    take_artifact, take_call, take_instance, take_outcome, write_artifact, write_call,
    write_instance, write_outcome,
};
use vstd::prelude::*;
use vstd::slice::*;

verus! {

/// Tags of the message kinds. A response carries the tag of the request it
/// answers.
pub const TAG_DEPLOY: u8 = 1;
pub const TAG_START: u8 = 2;
pub const TAG_COMMIT: u8 = 3;
pub const TAG_STOP: u8 = 4;
pub const TAG_EXECUTE: u8 = 5;
pub const TAG_STATE_HASH: u8 = 6;

/// Tags of the acknowledgement statuses.
pub const TAG_ACCEPTED: u8 = 0;
pub const TAG_UNKNOWN: u8 = 1;
pub const TAG_REJECTED: u8 = 2;

// ---------------------------------------------------------------------------
// Acknowledgements

/// Whether the acknowledgement is short enough for its length prefixes.
pub open spec fn ack_fits(a: AckView) -> bool {
    match a {
        AckView::Rejected { code, message } => text_fits(message),
        _ => true,
    }
}

/// A status tag, and for a rejection the code and the message.
pub open spec fn write_ack(a: AckView) -> Seq<u8> {
    match a {
        AckView::Accepted => write_u8(TAG_ACCEPTED),
        AckView::Unknown => write_u8(TAG_UNKNOWN),
        AckView::Rejected { code, message } => write_u8(TAG_REJECTED) + write_u32(code)
            + write_text(message),
    }
}

/// Reads an acknowledgement; fails on an unknown tag or a field that cannot be read.
#[verifier::opaque]
pub open spec fn read_ack(s: Seq<u8>) -> Option<(AckView, Seq<u8>)> {
    match read_u8(s) {
        Some((tag, s1)) => if tag == TAG_ACCEPTED {
            Some((AckView::Accepted, s1))
        } else if tag == TAG_UNKNOWN {
            Some((AckView::Unknown, s1))
        } else if tag == TAG_REJECTED {
            match read_u32(s1) {
                Some((code, s2)) => match read_text(s2) {
                    Some((message, s3)) => Some((AckView::Rejected { code, message }, s3)),
                    None => None,
                },
                None => None,
            }
        } else {
            None
        },
        None => None,
    }
}

/// Reading a written acknowledgement gives it back and leaves what followed.
pub proof fn lemma_read_write_ack(a: AckView, rest: Seq<u8>)
    requires
        ack_fits(a),
    ensures
        read_ack(write_ack(a) + rest) == Some((a, rest)),
{
    reveal(read_ack);
    match a {
        AckView::Accepted => {
            lemma_read_write_u8(TAG_ACCEPTED, rest);
        },
        AckView::Unknown => {
            lemma_read_write_u8(TAG_UNKNOWN, rest);
        },
        AckView::Rejected { code, message } => {
            let t2 = write_text(message) + rest;
            let t1 = write_u32(code) + t2;
            assert(write_ack(a) + rest =~= write_u8(TAG_REJECTED) + t1);
            lemma_read_write_u8(TAG_REJECTED, t1);
            lemma_read_write_u32(code, t2);
            lemma_read_write_text(message, rest);
        },
    }
}

/// What reads as an acknowledgement is its encoding followed by the rest.
pub proof fn lemma_read_inverts_write_ack(s: Seq<u8>)
    ensures
        read_ack(s) matches Some((a, rest)) ==> ack_fits(a) && write_ack(a) + rest == s,
{
    reveal(read_ack);
    lemma_read_inverts_write_u8(s);
    match read_u8(s) {
        Some((tag, s1)) => {
            if tag == TAG_REJECTED {
                lemma_read_inverts_write_u32(s1);
                match read_u32(s1) {
                    Some((code, s2)) => {
                        lemma_read_inverts_write_text(s2);
                        match read_text(s2) {
                            Some((message, s3)) => {
                                assert(write_u8(tag) + write_u32(code) + write_text(message) + s3
                                    =~= write_u8(tag) + (write_u32(code) + (write_text(message)
                                    + s3)));
                            },
                            None => {},
                        }
                    },
                    None => {},
                }
            }
        },
        None => {},
    }
}

/// Appends an acknowledgement.
pub fn put_ack(out: &mut Vec<u8>, a: &Ack)
    ensures
        final(out)@ == old(out)@ + write_ack(a@),
        ack_fits(a@),
{
    match a {
        Ack::Accepted => {
            put_u8(out, TAG_ACCEPTED);
        },
        Ack::Unknown => {
            put_u8(out, TAG_UNKNOWN);
        },
        Ack::Rejected { code, message } => {
            put_u8(out, TAG_REJECTED);
            put_u32(out, *code);
            put_text(out, message.as_str());
        },
    }
    assert(out@ =~= old(out)@ + write_ack(a@));
}

/// Reads an acknowledgement off the front of the input.
pub fn take_ack<'a>(input: &'a [u8]) -> (r: Option<(Ack, &'a [u8])>)
    ensures
        match r {
            Some((a, rest)) => read_ack(input@) == Some((a@, rest@)),
            None => read_ack(input@) is None,
        },
{
    proof {
        reveal(read_ack);
    }
    let (tag, s1) = match take_u8(input) {
        Some(p) => p,
        None => { return None; },
    };
    if tag == TAG_ACCEPTED {
        Some((Ack::Accepted, s1))
    } else if tag == TAG_UNKNOWN {
        Some((Ack::Unknown, s1))
    } else if tag == TAG_REJECTED {
        let (code, s2) = match take_u32(s1) {
            Some(p) => p,
            None => { return None; },
        };
        let (message, s3) = match take_text(s2) {
            Some(p) => p,
            None => { return None; },
        };
        Some((Ack::Rejected { code, message }, s3))
    } else {
        None
    }
}

// ---------------------------------------------------------------------------
// Request bodies

/// Whether the request is short enough for its length prefixes.
pub open spec fn request_fits(r: RequestView) -> bool {
    match r {
        RequestView::DeployArtifact { artifact, spec } => artifact_fits(artifact) && bytes_fit(
            spec,
        ),
        RequestView::StartInstance { instance } => instance_fits(instance),
        RequestView::ExecuteCall { call } => call_fits(call),
        _ => true,
    }
}

/// The tag of the kind, then the fields in order.
pub open spec fn write_request(r: RequestView) -> Seq<u8> {
    match r {
        RequestView::DeployArtifact { artifact, spec } => write_u8(TAG_DEPLOY) + write_artifact(
            artifact,
        ) + write_bytes(spec),
        RequestView::StartInstance { instance } => write_u8(TAG_START) + write_instance(instance),
        RequestView::CommitInstance { instance_id } => write_u8(TAG_COMMIT) + write_u32(
            instance_id,
        ),
        RequestView::StopInstance { instance_id } => write_u8(TAG_STOP) + write_u32(instance_id),
        RequestView::ExecuteCall { call } => write_u8(TAG_EXECUTE) + write_call(call),
        RequestView::QueryStateHash => write_u8(TAG_STATE_HASH),
    }
}

/// Reads the body of a request; fails on an unknown tag or a field that cannot be read.
#[verifier::opaque]
pub open spec fn read_request(s: Seq<u8>) -> Option<(RequestView, Seq<u8>)> {
    match read_u8(s) {
        Some((tag, s1)) => if tag == TAG_DEPLOY {
            match read_artifact(s1) {
                Some((artifact, s2)) => match read_bytes(s2) {
                    Some((spec, s3)) => Some((RequestView::DeployArtifact { artifact, spec }, s3)),
                    None => None,
                },
                None => None,
            }
        } else if tag == TAG_START {
            match read_instance(s1) {
                Some((instance, s2)) => Some((RequestView::StartInstance { instance }, s2)),
                None => None,
            }
        } else if tag == TAG_COMMIT {
            match read_u32(s1) {
                Some((instance_id, s2)) => Some(
                    (RequestView::CommitInstance { instance_id }, s2),
                ),
                None => None,
            }
        } else if tag == TAG_STOP {
            match read_u32(s1) {
                Some((instance_id, s2)) => Some((RequestView::StopInstance { instance_id }, s2)),
                None => None,
            }
        } else if tag == TAG_EXECUTE {
            match read_call(s1) {
                Some((call, s2)) => Some((RequestView::ExecuteCall { call }, s2)),
                None => None,
            }
        } else if tag == TAG_STATE_HASH {
            Some((RequestView::QueryStateHash, s1))
        } else {
            None
        },
        None => None,
    }
}

/// Reading a written request gives it back and leaves what followed.
pub proof fn lemma_read_write_request(r: RequestView, rest: Seq<u8>)
    requires
        request_fits(r),
    ensures
        read_request(write_request(r) + rest) == Some((r, rest)),
{
    reveal(read_request);
    match r {
        RequestView::DeployArtifact { artifact, spec } => {
            let t2 = write_bytes(spec) + rest;
            let t1 = write_artifact(artifact) + t2;
            assert(write_request(r) + rest =~= write_u8(TAG_DEPLOY) + t1);
            lemma_read_write_u8(TAG_DEPLOY, t1);
            lemma_read_write_artifact(artifact, t2);
            lemma_read_write_bytes(spec, rest);
        },
        RequestView::StartInstance { instance } => {
            let t1 = write_instance(instance) + rest;
            assert(write_request(r) + rest =~= write_u8(TAG_START) + t1);
            lemma_read_write_u8(TAG_START, t1);
            lemma_read_write_instance(instance, rest);
        },
        RequestView::CommitInstance { instance_id } => {
            let t1 = write_u32(instance_id) + rest;
            assert(write_request(r) + rest =~= write_u8(TAG_COMMIT) + t1);
            lemma_read_write_u8(TAG_COMMIT, t1);
            lemma_read_write_u32(instance_id, rest);
        },
        RequestView::StopInstance { instance_id } => {
            let t1 = write_u32(instance_id) + rest;
            assert(write_request(r) + rest =~= write_u8(TAG_STOP) + t1);
            lemma_read_write_u8(TAG_STOP, t1);
            lemma_read_write_u32(instance_id, rest);
        },
        RequestView::ExecuteCall { call } => {
            let t1 = write_call(call) + rest;
            assert(write_request(r) + rest =~= write_u8(TAG_EXECUTE) + t1);
            lemma_read_write_u8(TAG_EXECUTE, t1);
            lemma_read_write_call(call, rest);
        },
        RequestView::QueryStateHash => {
            lemma_read_write_u8(TAG_STATE_HASH, rest);
        },
    }
}

/// What reads as the body of a request is its encoding followed by the
/// rest.
pub proof fn lemma_read_inverts_write_request(s: Seq<u8>)
    ensures
        read_request(s) matches Some((r, rest)) ==> request_fits(r) && write_request(r) + rest
            == s,
{
    reveal(read_request);
    lemma_read_inverts_write_u8(s);
    match read_u8(s) {
        Some((tag, s1)) => {
            if tag == TAG_DEPLOY {
                lemma_read_inverts_write_artifact(s1);
                match read_artifact(s1) {
                    Some((artifact, s2)) => {
                        lemma_read_inverts_write_bytes(s2);
                        match read_bytes(s2) {
                            Some((spec, s3)) => {
                                assert(write_u8(tag) + write_artifact(artifact) + write_bytes(
                                    spec,
                                ) + s3 =~= write_u8(tag) + (write_artifact(artifact) + (
                                write_bytes(spec) + s3)));
                            },
                            None => {},
                        }
                    },
                    None => {},
                }
            } else if tag == TAG_START {
                lemma_read_inverts_write_instance(s1);
                match read_instance(s1) {
                    Some((instance, s2)) => {
                        assert(write_u8(tag) + write_instance(instance) + s2 =~= write_u8(tag) + (
                        write_instance(instance) + s2));
                    },
                    None => {},
                }
            } else if tag == TAG_COMMIT || tag == TAG_STOP {
                lemma_read_inverts_write_u32(s1);
                match read_u32(s1) {
                    Some((instance_id, s2)) => {
                        assert(write_u8(tag) + write_u32(instance_id) + s2 =~= write_u8(tag) + (
                        write_u32(instance_id) + s2));
                    },
                    None => {},
                }
            } else if tag == TAG_EXECUTE {
                lemma_read_inverts_write_call(s1);
                match read_call(s1) {
                    Some((call, s2)) => {
                        assert(write_u8(tag) + write_call(call) + s2 =~= write_u8(tag) + (
                        write_call(call) + s2));
                    },
                    None => {},
                }
            }
        },
        None => {},
    }
}

/// Appends the body of a request.
pub fn put_request(out: &mut Vec<u8>, r: &Request)
    ensures
        final(out)@ == old(out)@ + write_request(r@),
        request_fits(r@),
{
    match r {
        Request::DeployArtifact { artifact, spec } => {
            put_u8(out, TAG_DEPLOY);
            put_artifact(out, artifact);
            put_bytes(out, spec.as_slice());
        },
        Request::StartInstance { instance } => {
            put_u8(out, TAG_START);
            put_instance(out, instance);
        },
        Request::CommitInstance { instance_id } => {
            put_u8(out, TAG_COMMIT);
            put_u32(out, *instance_id);
        },
        Request::StopInstance { instance_id } => {
            put_u8(out, TAG_STOP);
            put_u32(out, *instance_id);
        },
        Request::ExecuteCall { call } => {
            put_u8(out, TAG_EXECUTE);
            put_call(out, call);
        },
        Request::QueryStateHash => {
            put_u8(out, TAG_STATE_HASH);
        },
    }
    assert(out@ =~= old(out)@ + write_request(r@));
}

/// Reads the body of a request off the front of the input.
pub fn take_request<'a>(input: &'a [u8]) -> (r: Option<(Request, &'a [u8])>)
    ensures
        match r {
            Some((q, rest)) => read_request(input@) == Some((q@, rest@)),
            None => read_request(input@) is None,
        },
{
    proof {
        reveal(read_request);
    }
    let (tag, s1) = match take_u8(input) {
        Some(p) => p,
        None => { return None; },
    };
    if tag == TAG_DEPLOY {
        let (artifact, s2) = match take_artifact(s1) {
            Some(p) => p,
            None => { return None; },
        };
        let (spec, s3) = match take_bytes(s2) {
            Some(p) => p,
            None => { return None; },
        };
        Some((Request::DeployArtifact { artifact, spec: slice_to_vec(spec) }, s3))
    } else if tag == TAG_START {
        let (instance, s2) = match take_instance(s1) {
            Some(p) => p,
            None => { return None; },
        };
        Some((Request::StartInstance { instance }, s2))
    } else if tag == TAG_COMMIT {
        let (instance_id, s2) = match take_u32(s1) {
            Some(p) => p,
            None => { return None; },
        };
        Some((Request::CommitInstance { instance_id }, s2))
    } else if tag == TAG_STOP {
        let (instance_id, s2) = match take_u32(s1) {
            Some(p) => p,
            None => { return None; },
        };
        Some((Request::StopInstance { instance_id }, s2))
    } else if tag == TAG_EXECUTE {
        let (call, s2) = match take_call(s1) {
            Some(p) => p,
            None => { return None; },
        };
        Some((Request::ExecuteCall { call }, s2))
    } else if tag == TAG_STATE_HASH {
        Some((Request::QueryStateHash, s1))
    } else {
        None
    }
}

// ---------------------------------------------------------------------------
// Response bodies

/// Whether the response is short enough for its length prefixes.
pub open spec fn response_fits(r: ResponseView) -> bool {
    match r {
        ResponseView::DeployAck { status } => ack_fits(status),
        ResponseView::StartAck { status } => ack_fits(status),
        ResponseView::CommitAck { status } => ack_fits(status),
        ResponseView::StopAck { status } => ack_fits(status),
        ResponseView::ExecuteResult { outcome } => outcome_fits(outcome),
        ResponseView::StateHashResult { digest } => bytes_fit(digest),
    }
}

/// The tag of the kind, then the fields in order.
pub open spec fn write_response(r: ResponseView) -> Seq<u8> {
    match r {
        ResponseView::DeployAck { status } => write_u8(TAG_DEPLOY) + write_ack(status),
        ResponseView::StartAck { status } => write_u8(TAG_START) + write_ack(status),
        ResponseView::CommitAck { status } => write_u8(TAG_COMMIT) + write_ack(status),
        ResponseView::StopAck { status } => write_u8(TAG_STOP) + write_ack(status),
        ResponseView::ExecuteResult { outcome } => write_u8(TAG_EXECUTE) + write_outcome(outcome),
        ResponseView::StateHashResult { digest } => write_u8(TAG_STATE_HASH) + write_bytes(
            digest,
        ),
    }
}

/// Reads the body of a response; fails on an unknown tag or a field that cannot be read.
#[verifier::opaque]
pub open spec fn read_response(s: Seq<u8>) -> Option<(ResponseView, Seq<u8>)> {
    match read_u8(s) {
        Some((tag, s1)) => if tag == TAG_DEPLOY {
            match read_ack(s1) {
                Some((status, s2)) => Some((ResponseView::DeployAck { status }, s2)),
                None => None,
            }
        } else if tag == TAG_START {
            match read_ack(s1) {
                Some((status, s2)) => Some((ResponseView::StartAck { status }, s2)),
                None => None,
            }
        } else if tag == TAG_COMMIT {
            match read_ack(s1) {
                Some((status, s2)) => Some((ResponseView::CommitAck { status }, s2)),
                None => None,
            }
        } else if tag == TAG_STOP {
            match read_ack(s1) {
                Some((status, s2)) => Some((ResponseView::StopAck { status }, s2)),
                None => None,
            }
        } else if tag == TAG_EXECUTE {
            match read_outcome(s1) {
                Some((outcome, s2)) => Some((ResponseView::ExecuteResult { outcome }, s2)),
                None => None,
            }
        } else if tag == TAG_STATE_HASH {
            match read_bytes(s1) {
                Some((digest, s2)) => Some((ResponseView::StateHashResult { digest }, s2)),
                None => None,
            }
        } else {
            None
        },
        None => None,
    }
}

/// Reading a written response gives it back and leaves what followed.
pub proof fn lemma_read_write_response(r: ResponseView, rest: Seq<u8>)
    requires
        response_fits(r),
    ensures
        read_response(write_response(r) + rest) == Some((r, rest)),
{
    reveal(read_response);
    match r {
        ResponseView::DeployAck { status } => {
            let t1 = write_ack(status) + rest;
            assert(write_response(r) + rest =~= write_u8(TAG_DEPLOY) + t1);
            lemma_read_write_u8(TAG_DEPLOY, t1);
            lemma_read_write_ack(status, rest);
        },
        ResponseView::StartAck { status } => {
            let t1 = write_ack(status) + rest;
            assert(write_response(r) + rest =~= write_u8(TAG_START) + t1);
            lemma_read_write_u8(TAG_START, t1);
            lemma_read_write_ack(status, rest);
        },
        ResponseView::CommitAck { status } => {
            let t1 = write_ack(status) + rest;
            assert(write_response(r) + rest =~= write_u8(TAG_COMMIT) + t1);
            lemma_read_write_u8(TAG_COMMIT, t1);
            lemma_read_write_ack(status, rest);
        },
        ResponseView::StopAck { status } => {
            let t1 = write_ack(status) + rest;
            assert(write_response(r) + rest =~= write_u8(TAG_STOP) + t1);
            lemma_read_write_u8(TAG_STOP, t1);
            lemma_read_write_ack(status, rest);
        },
        ResponseView::ExecuteResult { outcome } => {
            let t1 = write_outcome(outcome) + rest;
            assert(write_response(r) + rest =~= write_u8(TAG_EXECUTE) + t1);
            lemma_read_write_u8(TAG_EXECUTE, t1);
            lemma_read_write_outcome(outcome, rest);
        },
        ResponseView::StateHashResult { digest } => {
            let t1 = write_bytes(digest) + rest;
            assert(write_response(r) + rest =~= write_u8(TAG_STATE_HASH) + t1);
            lemma_read_write_u8(TAG_STATE_HASH, t1);
            lemma_read_write_bytes(digest, rest);
        },
    }
}

/// What reads as the body of a response is its encoding followed by the
/// rest.
pub proof fn lemma_read_inverts_write_response(s: Seq<u8>)
    ensures
        read_response(s) matches Some((r, rest)) ==> response_fits(r) && write_response(r) + rest
            == s,
{
    reveal(read_response);
    lemma_read_inverts_write_u8(s);
    match read_u8(s) {
        Some((tag, s1)) => {
            if tag == TAG_DEPLOY || tag == TAG_START || tag == TAG_COMMIT || tag == TAG_STOP {
                lemma_read_inverts_write_ack(s1);
                match read_ack(s1) {
                    Some((status, s2)) => {
                        assert(write_u8(tag) + write_ack(status) + s2 =~= write_u8(tag) + (
                        write_ack(status) + s2));
                    },
                    None => {},
                }
            } else if tag == TAG_EXECUTE {
                lemma_read_inverts_write_outcome(s1);
                match read_outcome(s1) {
                    Some((outcome, s2)) => {
                        assert(write_u8(tag) + write_outcome(outcome) + s2 =~= write_u8(tag) + (
                        write_outcome(outcome) + s2));
                    },
                    None => {},
                }
            } else if tag == TAG_STATE_HASH {
                lemma_read_inverts_write_bytes(s1);
                match read_bytes(s1) {
                    Some((digest, s2)) => {
                        assert(write_u8(tag) + write_bytes(digest) + s2 =~= write_u8(tag) + (
                        write_bytes(digest) + s2));
                    },
                    None => {},
                }
            }
        },
        None => {},
    }
}

/// Appends the body of a response.
pub fn put_response(out: &mut Vec<u8>, r: &Response)
    ensures
        final(out)@ == old(out)@ + write_response(r@),
        response_fits(r@),
{
    match r {
        Response::DeployAck { status } => {
            put_u8(out, TAG_DEPLOY);
            put_ack(out, status);
        },
        Response::StartAck { status } => {
            put_u8(out, TAG_START);
            put_ack(out, status);
        },
        Response::CommitAck { status } => {
            put_u8(out, TAG_COMMIT);
            put_ack(out, status);
        },
        Response::StopAck { status } => {
            put_u8(out, TAG_STOP);
            put_ack(out, status);
        },
        Response::ExecuteResult { outcome } => {
            put_u8(out, TAG_EXECUTE);
            put_outcome(out, outcome);
        },
        Response::StateHashResult { digest } => {
            put_u8(out, TAG_STATE_HASH);
            put_bytes(out, digest.as_slice());
        },
    }
    assert(out@ =~= old(out)@ + write_response(r@));
}

/// Reads the body of a response off the front of the input.
pub fn take_response<'a>(input: &'a [u8]) -> (r: Option<(Response, &'a [u8])>)
    ensures
        match r {
            Some((p, rest)) => read_response(input@) == Some((p@, rest@)),
            None => read_response(input@) is None,
        },
{
    proof {
        reveal(read_response);
    }
    let (tag, s1) = match take_u8(input) {
        Some(p) => p,
        None => { return None; },
    };
    if tag == TAG_DEPLOY {
        let (status, s2) = match take_ack(s1) {
            Some(p) => p,
            None => { return None; },
        };
        Some((Response::DeployAck { status }, s2))
    } else if tag == TAG_START {
        let (status, s2) = match take_ack(s1) {
            Some(p) => p,
            None => { return None; },
        };
        Some((Response::StartAck { status }, s2))
    } else if tag == TAG_COMMIT {
        let (status, s2) = match take_ack(s1) {
            Some(p) => p,
            None => { return None; },
        };
        Some((Response::CommitAck { status }, s2))
    } else if tag == TAG_STOP {
        let (status, s2) = match take_ack(s1) {
            Some(p) => p,
            None => { return None; },
        };
        Some((Response::StopAck { status }, s2))
    } else if tag == TAG_EXECUTE {
        let (outcome, s2) = match take_outcome(s1) {
            Some(p) => p,
            None => { return None; },
        };
        Some((Response::ExecuteResult { outcome }, s2))
    } else if tag == TAG_STATE_HASH {
        let (digest, s2) = match take_bytes(s1) {
            Some(p) => p,
            None => { return None; },
        };
        Some((Response::StateHashResult { digest: slice_to_vec(digest) }, s2))
    } else {
        None
    }
}

// ---------------------------------------------------------------------------
// Whole messages

/// The bytes of a request sent under a correlation identifier.
pub open spec fn spec_encode_request(id: u64, r: RequestView) -> Seq<u8> {
    write_u64(id) + write_request(r)
}

/// The request that a byte string holds, if it holds exactly one.
pub open spec fn spec_decode_request(s: Seq<u8>) -> Option<(u64, RequestView)> {
    match read_u64(s) {
        Some((id, s1)) => match read_request(s1) {
            Some((r, s2)) => if s2.len() == 0 {
                Some((id, r))
            } else {
                None
            },
            None => None,
        },
        None => None,
    }
}

/// The bytes of a response sent under a correlation identifier.
pub open spec fn spec_encode_response(id: u64, r: ResponseView) -> Seq<u8> {
    write_u64(id) + write_response(r)
}

/// The response that a byte string holds, if it holds exactly one.
pub open spec fn spec_decode_response(s: Seq<u8>) -> Option<(u64, ResponseView)> {
    match read_u64(s) {
        Some((id, s1)) => match read_response(s1) {
            Some((r, s2)) => if s2.len() == 0 {
                Some((id, r))
            } else {
                None
            },
            None => None,
        },
        None => None,
    }
}

/// The correlation identifier that a message starts with, whatever follows.
pub open spec fn spec_peek_id(s: Seq<u8>) -> Option<u64> {
    match read_u64(s) {
        Some((id, s1)) => Some(id),
        None => None,
    }
}

/// Decoding an encoded request gives back the identifier and the request.
pub proof fn lemma_decode_encode_request(id: u64, r: RequestView)
    requires
        request_fits(r),
    ensures
        spec_decode_request(spec_encode_request(id, r)) == Some((id, r)),
        spec_peek_id(spec_encode_request(id, r)) == Some(id),
{
    let body = write_request(r);
    lemma_read_write_u64(id, body);
    lemma_read_write_request(r, Seq::empty());
    assert(body + Seq::<u8>::empty() =~= body);
}

/// Decoding an encoded response gives back the identifier and the response.
pub proof fn lemma_decode_encode_response(id: u64, r: ResponseView)
    requires
        response_fits(r),
    ensures
        spec_decode_response(spec_encode_response(id, r)) == Some((id, r)),
        spec_peek_id(spec_encode_response(id, r)) == Some(id),
{
    let body = write_response(r);
    lemma_read_write_u64(id, body);
    lemma_read_write_response(r, Seq::empty());
    assert(body + Seq::<u8>::empty() =~= body);
}

/// Decoding accepts exactly what encoding produces: a byte string decodes
/// to a request if and only if it is the encoding of that request.
pub proof fn lemma_decode_request_inverts_encode(s: Seq<u8>, id: u64, r: RequestView)
    ensures
        spec_decode_request(s) == Some((id, r)) <==> request_fits(r) && s == spec_encode_request(
            id,
            r,
        ),
{
    if request_fits(r) && s == spec_encode_request(id, r) {
        lemma_decode_encode_request(id, r);
    }
    if spec_decode_request(s) == Some((id, r)) {
        lemma_read_inverts_write_u64(s);
        let (_, s1) = read_u64(s).unwrap();
        lemma_read_inverts_write_request(s1);
        let (_, s2) = read_request(s1).unwrap();
        assert(write_request(r) + s2 =~= write_request(r));
    }
}

/// Decoding accepts exactly what encoding produces: a byte string decodes
/// to a response if and only if it is the encoding of that response.
pub proof fn lemma_decode_response_inverts_encode(s: Seq<u8>, id: u64, r: ResponseView)
    ensures
        spec_decode_response(s) == Some((id, r)) <==> response_fits(r) && s
            == spec_encode_response(id, r),
{
    if response_fits(r) && s == spec_encode_response(id, r) {
        lemma_decode_encode_response(id, r);
    }
    if spec_decode_response(s) == Some((id, r)) {
        lemma_read_inverts_write_u64(s);
        let (_, s1) = read_u64(s).unwrap();
        lemma_read_inverts_write_response(s1);
        let (_, s2) = read_response(s1).unwrap();
        assert(write_response(r) + s2 =~= write_response(r));
    }
}

/// Encodes a request for sending. Total: every request has an encoding, and
/// decoding it gives the request back.
pub fn encode_request(id: u64, r: &Request) -> (out: Vec<u8>)
    ensures
        out@ == spec_encode_request(id, r@),
        request_fits(r@),
        spec_decode_request(out@) == Some((id, r@)),
{
    let mut out: Vec<u8> = Vec::new();
    put_u64(&mut out, id);
    put_request(&mut out, r);
    proof {
        assert(out@ =~= spec_encode_request(id, r@));
        lemma_decode_encode_request(id, r@);
    }
    out
}

/// Decodes a request. Fails when the bytes are not exactly one well-formed
/// request.
pub fn decode_request(bytes: &[u8]) -> (r: Result<(u64, Request), DecodeError>)
    ensures
        match r {
            Ok((id, q)) => spec_decode_request(bytes@) == Some((id, q@)) && bytes@
                == spec_encode_request(id, q@),
            Err(e) => spec_decode_request(bytes@) is None && e == DecodeError::Malformed,
        },
{
    let (id, s1) = match take_u64(bytes) {
        Some(p) => p,
        None => { return Err(DecodeError::Malformed); },
    };
    let (q, s2) = match take_request(s1) {
        Some(p) => p,
        None => { return Err(DecodeError::Malformed); },
    };
    if s2.len() != 0 {
        return Err(DecodeError::Malformed);
    }
    proof {
        lemma_decode_request_inverts_encode(bytes@, id, q@);
    }
    Ok((id, q))
}

/// Encodes a response. Total: every response has an encoding, and decoding
/// it gives the response back.
pub fn encode_response(id: u64, r: &Response) -> (out: Vec<u8>)
    ensures
        out@ == spec_encode_response(id, r@),
        response_fits(r@),
        spec_decode_response(out@) == Some((id, r@)),
{
    let mut out: Vec<u8> = Vec::new();
    put_u64(&mut out, id);
    put_response(&mut out, r);
    proof {
        assert(out@ =~= spec_encode_response(id, r@));
        lemma_decode_encode_response(id, r@);
    }
    out
}

/// Decodes a response. Fails when the bytes are not exactly one well-formed
/// response.
pub fn decode_response(bytes: &[u8]) -> (r: Result<(u64, Response), DecodeError>)
    ensures
        match r {
            Ok((id, p)) => spec_decode_response(bytes@) == Some((id, p@)) && bytes@
                == spec_encode_response(id, p@),
            Err(e) => spec_decode_response(bytes@) is None && e == DecodeError::Malformed,
        },
{
    let (id, s1) = match take_u64(bytes) {
        Some(p) => p,
        None => { return Err(DecodeError::Malformed); },
    };
    let (p, s2) = match take_response(s1) {
        Some(p) => p,
        None => { return Err(DecodeError::Malformed); },
    };
    if s2.len() != 0 {
        return Err(DecodeError::Malformed);
    }
    proof {
        lemma_decode_response_inverts_encode(bytes@, id, p@);
    }
    Ok((id, p))
}

/// Reads the correlation identifier of a message without decoding its body.
pub fn peek_correlation_id(bytes: &[u8]) -> (r: Option<u64>)
    ensures
        r == spec_peek_id(bytes@),
{
    match take_u64(bytes) {
        Some((id, _)) => Some(id),
        None => None,
    }
}

} // verus!
