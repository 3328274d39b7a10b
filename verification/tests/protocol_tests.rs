use rust_interface::errors::DecodeError;
use rust_interface::messages::{Ack, Request, Response};
use rust_interface::protocol::{
    decode_request, decode_response, encode_request, encode_response, peek_correlation_id,
    put_ack, take_ack,
};
use rust_interface::types::{
    ArtifactId, CallOutcome, CallRequest, ExecutionContext, FailureKind, ServiceInstanceSpec,
    StateEffect,
};

fn sample_artifact() -> ArtifactId {
    ArtifactId { name: String::from("wallet"), version: String::from("0.3.1") }
}

fn all_requests() -> Vec<Request> {
    vec![
        Request::DeployArtifact { artifact: sample_artifact(), spec: vec![1, 2, 3] },
        Request::StartInstance {
            instance: ServiceInstanceSpec {
                instance_id: 4,
                artifact: sample_artifact(),
                args: b"args".to_vec(),
            },
        },
        Request::CommitInstance { instance_id: 4 },
        Request::StopInstance { instance_id: 4 },
        Request::ExecuteCall {
            call: CallRequest {
                instance_id: 4,
                method: String::from("method"),
                payload: vec![0xde, 0xad],
                context: ExecutionContext { height: 10, caller: vec![7; 32], budget: 1000 },
            },
        },
        Request::QueryStateHash,
    ]
}

fn all_responses() -> Vec<Response> {
    vec![
        Response::DeployAck { status: Ack::Accepted },
        Response::StartAck { status: Ack::Rejected { code: 3, message: String::from("no") } },
        Response::CommitAck { status: Ack::Unknown },
        Response::StopAck { status: Ack::Accepted },
        Response::ExecuteResult {
            outcome: CallOutcome::Success {
                payload: vec![1],
                effects: vec![StateEffect::Delete { key: vec![2] }],
            },
        },
        Response::ExecuteResult {
            outcome: CallOutcome::Failure {
                kind: FailureKind::Service,
                code: 42,
                message: String::from("reverted"),
            },
        },
        Response::StateHashResult { digest: vec![0xab; 32] },
    ]
}

#[test]
fn every_request_round_trips() {
    for (i, r) in all_requests().into_iter().enumerate() {
        let id = 100 + i as u64;
        let bytes = encode_request(id, &r);
        assert_eq!(decode_request(&bytes), Ok((id, r.clone())));
        assert_eq!(peek_correlation_id(&bytes), Some(id));
    }
}

#[test]
fn every_response_round_trips() {
    for (i, r) in all_responses().into_iter().enumerate() {
        let id = u64::MAX - i as u64;
        let bytes = encode_response(id, &r);
        assert_eq!(decode_response(&bytes), Ok((id, r.clone())));
        assert_eq!(peek_correlation_id(&bytes), Some(id));
    }
}

#[test]
fn commit_request_encoding_is_exact() {
    let bytes = encode_request(7, &Request::CommitInstance { instance_id: 3 });
    assert_eq!(bytes, vec![7, 0, 0, 0, 0, 0, 0, 0, 3, 3, 0, 0, 0]);
}

#[test]
fn state_hash_request_encoding_is_exact() {
    let bytes = encode_request(1, &Request::QueryStateHash);
    assert_eq!(bytes, vec![1, 0, 0, 0, 0, 0, 0, 0, 6]);
}

#[test]
fn deploy_ack_encoding_is_exact() {
    let bytes = encode_response(2, &Response::DeployAck { status: Ack::Accepted });
    assert_eq!(bytes, vec![2, 0, 0, 0, 0, 0, 0, 0, 1, 0]);
    let bytes = encode_response(
        2,
        &Response::StopAck { status: Ack::Rejected { code: 5, message: String::from("a") } },
    );
    assert_eq!(bytes, vec![2, 0, 0, 0, 0, 0, 0, 0, 4, 2, 5, 0, 0, 0, 1, 0, 0, 0, 0, 0, 0, 0, b'a']);
}

#[test]
fn trailing_bytes_are_malformed() {
    for r in all_requests() {
        let mut bytes = encode_request(1, &r);
        bytes.push(0);
        assert_eq!(decode_request(&bytes), Err(DecodeError::Malformed));
    }
    for r in all_responses() {
        let mut bytes = encode_response(1, &r);
        bytes.push(0);
        assert_eq!(decode_response(&bytes), Err(DecodeError::Malformed));
    }
}

#[test]
fn truncated_messages_are_malformed() {
    for r in all_requests() {
        let bytes = encode_request(1, &r);
        for cut in 0..bytes.len() {
            assert_eq!(decode_request(&bytes[..cut]), Err(DecodeError::Malformed));
        }
    }
    for r in all_responses() {
        let bytes = encode_response(1, &r);
        for cut in 0..bytes.len() {
            assert_eq!(decode_response(&bytes[..cut]), Err(DecodeError::Malformed));
        }
    }
}

#[test]
fn unknown_message_tags_are_malformed() {
    for tag in [0u8, 7, 0xff] {
        let bytes = vec![1, 0, 0, 0, 0, 0, 0, 0, tag];
        assert_eq!(decode_request(&bytes), Err(DecodeError::Malformed));
        assert_eq!(decode_response(&bytes), Err(DecodeError::Malformed));
    }
}

#[test]
fn unknown_ack_tag_is_malformed() {
    let bytes = vec![1, 0, 0, 0, 0, 0, 0, 0, 1, 3];
    assert_eq!(decode_response(&bytes), Err(DecodeError::Malformed));
}

#[test]
fn text_that_is_not_utf8_makes_a_message_malformed() {
    let mut bytes = encode_response(
        1,
        &Response::DeployAck { status: Ack::Rejected { code: 1, message: String::from("a") } },
    );
    let last = bytes.len() - 1;
    bytes[last] = 0xff;
    assert_eq!(decode_response(&bytes), Err(DecodeError::Malformed));
}

#[test]
fn peek_needs_eight_bytes() {
    assert_eq!(peek_correlation_id(&[1, 2, 3, 4, 5, 6, 7]), None);
    assert_eq!(peek_correlation_id(&[1, 0, 0, 0, 0, 0, 0, 0]), Some(1));
    assert_eq!(peek_correlation_id(&[0, 1, 0, 0, 0, 0, 0, 0, 0xff, 0xff]), Some(256));
}

#[test]
fn ack_round_trips() {
    for a in [
        Ack::Accepted,
        Ack::Unknown,
        Ack::Rejected { code: u32::MAX, message: String::from("\u{2603}") },
    ] {
        let mut out = Vec::new();
        put_ack(&mut out, &a);
        out.push(9);
        let (b, rest) = take_ack(&out).unwrap();
        assert_eq!(b, a);
        assert_eq!(rest, &[9]);
        assert_eq!(a.clone(), a);
    }
}

#[test]
fn messages_clone_equal() {
    for r in all_requests() {
        assert_eq!(r.clone(), r);
    }
    for r in all_responses() {
        assert_eq!(r.clone(), r);
    }
}
