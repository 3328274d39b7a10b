use rust_interface::channel::{Channel, Delivery, FIRST_CORRELATION_ID};
use rust_interface::errors::ChannelError;
use rust_interface::framing::{FrameBuffer, FrameStep};
use rust_interface::messages::{Ack, Request, Response};
use rust_interface::protocol::{decode_request, encode_response};

fn commit_ack(id: u64) -> Vec<u8> {
    encode_response(id, &Response::CommitAck { status: Ack::Accepted })
}

#[test]
fn first_request_gets_the_first_identifier() {
    let mut ch = Channel::new();
    assert!(ch.is_connected());
    assert_eq!(ch.awaiting(), None);
    let out = ch.send(&Request::QueryStateHash).unwrap();
    assert_eq!(out.id, FIRST_CORRELATION_ID);
    assert_eq!(ch.awaiting(), Some(1));
}

#[test]
fn sent_frame_holds_the_request() {
    let mut ch = Channel::new();
    let request = Request::CommitInstance { instance_id: 12 };
    let out = ch.send(&request).unwrap();
    let mut buf = FrameBuffer::new(1 << 20);
    buf.extend(&out.frame);
    let payload = match buf.next_frame() {
        FrameStep::Frame(p) => p,
        other => panic!("no frame: {:?}", other),
    };
    assert_eq!(decode_request(&payload), Ok((out.id, request)));
    assert_eq!(buf.pending_len(), 0);
}

#[test]
fn second_request_is_refused_while_one_waits() {
    let mut ch = Channel::new();
    ch.send(&Request::QueryStateHash).unwrap();
    assert_eq!(ch.send(&Request::QueryStateHash), Err(ChannelError::Busy));
    assert_eq!(ch.awaiting(), Some(1));
}

#[test]
fn identifiers_increase_by_one() {
    let mut ch = Channel::new();
    for expected in 1..=5u64 {
        let out = ch.send(&Request::QueryStateHash).unwrap();
        assert_eq!(out.id, expected);
        assert!(matches!(ch.on_frame(&commit_ack(expected)), Delivery::Delivered { .. }));
    }
}

#[test]
fn matching_response_is_delivered_once() {
    let mut ch = Channel::new();
    let out = ch.send(&Request::CommitInstance { instance_id: 1 }).unwrap();
    let payload = commit_ack(out.id);
    assert_eq!(
        ch.on_frame(&payload),
        Delivery::Delivered { id: 1, response: Response::CommitAck { status: Ack::Accepted } }
    );
    assert_eq!(ch.awaiting(), None);
    assert_eq!(ch.on_frame(&payload), Delivery::Discarded);
}

#[test]
fn response_for_another_identifier_is_dropped() {
    let mut ch = Channel::new();
    let out = ch.send(&Request::CommitInstance { instance_id: 1 }).unwrap();
    assert_eq!(ch.on_frame(&commit_ack(out.id + 1)), Delivery::Discarded);
    assert_eq!(ch.on_frame(&commit_ack(0)), Delivery::Discarded);
    assert_eq!(ch.awaiting(), Some(out.id));
    assert!(matches!(ch.on_frame(&commit_ack(out.id)), Delivery::Delivered { .. }));
}

#[test]
fn response_without_a_waiting_request_is_dropped() {
    let mut ch = Channel::new();
    assert_eq!(ch.on_frame(&commit_ack(1)), Delivery::Discarded);
    assert_eq!(ch.on_frame(&[1, 2, 3]), Delivery::Discarded);
    assert_eq!(ch.send(&Request::QueryStateHash).unwrap().id, 1);
}

#[test]
fn undecodable_response_for_the_awaited_request_is_malformed() {
    let mut ch = Channel::new();
    let out = ch.send(&Request::QueryStateHash).unwrap();
    let mut payload = commit_ack(out.id);
    payload.push(0);
    assert_eq!(ch.on_frame(&payload), Delivery::Malformed { id: out.id });
    assert_eq!(ch.awaiting(), None);
}

#[test]
fn message_too_short_for_an_identifier_is_malformed() {
    let mut ch = Channel::new();
    let out = ch.send(&Request::QueryStateHash).unwrap();
    assert_eq!(ch.on_frame(&[1, 2, 3]), Delivery::Malformed { id: out.id });
    assert_eq!(ch.awaiting(), None);
}

#[test]
fn timeout_abandons_the_request() {
    let mut ch = Channel::new();
    let out = ch.send(&Request::QueryStateHash).unwrap();
    assert_eq!(
        ch.on_timeout(out.id),
        Delivery::Failed { id: out.id, error: ChannelError::Timeout }
    );
    assert_eq!(ch.awaiting(), None);
    assert_eq!(ch.on_timeout(out.id), Delivery::Discarded);
    assert_eq!(ch.on_frame(&commit_ack(out.id)), Delivery::Discarded);
}

#[test]
fn late_response_is_not_given_to_the_next_request() {
    let mut ch = Channel::new();
    let first = ch.send(&Request::QueryStateHash).unwrap();
    assert!(matches!(ch.on_timeout(first.id), Delivery::Failed { .. }));
    let second = ch.send(&Request::CommitInstance { instance_id: 2 }).unwrap();
    assert_eq!(second.id, first.id + 1);
    assert_eq!(ch.on_frame(&commit_ack(first.id)), Delivery::Discarded);
    assert_eq!(ch.awaiting(), Some(second.id));
    assert!(matches!(ch.on_frame(&commit_ack(second.id)), Delivery::Delivered { id: 2, .. }));
}

#[test]
fn stale_timeout_is_ignored() {
    let mut ch = Channel::new();
    let first = ch.send(&Request::QueryStateHash).unwrap();
    assert!(matches!(ch.on_frame(&commit_ack(first.id)), Delivery::Delivered { .. }));
    let second = ch.send(&Request::QueryStateHash).unwrap();
    assert_eq!(ch.on_timeout(first.id), Delivery::Discarded);
    assert_eq!(ch.awaiting(), Some(second.id));
    assert_eq!(Channel::new().on_timeout(1), Delivery::Discarded);
}

#[test]
fn disconnect_fails_the_waiting_request_and_closes() {
    let mut ch = Channel::new();
    let out = ch.send(&Request::QueryStateHash).unwrap();
    assert_eq!(
        ch.on_disconnect(),
        Delivery::Failed { id: out.id, error: ChannelError::Disconnected }
    );
    assert!(!ch.is_connected());
    assert_eq!(ch.awaiting(), None);
    assert_eq!(ch.send(&Request::QueryStateHash), Err(ChannelError::Disconnected));
    assert_eq!(ch.on_frame(&commit_ack(out.id)), Delivery::Discarded);
    assert_eq!(ch.on_disconnect(), Delivery::Discarded);
    assert_eq!(ch.send(&Request::QueryStateHash), Err(ChannelError::Disconnected));
}

#[test]
fn next_identifier_is_one_above_the_last() {
    let mut ch = Channel::new();
    assert_eq!(ch.next_id(), 1);
    ch.send(&Request::QueryStateHash).unwrap();
    assert_eq!(ch.next_id(), 2);
    ch.on_timeout(1);
    assert_eq!(ch.next_id(), 2);
}
