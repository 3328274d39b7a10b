use rust_interface::framing::{encode_frame, FrameBuffer, FrameStep};

#[test]
fn frame_is_length_then_payload() {
    assert_eq!(encode_frame(b"hey"), vec![3, 0, 0, 0, 0, 0, 0, 0, b'h', b'e', b'y']);
    assert_eq!(encode_frame(b""), vec![0; 8]);
}

#[test]
fn buffer_hands_out_a_whole_frame() {
    let mut buf = FrameBuffer::new(1024);
    buf.extend(&encode_frame(b"payload"));
    assert_eq!(buf.next_frame(), FrameStep::Frame(b"payload".to_vec()));
    assert_eq!(buf.pending_len(), 0);
    assert_eq!(buf.next_frame(), FrameStep::NeedMore);
}

#[test]
fn buffer_waits_for_the_rest_of_a_frame() {
    let frame = encode_frame(b"abcdef");
    for cut in 0..frame.len() {
        let mut buf = FrameBuffer::new(1024);
        buf.extend(&frame[..cut]);
        assert_eq!(buf.next_frame(), FrameStep::NeedMore);
        assert_eq!(buf.pending_len(), cut);
        buf.extend(&frame[cut..]);
        assert_eq!(buf.next_frame(), FrameStep::Frame(b"abcdef".to_vec()));
        assert_eq!(buf.pending_len(), 0);
    }
}

#[test]
fn buffer_keeps_frames_apart_and_in_order() {
    let mut stream = encode_frame(b"one");
    stream.extend_from_slice(&encode_frame(b""));
    stream.extend_from_slice(&encode_frame(b"three"));
    let mut buf = FrameBuffer::new(1024);
    for byte in stream {
        buf.extend(&[byte]);
    }
    assert_eq!(buf.next_frame(), FrameStep::Frame(b"one".to_vec()));
    assert_eq!(buf.next_frame(), FrameStep::Frame(Vec::new()));
    assert_eq!(buf.next_frame(), FrameStep::Frame(b"three".to_vec()));
    assert_eq!(buf.next_frame(), FrameStep::NeedMore);
}

#[test]
fn buffer_refuses_a_frame_above_the_limit() {
    let mut buf = FrameBuffer::new(4);
    buf.extend(&encode_frame(b"12345"));
    assert_eq!(buf.next_frame(), FrameStep::Oversized);
    assert_eq!(buf.pending_len(), 13);
    assert_eq!(buf.next_frame(), FrameStep::Oversized);
}

#[test]
fn buffer_accepts_a_frame_at_the_limit() {
    let mut buf = FrameBuffer::new(4);
    buf.extend(&encode_frame(b"1234"));
    assert_eq!(buf.next_frame(), FrameStep::Frame(b"1234".to_vec()));
}

#[test]
fn oversized_is_known_from_the_prefix_alone() {
    let mut buf = FrameBuffer::new(10);
    buf.extend(&[0xff; 8]);
    assert_eq!(buf.next_frame(), FrameStep::Oversized);
}
