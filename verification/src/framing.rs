//! Length-prefixed framing for a byte stream.
//!
//! A frame is the length of its payload followed by the payload, so a reader
//! of a stream always knows where a message ends and needs no delimiter.

use crate::codec::{
    lemma_read_inverts_write_bytes, lemma_read_write_bytes, lemma_read_write_u64, put_bytes, read_u64, skip, take_u64,
    write_bytes, write_u64,
};
use vstd::prelude::*;
use vstd::slice::*;

verus! {

/// The frame that carries a payload.
pub open spec fn spec_frame(payload: Seq<u8>) -> Seq<u8> {
    write_bytes(payload)
}

/// Model of a [`FrameStep`].
pub enum FrameStepView {
    NeedMore,
    Frame(Seq<u8>),
    Oversized,
}

/// What the head of a stream holds.
#[derive(Debug, PartialEq, Eq)]
pub enum FrameStep {
    /// No complete frame yet.
    NeedMore,
    /// The payload of the first frame.
    Frame(Vec<u8>),
    /// The first frame announces more than the limit allows. The stream
    /// cannot be followed any further.
    Oversized,
}

impl View for FrameStep {
    type V = FrameStepView;

    open spec fn view(&self) -> FrameStepView {
        match self {
            FrameStep::NeedMore => FrameStepView::NeedMore,
            FrameStep::Frame(p) => FrameStepView::Frame(p@),
            FrameStep::Oversized => FrameStepView::Oversized,
        }
    }
}

/// What taking the first frame off a stream yields, and the stream left
/// behind. Nothing is consumed unless a whole frame is there.
pub open spec fn spec_next_frame(s: Seq<u8>, limit: u64) -> (FrameStepView, Seq<u8>) {
    match read_u64(s) {
        None => (FrameStepView::NeedMore, s),
        Some((n, rest)) => if n > limit {
            (FrameStepView::Oversized, s)
        } else if n > rest.len() {
            (FrameStepView::NeedMore, s)
        } else {
            (FrameStepView::Frame(rest.subrange(0, n as int)), skip(rest, n as int))
        },
    }
}

/// A frame at the head of a stream comes off whole, and what followed it is
/// left as it was.
pub proof fn lemma_next_frame_of_frame(payload: Seq<u8>, rest: Seq<u8>, limit: u64)
    requires
        payload.len() <= limit,
    ensures
        spec_next_frame(spec_frame(payload) + rest, limit) == (
            FrameStepView::Frame(payload),
            rest,
        ),
{
    let n = payload.len() as u64;
    lemma_read_write_bytes(payload, rest);
    lemma_read_write_u64(n, payload + rest);
    assert(spec_frame(payload) + rest =~= write_u64(n) + (payload + rest));
    assert((payload + rest).subrange(0, n as int) =~= payload);
    assert(skip(payload + rest, n as int) =~= rest);
}

/// A frame that has arrived only in part is never mistaken for a frame.
pub proof fn lemma_partial_frame_needs_more(payload: Seq<u8>, k: int, limit: u64)
    requires
        payload.len() <= limit,
        0 <= k < spec_frame(payload).len(),
    ensures
        spec_next_frame(spec_frame(payload).subrange(0, k), limit) == (
            FrameStepView::NeedMore,
            spec_frame(payload).subrange(0, k),
        ),
{
    let n = payload.len() as u64;
    let head = spec_frame(payload).subrange(0, k);
    lemma_read_write_u64(n, payload);
    if k >= 8 {
        assert(head.subrange(0, 8) =~= write_u64(n));
        assert(head.subrange(0, 8) =~= (write_u64(n) + payload).subrange(0, 8));
    }
}

/// What comes off a stream as a frame was sent as one: the stream began
/// with the frame of that payload, and what is left is what followed it.
pub proof fn lemma_next_frame_inverts_frame(s: Seq<u8>, limit: u64)
    ensures
        spec_next_frame(s, limit).0 matches FrameStepView::Frame(payload) ==> payload.len()
            <= limit && s == spec_frame(payload) + spec_next_frame(s, limit).1,
        !(spec_next_frame(s, limit).0 is Frame) ==> spec_next_frame(s, limit).1 == s,
{
    lemma_read_inverts_write_bytes(s);
}

/// Wraps a payload into a frame.
pub fn encode_frame(payload: &[u8]) -> (out: Vec<u8>)
    ensures
        out@ == spec_frame(payload@),
{
    let mut out: Vec<u8> = Vec::new();
    put_bytes(&mut out, payload);
    assert(out@ =~= spec_frame(payload@));
    out
}

/// Collects the bytes that arrive from a stream and hands out the frames
/// they form, in order.
#[derive(Debug)]
pub struct FrameBuffer {
    buf: Vec<u8>,
    limit: u64,
}

impl FrameBuffer {
    /// The bytes received and not yet handed out.
    pub closed spec fn pending(&self) -> Seq<u8> {
        self.buf@
    }

    /// The longest payload that is accepted.
    pub closed spec fn limit(&self) -> u64 {
        self.limit
    }

    /// An empty buffer that accepts payloads of up to `limit` bytes.
    pub fn new(limit: u64) -> (r: Self)
        ensures
            r.pending() == Seq::<u8>::empty(),
            r.limit() == limit,
    {
        FrameBuffer { buf: Vec::new(), limit }
    }

    /// Number of bytes received and not yet handed out.
    pub fn pending_len(&self) -> (r: usize)
        ensures
            r == self.pending().len(),
    {
        self.buf.len()
    }

    /// Adds bytes that arrived from the stream.
    pub fn extend(&mut self, bytes: &[u8])
        ensures
            final(self).pending() == old(self).pending() + bytes@,
            final(self).limit() == old(self).limit(),
    {
        self.buf.extend_from_slice(bytes);
        assert(self.buf@ =~= old(self).buf@ + bytes@);
    }

    /// Takes the first frame off the buffer, if a whole one is there.
    pub fn next_frame(&mut self) -> (r: FrameStep)
        ensures
            r@ == spec_next_frame(old(self).pending(), old(self).limit()).0,
            final(self).pending() == spec_next_frame(old(self).pending(), old(self).limit()).1,
            final(self).limit() == old(self).limit(),
    {
        let (n, rest) = match take_u64(self.buf.as_slice()) {
            Some(p) => p,
            None => { return FrameStep::NeedMore; },
        };
        if n > self.limit {
            return FrameStep::Oversized;
        }
        if n > rest.len() as u64 {
            return FrameStep::NeedMore;
        }
        let k: usize = n as usize;
        let payload = slice_to_vec(slice_subrange(rest, 0, k));
        let left = slice_to_vec(slice_subrange(rest, k, rest.len()));
        self.buf = left;
        FrameStep::Frame(payload)
    }
}

} // verus!
