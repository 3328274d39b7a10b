//! Primitive wire encodings: fixed-width integers, length-prefixed byte
//! strings and length-prefixed UTF-8 text.
//!
//! Every writer appends to the output; every reader consumes a prefix of its
//! input and hands back what is left. Integers are little-endian. A length
//! prefix is a 64-bit integer, so every value that fits in memory has an
//! encoding.

use vstd::bytes::*;
use vstd::prelude::*;
use vstd::slice::*;
use vstd::string::*;
use vstd::utf8::*;

verus! {

/// The input left after the first `n` bytes.
pub open spec fn skip(s: Seq<u8>, n: int) -> Seq<u8> {
    s.subrange(n, s.len() as int)
}

/// One byte, as it is.
pub open spec fn write_u8(x: u8) -> Seq<u8> {
    seq![x]
}

/// The first byte and the rest; fails on empty input.
pub open spec fn read_u8(s: Seq<u8>) -> Option<(u8, Seq<u8>)> {
    if s.len() >= 1 {
        Some((s[0], skip(s, 1)))
    } else {
        None
    }
}

/// Four bytes, least significant first.
pub open spec fn write_u32(x: u32) -> Seq<u8> {
    spec_u32_to_le_bytes(x)
}

/// The integer in the first four bytes and the rest; fails on shorter
/// input.
pub open spec fn read_u32(s: Seq<u8>) -> Option<(u32, Seq<u8>)> {
    if s.len() >= 4 {
        Some((spec_u32_from_le_bytes(s.subrange(0, 4)), skip(s, 4)))
    } else {
        None
    }
}

/// Eight bytes, least significant first.
pub open spec fn write_u64(x: u64) -> Seq<u8> {
    spec_u64_to_le_bytes(x)
}

/// The integer in the first eight bytes and the rest; fails on shorter
/// input.
pub open spec fn read_u64(s: Seq<u8>) -> Option<(u64, Seq<u8>)> {
    if s.len() >= 8 {
        Some((spec_u64_from_le_bytes(s.subrange(0, 8)), skip(s, 8)))
    } else {
        None
    }
}

/// A byte string is written as its length followed by its bytes.
pub open spec fn write_bytes(b: Seq<u8>) -> Seq<u8> {
    write_u64(b.len() as u64) + b
}

/// Reads a length and then that many bytes; fails when the input is shorter
/// than the length announces.
pub open spec fn read_bytes(s: Seq<u8>) -> Option<(Seq<u8>, Seq<u8>)> {
    match read_u64(s) {
        Some((n, rest)) => if n <= rest.len() {
            Some((rest.subrange(0, n as int), skip(rest, n as int)))
        } else {
            None
        },
        None => None,
    }
}

/// Text is written as the byte string of its UTF-8 encoding.
pub open spec fn write_text(t: Seq<char>) -> Seq<u8> {
    write_bytes(encode_utf8(t))
}

/// Reads a byte string and decodes it; fails when it is not valid UTF-8.
pub open spec fn read_text(s: Seq<u8>) -> Option<(Seq<char>, Seq<u8>)> {
    match read_bytes(s) {
        Some((b, rest)) => if valid_utf8(b) {
            Some((decode_utf8(b), rest))
        } else {
            None
        },
        None => None,
    }
}

/// Whether a byte string is short enough for its length prefix.
pub open spec fn bytes_fit(b: Seq<u8>) -> bool {
    b.len() <= u64::MAX
}

/// Whether a text's encoding is short enough for its length prefix.
pub open spec fn text_fits(t: Seq<char>) -> bool {
    encode_utf8(t).len() <= u64::MAX
}

/// Reading a written byte gives it back and leaves what followed.
pub proof fn lemma_read_write_u8(x: u8, rest: Seq<u8>)
    ensures
        read_u8(write_u8(x) + rest) == Some((x, rest)),
{
    assert(skip(write_u8(x) + rest, 1) =~= rest);
}

/// Reading a written 32-bit integer gives it back and leaves what followed.
pub proof fn lemma_read_write_u32(x: u32, rest: Seq<u8>)
    ensures
        write_u32(x).len() == 4,
        read_u32(write_u32(x) + rest) == Some((x, rest)),
{
    lemma_auto_spec_u32_to_from_le_bytes();
    let s = write_u32(x) + rest;
    assert(s.subrange(0, 4) =~= write_u32(x));
    assert(skip(s, 4) =~= rest);
}

/// Reading a written 64-bit integer gives it back and leaves what followed.
pub proof fn lemma_read_write_u64(x: u64, rest: Seq<u8>)
    ensures
        write_u64(x).len() == 8,
        read_u64(write_u64(x) + rest) == Some((x, rest)),
{
    lemma_auto_spec_u64_to_from_le_bytes();
    let s = write_u64(x) + rest;
    assert(s.subrange(0, 8) =~= write_u64(x));
    assert(skip(s, 8) =~= rest);
}

/// Reading a written byte string gives it back and leaves what followed.
pub proof fn lemma_read_write_bytes(b: Seq<u8>, rest: Seq<u8>)
    requires
        bytes_fit(b),
    ensures
        read_bytes(write_bytes(b) + rest) == Some((b, rest)),
{
    let n = b.len() as u64;
    lemma_read_write_u64(n, b + rest);
    assert(write_bytes(b) + rest =~= write_u64(n) + (b + rest));
    assert((b + rest).subrange(0, n as int) =~= b);
    assert(skip(b + rest, n as int) =~= rest);
}

/// Reading a written text gives it back and leaves what followed.
pub proof fn lemma_read_write_text(t: Seq<char>, rest: Seq<u8>)
    requires
        text_fits(t),
    ensures
        read_text(write_text(t) + rest) == Some((t, rest)),
{
    lemma_read_write_bytes(encode_utf8(t), rest);
    encode_utf8_valid_utf8(t);
    encode_utf8_decode_utf8(t);
}

/// What reads as a byte is that byte followed by the rest.
pub proof fn lemma_read_inverts_write_u8(s: Seq<u8>)
    ensures
        read_u8(s) matches Some((x, rest)) ==> write_u8(x) + rest == s,
{
    if s.len() >= 1 {
        assert(write_u8(s[0]) + skip(s, 1) =~= s);
    }
}

/// What reads as a 32-bit integer is that integer's encoding followed by the
/// rest.
pub proof fn lemma_read_inverts_write_u32(s: Seq<u8>)
    ensures
        read_u32(s) matches Some((x, rest)) ==> write_u32(x) + rest == s,
{
    if s.len() >= 4 {
        lemma_auto_spec_u32_to_from_le_bytes();
        let head = s.subrange(0, 4);
        assert(spec_u32_to_le_bytes(spec_u32_from_le_bytes(head)) == head);
        assert(head + skip(s, 4) =~= s);
    }
}

/// What reads as a 64-bit integer is that integer's encoding followed by the
/// rest.
pub proof fn lemma_read_inverts_write_u64(s: Seq<u8>)
    ensures
        read_u64(s) matches Some((x, rest)) ==> write_u64(x) + rest == s,
{
    if s.len() >= 8 {
        lemma_auto_spec_u64_to_from_le_bytes();
        let head = s.subrange(0, 8);
        assert(spec_u64_to_le_bytes(spec_u64_from_le_bytes(head)) == head);
        assert(head + skip(s, 8) =~= s);
    }
}

/// What reads as a byte string is that string's encoding followed by the
/// rest.
pub proof fn lemma_read_inverts_write_bytes(s: Seq<u8>)
    ensures
        read_bytes(s) matches Some((b, rest)) ==> bytes_fit(b) && write_bytes(b) + rest == s,
{
    lemma_read_inverts_write_u64(s);
    match read_u64(s) {
        Some((n, rest1)) => {
            if n <= rest1.len() {
                let b = rest1.subrange(0, n as int);
                let rest = skip(rest1, n as int);
                assert(b + rest =~= rest1);
                assert(write_bytes(b) + rest =~= write_u64(n) + rest1);
            }
        },
        None => {},
    }
}

/// What reads as a text is that text's encoding followed by the rest.
pub proof fn lemma_read_inverts_write_text(s: Seq<u8>)
    ensures
        read_text(s) matches Some((t, rest)) ==> text_fits(t) && write_text(t) + rest == s,
{
    lemma_read_inverts_write_bytes(s);
    match read_bytes(s) {
        Some((b, rest)) => {
            if valid_utf8(b) {
                decode_utf8_encode_utf8(b);
            }
        },
        None => {},
    }
}

/// Appends one byte.
pub fn put_u8(out: &mut Vec<u8>, x: u8)
    ensures
        final(out)@ == old(out)@ + write_u8(x),
{
    out.push(x);
    assert(out@ =~= old(out)@ + write_u8(x));
}

/// Appends a 32-bit integer.
pub fn put_u32(out: &mut Vec<u8>, x: u32)
    ensures
        final(out)@ == old(out)@ + write_u32(x),
{
    let b = u32_to_le_bytes(x);
    out.extend_from_slice(b.as_slice());
    assert(out@ =~= old(out)@ + write_u32(x));
}

/// Appends a 64-bit integer.
pub fn put_u64(out: &mut Vec<u8>, x: u64)
    ensures
        final(out)@ == old(out)@ + write_u64(x),
{
    let b = u64_to_le_bytes(x);
    out.extend_from_slice(b.as_slice());
    assert(out@ =~= old(out)@ + write_u64(x));
}

/// Appends a byte string with its length.
pub fn put_bytes(out: &mut Vec<u8>, b: &[u8])
    ensures
        final(out)@ == old(out)@ + write_bytes(b@),
        bytes_fit(b@),
{
    let n: u64 = b.len() as u64;
    put_u64(out, n);
    out.extend_from_slice(b);
    assert(out@ =~= old(out)@ + write_bytes(b@));
}

/// Appends a text with the length of its encoding.
pub fn put_text(out: &mut Vec<u8>, t: &str)
    ensures
        final(out)@ == old(out)@ + write_text(t@),
        text_fits(t@),
{
    put_bytes(out, t.as_bytes());
}

/// Reads one byte off the front of the input.
pub fn take_u8<'a>(input: &'a [u8]) -> (r: Option<(u8, &'a [u8])>)
    ensures
        match r {
            Some((x, rest)) => read_u8(input@) == Some((x, rest@)),
            None => read_u8(input@) is None,
        },
{
    if input.len() < 1 {
        None
    } else {
        let x: u8 = input[0];
        Some((x, slice_subrange(input, 1, input.len())))
    }
}

/// Reads a 32-bit integer off the front of the input.
pub fn take_u32<'a>(input: &'a [u8]) -> (r: Option<(u32, &'a [u8])>)
    ensures
        match r {
            Some((x, rest)) => read_u32(input@) == Some((x, rest@)),
            None => read_u32(input@) is None,
        },
{
    if input.len() < 4 {
        None
    } else {
        let x: u32 = u32_from_le_bytes(slice_subrange(input, 0, 4));
        Some((x, slice_subrange(input, 4, input.len())))
    }
}

/// Reads a 64-bit integer off the front of the input.
pub fn take_u64<'a>(input: &'a [u8]) -> (r: Option<(u64, &'a [u8])>)
    ensures
        match r {
            Some((x, rest)) => read_u64(input@) == Some((x, rest@)),
            None => read_u64(input@) is None,
        },
{
    if input.len() < 8 {
        None
    } else {
        let x: u64 = u64_from_le_bytes(slice_subrange(input, 0, 8));
        Some((x, slice_subrange(input, 8, input.len())))
    }
}

/// Reads a byte string off the front of the input. Nothing is copied.
pub fn take_bytes<'a>(input: &'a [u8]) -> (r: Option<(&'a [u8], &'a [u8])>)
    ensures
        match r {
            Some((b, rest)) => read_bytes(input@) == Some((b@, rest@)),
            None => read_bytes(input@) is None,
        },
{
    match take_u64(input) {
        None => None,
        Some((n, rest)) => {
            if n > rest.len() as u64 {
                None
            } else {
                let k: usize = n as usize;
                Some((slice_subrange(rest, 0, k), slice_subrange(rest, k, rest.len())))
            }
        },
    }
}

/// Calls `String::from_utf8` of std. Taken on trust, not proved: the call
/// succeeds exactly when the bytes are valid UTF-8, and the string it then
/// returns is the text whose UTF-8 encoding is those bytes.
#[verifier::external_body]
fn string_from_utf8(bytes: Vec<u8>) -> (r: Option<String>)
    ensures
        r is Some <==> valid_utf8(bytes@),
        r matches Some(s) ==> encode_utf8(s@) == bytes@,
{
    match String::from_utf8(bytes) {
        Ok(text) => Some(text),
        Err(_) => None,
    }
}

/// Reads a text off the front of the input.
pub fn take_text<'a>(input: &'a [u8]) -> (r: Option<(String, &'a [u8])>)
    ensures
        match r {
            Some((t, rest)) => read_text(input@) == Some((t@, rest@)),
            None => read_text(input@) is None,
        },
{
    match take_bytes(input) {
        None => None,
        Some((b, rest)) => {
            match string_from_utf8(slice_to_vec(b)) {
                None => None,
                Some(t) => {
                    proof {
                        encode_utf8_decode_utf8(t@);
                    }
                    Some((t, rest))
                },
            }
        },
    }
}

} // verus!
