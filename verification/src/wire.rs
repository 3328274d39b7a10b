//! The wire format of the data model and of the messages.
//!
//! For every type there is a writer and a reader over byte sequences, the
//! executable functions that compute them, and the proof that reading what
//! was written gives the value back and leaves the rest of the input
//! untouched.

use crate::codec::{
    bytes_fit, lemma_read_inverts_write_bytes, lemma_read_inverts_write_text,
    lemma_read_inverts_write_u32, lemma_read_inverts_write_u64, lemma_read_inverts_write_u8,
    lemma_read_write_bytes, lemma_read_write_text, lemma_read_write_u32,
    lemma_read_write_u64, lemma_read_write_u8, put_bytes, put_text, put_u32, put_u64, put_u8,
    read_bytes, read_text, read_u32, read_u64, read_u8, take_bytes, take_text, take_u32,
    take_u64, take_u8, text_fits, write_bytes, write_text, write_u32, write_u64, write_u8,
};
use crate::errors::DecodeError;
use crate::types::{
    ArtifactId, ArtifactIdView, CallOutcome, CallOutcomeView, CallRequest, CallRequestView,
    ExecutionContext, ExecutionContextView, FailureKind, ServiceInstanceSpec,
    ServiceInstanceSpecView, StateEffect, StateEffectView, effect_views,
};
use vstd::prelude::*;
use vstd::slice::*;

verus! {

// ---------------------------------------------------------------------------
// Artifact identifiers

/// Whether an artifact identifier is short enough for its length prefixes.
pub open spec fn artifact_fits(a: ArtifactIdView) -> bool {
    text_fits(a.name) && text_fits(a.version)
}

/// The bytes of an artifact identifier: its fields in order.
pub open spec fn write_artifact(a: ArtifactIdView) -> Seq<u8> {
    write_text(a.name) + write_text(a.version)
}

/// Reads an artifact identifier; fails on a field that cannot be read.
#[verifier::opaque]
pub open spec fn read_artifact(s: Seq<u8>) -> Option<(ArtifactIdView, Seq<u8>)> {
    match read_text(s) {
        Some((name, s1)) => match read_text(s1) {
            Some((version, s2)) => Some((ArtifactIdView { name, version }, s2)),
            None => None,
        },
        None => None,
    }
}

/// Reading an artifact identifier that was written gives it back and leaves what followed.
pub proof fn lemma_read_write_artifact(a: ArtifactIdView, rest: Seq<u8>)
    requires
        artifact_fits(a),
    ensures
        read_artifact(write_artifact(a) + rest) == Some((a, rest)),
{
    reveal(read_artifact);
    let tail = write_text(a.version) + rest;
    assert(write_artifact(a) + rest =~= write_text(a.name) + tail);
    lemma_read_write_text(a.name, tail);
    lemma_read_write_text(a.version, rest);
}

/// What reads as an artifact identifier is its encoding followed by the
/// rest.
pub proof fn lemma_read_inverts_write_artifact(s: Seq<u8>)
    ensures
        read_artifact(s) matches Some((a, rest)) ==> artifact_fits(a) && write_artifact(a) + rest
            == s,
{
    reveal(read_artifact);
    lemma_read_inverts_write_text(s);
    match read_text(s) {
        Some((name, s1)) => {
            lemma_read_inverts_write_text(s1);
            match read_text(s1) {
                Some((version, s2)) => {
                    assert(write_text(name) + write_text(version) + s2 =~= write_text(name) + (
                    write_text(version) + s2));
                },
                None => {},
            }
        },
        None => {},
    }
}

/// Appends an artifact identifier.
pub fn put_artifact(out: &mut Vec<u8>, a: &ArtifactId)
    ensures
        final(out)@ == old(out)@ + write_artifact(a@),
        artifact_fits(a@),
{
    put_text(out, a.name.as_str());
    put_text(out, a.version.as_str());
    assert(out@ =~= old(out)@ + write_artifact(a@));
}

/// Reads an artifact identifier off the front of the input.
pub fn take_artifact<'a>(input: &'a [u8]) -> (r: Option<(ArtifactId, &'a [u8])>)
    ensures
        match r {
            Some((a, rest)) => read_artifact(input@) == Some((a@, rest@)),
            None => read_artifact(input@) is None,
        },
{
    proof {
        reveal(read_artifact);
    }
    let (name, s1) = match take_text(input) {
        Some(p) => p,
        None => { return None; },
    };
    let (version, s2) = match take_text(s1) {
        Some(p) => p,
        None => { return None; },
    };
    Some((ArtifactId { name, version }, s2))
}

// ---------------------------------------------------------------------------
// Execution contexts

/// Whether an execution context is short enough for its length prefixes.
pub open spec fn context_fits(c: ExecutionContextView) -> bool {
    bytes_fit(c.caller)
}

/// The bytes of an execution context: its fields in order.
pub open spec fn write_context(c: ExecutionContextView) -> Seq<u8> {
    write_u64(c.height) + write_bytes(c.caller) + write_u64(c.budget)
}

/// Reads an execution context; fails on a field that cannot be read.
#[verifier::opaque]
pub open spec fn read_context(s: Seq<u8>) -> Option<(ExecutionContextView, Seq<u8>)> {
    match read_u64(s) {
        Some((height, s1)) => match read_bytes(s1) {
            Some((caller, s2)) => match read_u64(s2) {
                Some((budget, s3)) => Some((ExecutionContextView { height, caller, budget }, s3)),
                None => None,
            },
            None => None,
        },
        None => None,
    }
}

/// Reading an execution context that was written gives it back and leaves what followed.
pub proof fn lemma_read_write_context(c: ExecutionContextView, rest: Seq<u8>)
    requires
        context_fits(c),
    ensures
        read_context(write_context(c) + rest) == Some((c, rest)),
{
    reveal(read_context);
    let t2 = write_u64(c.budget) + rest;
    let t1 = write_bytes(c.caller) + t2;
    assert(write_context(c) + rest =~= write_u64(c.height) + t1);
    lemma_read_write_u64(c.height, t1);
    lemma_read_write_bytes(c.caller, t2);
    lemma_read_write_u64(c.budget, rest);
}

/// What reads as an execution context is its encoding followed by the rest.
pub proof fn lemma_read_inverts_write_context(s: Seq<u8>)
    ensures
        read_context(s) matches Some((c, rest)) ==> context_fits(c) && write_context(c) + rest
            == s,
{
    reveal(read_context);
    lemma_read_inverts_write_u64(s);
    match read_u64(s) {
        Some((height, s1)) => {
            lemma_read_inverts_write_bytes(s1);
            match read_bytes(s1) {
                Some((caller, s2)) => {
                    lemma_read_inverts_write_u64(s2);
                    match read_u64(s2) {
                        Some((budget, s3)) => {
                            assert(write_u64(height) + write_bytes(caller) + write_u64(budget)
                                + s3 =~= write_u64(height) + (write_bytes(caller) + (write_u64(
                                budget,
                            ) + s3)));
                        },
                        None => {},
                    }
                },
                None => {},
            }
        },
        None => {},
    }
}

/// Appends an execution context.
pub fn put_context(out: &mut Vec<u8>, c: &ExecutionContext)
    ensures
        final(out)@ == old(out)@ + write_context(c@),
        context_fits(c@),
{
    put_u64(out, c.height);
    put_bytes(out, c.caller.as_slice());
    put_u64(out, c.budget);
    assert(out@ =~= old(out)@ + write_context(c@));
}

/// Reads an execution context off the front of the input.
pub fn take_context<'a>(input: &'a [u8]) -> (r: Option<(ExecutionContext, &'a [u8])>)
    ensures
        match r {
            Some((c, rest)) => read_context(input@) == Some((c@, rest@)),
            None => read_context(input@) is None,
        },
{
    proof {
        reveal(read_context);
    }
    let (height, s1) = match take_u64(input) {
        Some(p) => p,
        None => { return None; },
    };
    let (caller, s2) = match take_bytes(s1) {
        Some(p) => p,
        None => { return None; },
    };
    let (budget, s3) = match take_u64(s2) {
        Some(p) => p,
        None => { return None; },
    };
    Some((ExecutionContext { height, caller: slice_to_vec(caller), budget }, s3))
}

// ---------------------------------------------------------------------------
// Service instances

/// Whether a service instance is short enough for its length prefixes.
pub open spec fn instance_fits(i: ServiceInstanceSpecView) -> bool {
    artifact_fits(i.artifact) && bytes_fit(i.args)
}

/// The bytes of a service instance: its fields in order.
pub open spec fn write_instance(i: ServiceInstanceSpecView) -> Seq<u8> {
    write_u32(i.instance_id) + write_artifact(i.artifact) + write_bytes(i.args)
}

/// Reads a service instance; fails on a field that cannot be read.
#[verifier::opaque]
pub open spec fn read_instance(s: Seq<u8>) -> Option<(ServiceInstanceSpecView, Seq<u8>)> {
    match read_u32(s) {
        Some((instance_id, s1)) => match read_artifact(s1) {
            Some((artifact, s2)) => match read_bytes(s2) {
                Some((args, s3)) => Some(
                    (ServiceInstanceSpecView { instance_id, artifact, args }, s3),
                ),
                None => None,
            },
            None => None,
        },
        None => None,
    }
}

/// Reading a service instance that was written gives it back and leaves what followed.
pub proof fn lemma_read_write_instance(i: ServiceInstanceSpecView, rest: Seq<u8>)
    requires
        instance_fits(i),
    ensures
        read_instance(write_instance(i) + rest) == Some((i, rest)),
{
    reveal(read_instance);
    let t2 = write_bytes(i.args) + rest;
    let t1 = write_artifact(i.artifact) + t2;
    assert(write_instance(i) + rest =~= write_u32(i.instance_id) + t1);
    lemma_read_write_u32(i.instance_id, t1);
    lemma_read_write_artifact(i.artifact, t2);
    lemma_read_write_bytes(i.args, rest);
}

/// What reads as a service instance is its encoding followed by the rest.
pub proof fn lemma_read_inverts_write_instance(s: Seq<u8>)
    ensures
        read_instance(s) matches Some((i, rest)) ==> instance_fits(i) && write_instance(i) + rest
            == s,
{
    reveal(read_instance);
    lemma_read_inverts_write_u32(s);
    match read_u32(s) {
        Some((instance_id, s1)) => {
            lemma_read_inverts_write_artifact(s1);
            match read_artifact(s1) {
                Some((artifact, s2)) => {
                    lemma_read_inverts_write_bytes(s2);
                    match read_bytes(s2) {
                        Some((args, s3)) => {
                            assert(write_u32(instance_id) + write_artifact(artifact)
                                + write_bytes(args) + s3 =~= write_u32(instance_id) + (
                            write_artifact(artifact) + (write_bytes(args) + s3)));
                        },
                        None => {},
                    }
                },
                None => {},
            }
        },
        None => {},
    }
}

/// Appends a service instance.
pub fn put_instance(out: &mut Vec<u8>, i: &ServiceInstanceSpec)
    ensures
        final(out)@ == old(out)@ + write_instance(i@),
        instance_fits(i@),
{
    put_u32(out, i.instance_id);
    put_artifact(out, &i.artifact);
    put_bytes(out, i.args.as_slice());
    assert(out@ =~= old(out)@ + write_instance(i@));
}

/// Reads a service instance off the front of the input.
pub fn take_instance<'a>(input: &'a [u8]) -> (r: Option<(ServiceInstanceSpec, &'a [u8])>)
    ensures
        match r {
            Some((i, rest)) => read_instance(input@) == Some((i@, rest@)),
            None => read_instance(input@) is None,
        },
{
    proof {
        reveal(read_instance);
    }
    let (instance_id, s1) = match take_u32(input) {
        Some(p) => p,
        None => { return None; },
    };
    let (artifact, s2) = match take_artifact(s1) {
        Some(p) => p,
        None => { return None; },
    };
    let (args, s3) = match take_bytes(s2) {
        Some(p) => p,
        None => { return None; },
    };
    Some((ServiceInstanceSpec { instance_id, artifact, args: slice_to_vec(args) }, s3))
}

// ---------------------------------------------------------------------------
// Calls

/// Whether a call is short enough for its length prefixes.
pub open spec fn call_fits(c: CallRequestView) -> bool {
    text_fits(c.method) && bytes_fit(c.payload) && context_fits(c.context)
}

/// The bytes of a call: its fields in order.
pub open spec fn write_call(c: CallRequestView) -> Seq<u8> {
    write_u32(c.instance_id) + write_text(c.method) + write_bytes(c.payload) + write_context(
        c.context,
    )
}

/// Reads a call; fails on a field that cannot be read.
#[verifier::opaque]
pub open spec fn read_call(s: Seq<u8>) -> Option<(CallRequestView, Seq<u8>)> {
    match read_u32(s) {
        Some((instance_id, s1)) => match read_text(s1) {
            Some((method, s2)) => match read_bytes(s2) {
                Some((payload, s3)) => match read_context(s3) {
                    Some((context, s4)) => Some(
                        (CallRequestView { instance_id, method, payload, context }, s4),
                    ),
                    None => None,
                },
                None => None,
            },
            None => None,
        },
        None => None,
    }
}

/// Reading a call that was written gives it back and leaves what followed.
pub proof fn lemma_read_write_call(c: CallRequestView, rest: Seq<u8>)
    requires
        call_fits(c),
    ensures
        read_call(write_call(c) + rest) == Some((c, rest)),
{
    reveal(read_call);
    let t3 = write_context(c.context) + rest;
    let t2 = write_bytes(c.payload) + t3;
    let t1 = write_text(c.method) + t2;
    assert(write_call(c) + rest =~= write_u32(c.instance_id) + t1);
    lemma_read_write_u32(c.instance_id, t1);
    lemma_read_write_text(c.method, t2);
    lemma_read_write_bytes(c.payload, t3);
    lemma_read_write_context(c.context, rest);
}

/// What reads as a call is its encoding followed by the rest.
pub proof fn lemma_read_inverts_write_call(s: Seq<u8>)
    ensures
        read_call(s) matches Some((c, rest)) ==> call_fits(c) && write_call(c) + rest == s,
{
    reveal(read_call);
    lemma_read_inverts_write_u32(s);
    match read_u32(s) {
        Some((instance_id, s1)) => {
            lemma_read_inverts_write_text(s1);
            match read_text(s1) {
                Some((method, s2)) => {
                    lemma_read_inverts_write_bytes(s2);
                    match read_bytes(s2) {
                        Some((payload, s3)) => {
                            lemma_read_inverts_write_context(s3);
                            match read_context(s3) {
                                Some((context, s4)) => {
                                    assert(write_u32(instance_id) + write_text(method)
                                        + write_bytes(payload) + write_context(context) + s4
                                        =~= write_u32(instance_id) + (write_text(method) + (
                                    write_bytes(payload) + (write_context(context) + s4))));
                                },
                                None => {},
                            }
                        },
                        None => {},
                    }
                },
                None => {},
            }
        },
        None => {},
    }
}

/// Appends a call.
pub fn put_call(out: &mut Vec<u8>, c: &CallRequest)
    ensures
        final(out)@ == old(out)@ + write_call(c@),
        call_fits(c@),
{
    put_u32(out, c.instance_id);
    put_text(out, c.method.as_str());
    put_bytes(out, c.payload.as_slice());
    put_context(out, &c.context);
    assert(out@ =~= old(out)@ + write_call(c@));
}

/// Reads a call off the front of the input.
pub fn take_call<'a>(input: &'a [u8]) -> (r: Option<(CallRequest, &'a [u8])>)
    ensures
        match r {
            Some((c, rest)) => read_call(input@) == Some((c@, rest@)),
            None => read_call(input@) is None,
        },
{
    proof {
        reveal(read_call);
    }
    let (instance_id, s1) = match take_u32(input) {
        Some(p) => p,
        None => { return None; },
    };
    let (method, s2) = match take_text(s1) {
        Some(p) => p,
        None => { return None; },
    };
    let (payload, s3) = match take_bytes(s2) {
        Some(p) => p,
        None => { return None; },
    };
    let (context, s4) = match take_context(s3) {
        Some(p) => p,
        None => { return None; },
    };
    Some((CallRequest { instance_id, method, payload: slice_to_vec(payload), context }, s4))
}

// ---------------------------------------------------------------------------
// State effects

/// Tags of the kinds of state effect.
pub const TAG_PUT: u8 = 0;
pub const TAG_DELETE: u8 = 1;

/// Whether a state effect is short enough for its length prefixes.
pub open spec fn effect_fits(e: StateEffectView) -> bool {
    match e {
        StateEffectView::Put { key, value } => bytes_fit(key) && bytes_fit(value),
        StateEffectView::Delete { key } => bytes_fit(key),
    }
}

/// The bytes of a state effect: its fields in order.
pub open spec fn write_effect(e: StateEffectView) -> Seq<u8> {
    match e {
        StateEffectView::Put { key, value } => write_u8(TAG_PUT) + write_bytes(key) + write_bytes(
            value,
        ),
        StateEffectView::Delete { key } => write_u8(TAG_DELETE) + write_bytes(key),
    }
}

/// Reads a state effect; fails on a field that cannot be read.
#[verifier::opaque]
pub open spec fn read_effect(s: Seq<u8>) -> Option<(StateEffectView, Seq<u8>)> {
    match read_u8(s) {
        Some((tag, s1)) => if tag == TAG_PUT {
            match read_bytes(s1) {
                Some((key, s2)) => match read_bytes(s2) {
                    Some((value, s3)) => Some((StateEffectView::Put { key, value }, s3)),
                    None => None,
                },
                None => None,
            }
        } else if tag == TAG_DELETE {
            match read_bytes(s1) {
                Some((key, s2)) => Some((StateEffectView::Delete { key }, s2)),
                None => None,
            }
        } else {
            None
        },
        None => None,
    }
}

/// Reading a state effect that was written gives it back and leaves what followed.
pub proof fn lemma_read_write_effect(e: StateEffectView, rest: Seq<u8>)
    requires
        effect_fits(e),
    ensures
        read_effect(write_effect(e) + rest) == Some((e, rest)),
{
    reveal(read_effect);
    match e {
        StateEffectView::Put { key, value } => {
            let t2 = write_bytes(value) + rest;
            let t1 = write_bytes(key) + t2;
            assert(write_effect(e) + rest =~= write_u8(TAG_PUT) + t1);
            lemma_read_write_u8(TAG_PUT, t1);
            lemma_read_write_bytes(key, t2);
            lemma_read_write_bytes(value, rest);
        },
        StateEffectView::Delete { key } => {
            let t1 = write_bytes(key) + rest;
            assert(write_effect(e) + rest =~= write_u8(TAG_DELETE) + t1);
            lemma_read_write_u8(TAG_DELETE, t1);
            lemma_read_write_bytes(key, rest);
        },
    }
}

/// What reads as a state effect is its encoding followed by the rest.
pub proof fn lemma_read_inverts_write_effect(s: Seq<u8>)
    ensures
        read_effect(s) matches Some((e, rest)) ==> effect_fits(e) && write_effect(e) + rest == s,
{
    reveal(read_effect);
    lemma_read_inverts_write_u8(s);
    match read_u8(s) {
        Some((tag, s1)) => {
            lemma_read_inverts_write_bytes(s1);
            match read_bytes(s1) {
                Some((key, s2)) => {
                    if tag == TAG_PUT {
                        lemma_read_inverts_write_bytes(s2);
                        match read_bytes(s2) {
                            Some((value, s3)) => {
                                assert(write_u8(tag) + write_bytes(key) + write_bytes(value) + s3
                                    =~= write_u8(tag) + (write_bytes(key) + (write_bytes(value)
                                    + s3)));
                            },
                            None => {},
                        }
                    } else if tag == TAG_DELETE {
                        assert(write_u8(tag) + write_bytes(key) + s2 =~= write_u8(tag) + (
                        write_bytes(key) + s2));
                    }
                },
                None => {},
            }
        },
        None => {},
    }
}

/// Appends a state effect.
pub fn put_effect(out: &mut Vec<u8>, e: &StateEffect)
    ensures
        final(out)@ == old(out)@ + write_effect(e@),
        effect_fits(e@),
{
    match e {
        StateEffect::Put { key, value } => {
            put_u8(out, TAG_PUT);
            put_bytes(out, key.as_slice());
            put_bytes(out, value.as_slice());
        },
        StateEffect::Delete { key } => {
            put_u8(out, TAG_DELETE);
            put_bytes(out, key.as_slice());
        },
    }
    assert(out@ =~= old(out)@ + write_effect(e@));
}

/// Reads a state effect off the front of the input.
pub fn take_effect<'a>(input: &'a [u8]) -> (r: Option<(StateEffect, &'a [u8])>)
    ensures
        match r {
            Some((e, rest)) => read_effect(input@) == Some((e@, rest@)),
            None => read_effect(input@) is None,
        },
{
    proof {
        reveal(read_effect);
    }
    let (tag, s1) = match take_u8(input) {
        Some(p) => p,
        None => { return None; },
    };
    if tag == TAG_PUT {
        let (key, s2) = match take_bytes(s1) {
            Some(p) => p,
            None => { return None; },
        };
        let (value, s3) = match take_bytes(s2) {
            Some(p) => p,
            None => { return None; },
        };
        Some((StateEffect::Put { key: slice_to_vec(key), value: slice_to_vec(value) }, s3))
    } else if tag == TAG_DELETE {
        let (key, s2) = match take_bytes(s1) {
            Some(p) => p,
            None => { return None; },
        };
        Some((StateEffect::Delete { key: slice_to_vec(key) }, s2))
    } else {
        None
    }
}

// ---------------------------------------------------------------------------
// Lists of state effects: a count, then the effects in order

/// Whether a list of effects is short enough for its count and its length
/// prefixes.
pub open spec fn effects_fit(es: Seq<StateEffectView>) -> bool {
    &&& es.len() <= u64::MAX
    &&& forall|i: int| 0 <= i < es.len() ==> effect_fits(#[trigger] es[i])
}

/// The effects of a list, one after the other.
pub open spec fn write_effect_items(es: Seq<StateEffectView>) -> Seq<u8>
    decreases es.len(),
{
    if es.len() == 0 {
        Seq::empty()
    } else {
        write_effect(es[0]) + write_effect_items(es.subrange(1, es.len() as int))
    }
}

/// Reads `n` effects, in order.
pub open spec fn read_effect_items(s: Seq<u8>, n: nat) -> Option<(Seq<StateEffectView>, Seq<u8>)>
    decreases n,
{
    if n == 0 {
        Some((Seq::empty(), s))
    } else {
        match read_effect(s) {
            Some((e, s1)) => match read_effect_items(s1, (n - 1) as nat) {
                Some((es, s2)) => Some((seq![e] + es, s2)),
                None => None,
            },
            None => None,
        }
    }
}

/// A list of effects: how many there are, then each of them.
pub open spec fn write_effects(es: Seq<StateEffectView>) -> Seq<u8> {
    write_u64(es.len() as u64) + write_effect_items(es)
}

/// Reads a count and then that many effects.
pub open spec fn read_effects(s: Seq<u8>) -> Option<(Seq<StateEffectView>, Seq<u8>)> {
    match read_u64(s) {
        Some((n, s1)) => read_effect_items(s1, n as nat),
        None => None,
    }
}

/// Writing a list that ends in `e` is writing the list before it and then `e`.
pub proof fn lemma_write_effect_items_push(es: Seq<StateEffectView>, e: StateEffectView)
    ensures
        write_effect_items(es.push(e)) == write_effect_items(es) + write_effect(e),
    decreases es.len(),
{
    let all = es.push(e);
    if es.len() == 0 {
        assert(all.subrange(1, all.len() as int) =~= Seq::<StateEffectView>::empty());
        assert(write_effect_items(all.subrange(1, all.len() as int)) =~= Seq::<u8>::empty());
        assert(write_effect_items(all) =~= write_effect(e));
        assert(write_effect_items(es) + write_effect(e) =~= write_effect(e));
    } else {
        let tail = es.subrange(1, es.len() as int);
        lemma_write_effect_items_push(tail, e);
        assert(all.subrange(1, all.len() as int) =~= tail.push(e));
        assert(all[0] == es[0]);
        assert(write_effect_items(all) =~= write_effect(es[0]) + (write_effect_items(tail)
            + write_effect(e)));
        assert(write_effect_items(es) + write_effect(e) =~= write_effect(es[0]) + (
        write_effect_items(tail) + write_effect(e)));
    }
}

/// Reading as many effects as were written gives them back in order and
/// leaves what followed.
pub proof fn lemma_read_write_effect_items(es: Seq<StateEffectView>, rest: Seq<u8>)
    requires
        forall|i: int| 0 <= i < es.len() ==> effect_fits(#[trigger] es[i]),
    ensures
        read_effect_items(write_effect_items(es) + rest, es.len()) == Some((es, rest)),
    decreases es.len(),
{
    if es.len() == 0 {
        assert(write_effect_items(es) + rest =~= rest);
        assert(es =~= Seq::<StateEffectView>::empty());
    } else {
        let tail = es.subrange(1, es.len() as int);
        let t1 = write_effect_items(tail) + rest;
        assert(write_effect_items(es) + rest =~= write_effect(es[0]) + t1);
        lemma_read_write_effect(es[0], t1);
        assert forall|i: int| 0 <= i < tail.len() implies effect_fits(#[trigger] tail[i]) by {
            assert(tail[i] == es[i + 1]);
        }
        lemma_read_write_effect_items(tail, rest);
        assert(seq![es[0]] + tail =~= es);
    }
}

/// Reading a written list of effects gives it back and leaves what
/// followed.
pub proof fn lemma_read_write_effects(es: Seq<StateEffectView>, rest: Seq<u8>)
    requires
        effects_fit(es),
    ensures
        read_effects(write_effects(es) + rest) == Some((es, rest)),
{
    let t1 = write_effect_items(es) + rest;
    assert(write_effects(es) + rest =~= write_u64(es.len() as u64) + t1);
    lemma_read_write_u64(es.len() as u64, t1);
    lemma_read_write_effect_items(es, rest);
}

/// What reads as `n` effects is as many, each fit to be written, and their
/// encodings followed by the rest.
pub proof fn lemma_read_inverts_write_effect_items(s: Seq<u8>, n: nat)
    ensures
        read_effect_items(s, n) matches Some((es, rest)) ==> {
            &&& es.len() == n
            &&& forall|i: int| 0 <= i < es.len() ==> effect_fits(#[trigger] es[i])
            &&& write_effect_items(es) + rest == s
        },
    decreases n,
{
    if n == 0 {
        assert(write_effect_items(Seq::<StateEffectView>::empty()) + s =~= s);
    } else {
        lemma_read_inverts_write_effect(s);
        match read_effect(s) {
            Some((e, s1)) => {
                lemma_read_inverts_write_effect_items(s1, (n - 1) as nat);
                match read_effect_items(s1, (n - 1) as nat) {
                    Some((es, s2)) => {
                        let all = seq![e] + es;
                        assert(all[0] == e);
                        assert(all.subrange(1, all.len() as int) =~= es);
                        assert(write_effect_items(all) + s2 =~= write_effect(e) + (
                        write_effect_items(es) + s2));
                        assert forall|i: int| 0 <= i < all.len() implies effect_fits(
                            #[trigger] all[i],
                        ) by {
                            if i > 0 {
                                assert(all[i] == es[i - 1]);
                            }
                        }
                    },
                    None => {},
                }
            },
            None => {},
        }
    }
}

/// What reads as a list of effects is its encoding followed by the rest.
pub proof fn lemma_read_inverts_write_effects(s: Seq<u8>)
    ensures
        read_effects(s) matches Some((es, rest)) ==> effects_fit(es) && write_effects(es) + rest
            == s,
{
    lemma_read_inverts_write_u64(s);
    match read_u64(s) {
        Some((n, s1)) => {
            lemma_read_inverts_write_effect_items(s1, n as nat);
            match read_effect_items(s1, n as nat) {
                Some((es, s2)) => {
                    assert(write_u64(n) + write_effect_items(es) + s2 =~= write_u64(n) + (
                    write_effect_items(es) + s2));
                },
                None => {},
            }
        },
        None => {},
    }
}

/// Appends a list of effects.
pub fn put_effects(out: &mut Vec<u8>, v: &Vec<StateEffect>)
    ensures
        final(out)@ == old(out)@ + write_effects(effect_views(v@)),
        effects_fit(effect_views(v@)),
{
    let ghost all = effect_views(v@);
    put_u64(out, v.len() as u64);
    let ghost base = out@;
    assert(all.subrange(0, 0) =~= Seq::<StateEffectView>::empty());
    assert(out@ =~= base + write_effect_items(all.subrange(0, 0)));
    let mut i: usize = 0;
    while i < v.len()
        invariant
            i <= v.len(),
            all == effect_views(v@),
            out@ == base + write_effect_items(all.subrange(0, i as int)),
            forall|j: int| 0 <= j < i ==> effect_fits(#[trigger] all[j]),
        decreases v.len() - i,
    {
        let ghost before = out@;
        put_effect(out, &v[i]);
        proof {
            lemma_write_effect_items_push(all.subrange(0, i as int), all[i as int]);
            assert(all.subrange(0, i + 1) =~= all.subrange(0, i as int).push(all[i as int]));
            assert(out@ =~= base + write_effect_items(all.subrange(0, i + 1)));
        }
        i += 1;
    }
    assert(all.subrange(0, i as int) =~= all);
    assert(out@ =~= old(out)@ + write_effects(all));
}

/// Reads a list of effects off the front of the input. It stops at the
/// first effect that cannot be read, however many the count announces.
pub fn take_effects<'a>(input: &'a [u8]) -> (r: Option<(Vec<StateEffect>, &'a [u8])>)
    ensures
        match r {
            Some((v, rest)) => read_effects(input@) == Some((effect_views(v@), rest@)),
            None => read_effects(input@) is None,
        },
{
    let (n, s1) = match take_u64(input) {
        Some(p) => p,
        None => { return None; },
    };
    let mut acc: Vec<StateEffect> = Vec::new();
    let mut cur: &[u8] = s1;
    let mut i: u64 = 0;
    assert(effect_views(acc@) =~= Seq::<StateEffectView>::empty());
    assert(read_effect_items(s1@, n as nat) matches Some((es, r)) ==> effect_views(acc@) + es
        =~= es);
    while i < n
        invariant
            i <= n,
            read_effects(input@) == read_effect_items(s1@, n as nat),
            read_effect_items(s1@, n as nat) == (match read_effect_items(cur@, (n - i) as nat) {
                Some((es, r)) => Some((effect_views(acc@) + es, r)),
                None => None,
            }),
        decreases n - i,
    {
        match take_effect(cur) {
            None => {
                return None;
            },
            Some((e, next)) => {
                let ghost before = effect_views(acc@);
                acc.push(e);
                proof {
                    assert(effect_views(acc@) =~= before.push(e@));
                    match read_effect_items(next@, (n - i - 1) as nat) {
                        Some((es, r)) => {
                            assert(before + (seq![e@] + es) =~= effect_views(acc@) + es);
                        },
                        None => {},
                    }
                }
                cur = next;
                i += 1;
            },
        }
    }
    assert(effect_views(acc@) + Seq::<StateEffectView>::empty() =~= effect_views(acc@));
    Some((acc, cur))
}

// ---------------------------------------------------------------------------
// Call outcomes

/// Tags of the two outcomes of a call.
pub const TAG_SUCCESS: u8 = 0;
pub const TAG_FAILURE: u8 = 1;

/// Tags of the kinds of failure.
pub const TAG_KIND_SERVICE: u8 = 0;
pub const TAG_KIND_RUNTIME: u8 = 1;

/// The tag of a kind of failure.
pub open spec fn kind_tag(k: FailureKind) -> u8 {
    match k {
        FailureKind::Service => TAG_KIND_SERVICE,
        FailureKind::Runtime => TAG_KIND_RUNTIME,
    }
}

/// Reads a kind of failure; fails on an unknown tag.
pub open spec fn read_kind(s: Seq<u8>) -> Option<(FailureKind, Seq<u8>)> {
    match read_u8(s) {
        Some((tag, s1)) => if tag == TAG_KIND_SERVICE {
            Some((FailureKind::Service, s1))
        } else if tag == TAG_KIND_RUNTIME {
            Some((FailureKind::Runtime, s1))
        } else {
            None
        },
        None => None,
    }
}

/// Whether a call outcome is short enough for its length prefixes.
pub open spec fn outcome_fits(o: CallOutcomeView) -> bool {
    match o {
        CallOutcomeView::Success { payload, effects } => bytes_fit(payload) && effects_fit(
            effects,
        ),
        CallOutcomeView::Failure { kind, code, message } => text_fits(message),
    }
}

/// The bytes of a call outcome: its fields in order.
pub open spec fn write_outcome(o: CallOutcomeView) -> Seq<u8> {
    match o {
        CallOutcomeView::Success { payload, effects } => write_u8(TAG_SUCCESS) + write_bytes(
            payload,
        ) + write_effects(effects),
        CallOutcomeView::Failure { kind, code, message } => write_u8(TAG_FAILURE) + write_u8(
            kind_tag(kind),
        ) + write_u32(code) + write_text(message),
    }
}

/// Reads a call outcome; fails on a field that cannot be read.
#[verifier::opaque]
pub open spec fn read_outcome(s: Seq<u8>) -> Option<(CallOutcomeView, Seq<u8>)> {
    match read_u8(s) {
        Some((tag, s1)) => if tag == TAG_SUCCESS {
            match read_bytes(s1) {
                Some((payload, s2)) => match read_effects(s2) {
                    Some((effects, s3)) => Some(
                        (CallOutcomeView::Success { payload, effects }, s3),
                    ),
                    None => None,
                },
                None => None,
            }
        } else if tag == TAG_FAILURE {
            match read_kind(s1) {
                Some((kind, s2)) => match read_u32(s2) {
                    Some((code, s3)) => match read_text(s3) {
                        Some((message, s4)) => Some(
                            (CallOutcomeView::Failure { kind, code, message }, s4),
                        ),
                        None => None,
                    },
                    None => None,
                },
                None => None,
            }
        } else {
            None
        },
        None => None,
    }
}

/// Reading a call outcome that was written gives it back and leaves what followed.
pub proof fn lemma_read_write_outcome(o: CallOutcomeView, rest: Seq<u8>)
    requires
        outcome_fits(o),
    ensures
        read_outcome(write_outcome(o) + rest) == Some((o, rest)),
{
    reveal(read_outcome);
    match o {
        CallOutcomeView::Success { payload, effects } => {
            let t2 = write_effects(effects) + rest;
            let t1 = write_bytes(payload) + t2;
            assert(write_outcome(o) + rest =~= write_u8(TAG_SUCCESS) + t1);
            lemma_read_write_u8(TAG_SUCCESS, t1);
            lemma_read_write_bytes(payload, t2);
            lemma_read_write_effects(effects, rest);
        },
        CallOutcomeView::Failure { kind, code, message } => {
            let t3 = write_text(message) + rest;
            let t2 = write_u32(code) + t3;
            let t1 = write_u8(kind_tag(kind)) + t2;
            assert(write_outcome(o) + rest =~= write_u8(TAG_FAILURE) + t1);
            lemma_read_write_u8(TAG_FAILURE, t1);
            lemma_read_write_u8(kind_tag(kind), t2);
            lemma_read_write_u32(code, t3);
            lemma_read_write_text(message, rest);
        },
    }
}

/// What reads as a call outcome is its encoding followed by the rest.
pub proof fn lemma_read_inverts_write_outcome(s: Seq<u8>)
    ensures
        read_outcome(s) matches Some((o, rest)) ==> outcome_fits(o) && write_outcome(o) + rest
            == s,
{
    reveal(read_outcome);
    lemma_read_inverts_write_u8(s);
    match read_u8(s) {
        Some((tag, s1)) => {
            if tag == TAG_SUCCESS {
                lemma_read_inverts_write_bytes(s1);
                match read_bytes(s1) {
                    Some((payload, s2)) => {
                        lemma_read_inverts_write_effects(s2);
                        match read_effects(s2) {
                            Some((effects, s3)) => {
                                assert(write_u8(tag) + write_bytes(payload) + write_effects(
                                    effects,
                                ) + s3 =~= write_u8(tag) + (write_bytes(payload) + (
                                write_effects(effects) + s3)));
                            },
                            None => {},
                        }
                    },
                    None => {},
                }
            } else if tag == TAG_FAILURE {
                lemma_read_inverts_write_u8(s1);
                match read_kind(s1) {
                    Some((kind, s2)) => {
                        lemma_read_inverts_write_u32(s2);
                        match read_u32(s2) {
                            Some((code, s3)) => {
                                lemma_read_inverts_write_text(s3);
                                match read_text(s3) {
                                    Some((message, s4)) => {
                                        assert(write_u8(tag) + write_u8(kind_tag(kind))
                                            + write_u32(code) + write_text(message) + s4
                                            =~= write_u8(tag) + (write_u8(kind_tag(kind)) + (
                                        write_u32(code) + (write_text(message) + s4))));
                                    },
                                    None => {},
                                }
                            },
                            None => {},
                        }
                    },
                    None => {},
                }
            }
        },
        None => {},
    }
}

/// Appends a call outcome.
pub fn put_outcome(out: &mut Vec<u8>, o: &CallOutcome)
    ensures
        final(out)@ == old(out)@ + write_outcome(o@),
        outcome_fits(o@),
{
    match o {
        CallOutcome::Success { payload, effects } => {
            put_u8(out, TAG_SUCCESS);
            put_bytes(out, payload.as_slice());
            put_effects(out, effects);
        },
        CallOutcome::Failure { kind, code, message } => {
            put_u8(out, TAG_FAILURE);
            let tag: u8 = match kind {
                FailureKind::Service => TAG_KIND_SERVICE,
                FailureKind::Runtime => TAG_KIND_RUNTIME,
            };
            put_u8(out, tag);
            put_u32(out, *code);
            put_text(out, message.as_str());
        },
    }
    assert(out@ =~= old(out)@ + write_outcome(o@));
}

/// Reads a kind of failure off the front of the input.
pub fn take_kind<'a>(input: &'a [u8]) -> (r: Option<(FailureKind, &'a [u8])>)
    ensures
        match r {
            Some((k, rest)) => read_kind(input@) == Some((k, rest@)),
            None => read_kind(input@) is None,
        },
{
    let (tag, s1) = match take_u8(input) {
        Some(p) => p,
        None => { return None; },
    };
    if tag == TAG_KIND_SERVICE {
        Some((FailureKind::Service, s1))
    } else if tag == TAG_KIND_RUNTIME {
        Some((FailureKind::Runtime, s1))
    } else {
        None
    }
}

/// Reads a call outcome off the front of the input.
pub fn take_outcome<'a>(input: &'a [u8]) -> (r: Option<(CallOutcome, &'a [u8])>)
    ensures
        match r {
            Some((o, rest)) => read_outcome(input@) == Some((o@, rest@)),
            None => read_outcome(input@) is None,
        },
{
    proof {
        reveal(read_outcome);
    }
    let (tag, s1) = match take_u8(input) {
        Some(p) => p,
        None => { return None; },
    };
    if tag == TAG_SUCCESS {
        let (payload, s2) = match take_bytes(s1) {
            Some(p) => p,
            None => { return None; },
        };
        let (effects, s3) = match take_effects(s2) {
            Some(p) => p,
            None => { return None; },
        };
        Some((CallOutcome::Success { payload: slice_to_vec(payload), effects }, s3))
    } else if tag == TAG_FAILURE {
        let (kind, s2) = match take_kind(s1) {
            Some(p) => p,
            None => { return None; },
        };
        let (code, s3) = match take_u32(s2) {
            Some(p) => p,
            None => { return None; },
        };
        let (message, s4) = match take_text(s3) {
            Some(p) => p,
            None => { return None; },
        };
        Some((CallOutcome::Failure { kind, code, message }, s4))
    } else {
        None
    }
}

// ---------------------------------------------------------------------------
// Whole values

/// What a reader yields when nothing may be left over: the value, if the
/// read succeeds and consumes the whole input.
pub open spec fn exactly<T>(r: Option<(T, Seq<u8>)>) -> Option<T> {
    match r {
        Some((v, rest)) => if rest.len() == 0 {
            Some(v)
        } else {
            None
        },
        None => None,
    }
}

/// What decodes as a value of the data model is the encoding of that value,
/// byte for byte.
pub proof fn lemma_decoded_values_are_encodings(s: Seq<u8>)
    ensures
        exactly(read_artifact(s)) matches Some(a) ==> artifact_fits(a) && s == write_artifact(a),
        exactly(read_instance(s)) matches Some(i) ==> instance_fits(i) && s == write_instance(i),
        exactly(read_call(s)) matches Some(c) ==> call_fits(c) && s == write_call(c),
        exactly(read_outcome(s)) matches Some(o) ==> outcome_fits(o) && s == write_outcome(o),
{
    lemma_read_inverts_write_artifact(s);
    lemma_read_inverts_write_instance(s);
    lemma_read_inverts_write_call(s);
    lemma_read_inverts_write_outcome(s);
    match read_artifact(s) {
        Some((a, rest)) => {
            if rest.len() == 0 {
                assert(write_artifact(a) + rest =~= write_artifact(a));
            }
        },
        None => {},
    }
    match read_instance(s) {
        Some((i, rest)) => {
            if rest.len() == 0 {
                assert(write_instance(i) + rest =~= write_instance(i));
            }
        },
        None => {},
    }
    match read_call(s) {
        Some((c, rest)) => {
            if rest.len() == 0 {
                assert(write_call(c) + rest =~= write_call(c));
            }
        },
        None => {},
    }
    match read_outcome(s) {
        Some((o, rest)) => {
            if rest.len() == 0 {
                assert(write_outcome(o) + rest =~= write_outcome(o));
            }
        },
        None => {},
    }
}

/// Decoding an encoded value gives the value back, for every value of the
/// data model that is short enough for its length prefixes.
pub proof fn lemma_decode_encode_values(
    artifact: ArtifactIdView,
    instance: ServiceInstanceSpecView,
    call: CallRequestView,
    outcome: CallOutcomeView,
)
    ensures
        artifact_fits(artifact) ==> exactly(read_artifact(write_artifact(artifact))) == Some(
            artifact,
        ),
        instance_fits(instance) ==> exactly(read_instance(write_instance(instance))) == Some(
            instance,
        ),
        call_fits(call) ==> exactly(read_call(write_call(call))) == Some(call),
        outcome_fits(outcome) ==> exactly(read_outcome(write_outcome(outcome))) == Some(outcome),
{
    let none = Seq::<u8>::empty();
    if artifact_fits(artifact) {
        lemma_read_write_artifact(artifact, none);
        assert(write_artifact(artifact) + none =~= write_artifact(artifact));
    }
    if instance_fits(instance) {
        lemma_read_write_instance(instance, none);
        assert(write_instance(instance) + none =~= write_instance(instance));
    }
    if call_fits(call) {
        lemma_read_write_call(call, none);
        assert(write_call(call) + none =~= write_call(call));
    }
    if outcome_fits(outcome) {
        lemma_read_write_outcome(outcome, none);
        assert(write_outcome(outcome) + none =~= write_outcome(outcome));
    }
}

/// Encodes an artifact identifier. Decoding the result gives it back.
pub fn encode_artifact(a: &ArtifactId) -> (out: Vec<u8>)
    ensures
        out@ == write_artifact(a@),
        exactly(read_artifact(out@)) == Some(a@),
{
    let mut out: Vec<u8> = Vec::new();
    put_artifact(&mut out, a);
    proof {
        assert(out@ =~= write_artifact(a@));
        lemma_read_write_artifact(a@, Seq::empty());
        assert(write_artifact(a@) + Seq::<u8>::empty() =~= write_artifact(a@));
    }
    out
}

/// Decodes an artifact identifier. Fails when the bytes are not exactly one.
pub fn decode_artifact(bytes: &[u8]) -> (r: Result<ArtifactId, DecodeError>)
    ensures
        match r {
            Ok(a) => exactly(read_artifact(bytes@)) == Some(a@) && bytes@ == write_artifact(a@),
            Err(e) => exactly(read_artifact(bytes@)) is None && e == DecodeError::Malformed,
        },
{
    proof {
        lemma_decoded_values_are_encodings(bytes@);
    }
    match take_artifact(bytes) {
        Some((a, rest)) => if rest.len() == 0 {
            Ok(a)
        } else {
            Err(DecodeError::Malformed)
        },
        None => Err(DecodeError::Malformed),
    }
}

/// Encodes a service instance. Decoding the result gives it back.
pub fn encode_instance(i: &ServiceInstanceSpec) -> (out: Vec<u8>)
    ensures
        out@ == write_instance(i@),
        exactly(read_instance(out@)) == Some(i@),
{
    let mut out: Vec<u8> = Vec::new();
    put_instance(&mut out, i);
    proof {
        assert(out@ =~= write_instance(i@));
        lemma_read_write_instance(i@, Seq::empty());
        assert(write_instance(i@) + Seq::<u8>::empty() =~= write_instance(i@));
    }
    out
}

/// Decodes a service instance. Fails when the bytes are not exactly one.
pub fn decode_instance(bytes: &[u8]) -> (r: Result<ServiceInstanceSpec, DecodeError>)
    ensures
        match r {
            Ok(i) => exactly(read_instance(bytes@)) == Some(i@) && bytes@ == write_instance(i@),
            Err(e) => exactly(read_instance(bytes@)) is None && e == DecodeError::Malformed,
        },
{
    proof {
        lemma_decoded_values_are_encodings(bytes@);
    }
    match take_instance(bytes) {
        Some((i, rest)) => if rest.len() == 0 {
            Ok(i)
        } else {
            Err(DecodeError::Malformed)
        },
        None => Err(DecodeError::Malformed),
    }
}

/// Encodes a call. Decoding the result gives it back.
pub fn encode_call(c: &CallRequest) -> (out: Vec<u8>)
    ensures
        out@ == write_call(c@),
        exactly(read_call(out@)) == Some(c@),
{
    let mut out: Vec<u8> = Vec::new();
    put_call(&mut out, c);
    proof {
        assert(out@ =~= write_call(c@));
        lemma_read_write_call(c@, Seq::empty());
        assert(write_call(c@) + Seq::<u8>::empty() =~= write_call(c@));
    }
    out
}

/// Decodes a call. Fails when the bytes are not exactly one.
pub fn decode_call(bytes: &[u8]) -> (r: Result<CallRequest, DecodeError>)
    ensures
        match r {
            Ok(c) => exactly(read_call(bytes@)) == Some(c@) && bytes@ == write_call(c@),
            Err(e) => exactly(read_call(bytes@)) is None && e == DecodeError::Malformed,
        },
{
    proof {
        lemma_decoded_values_are_encodings(bytes@);
    }
    match take_call(bytes) {
        Some((c, rest)) => if rest.len() == 0 {
            Ok(c)
        } else {
            Err(DecodeError::Malformed)
        },
        None => Err(DecodeError::Malformed),
    }
}

/// Encodes a call outcome. Decoding the result gives it back.
pub fn encode_outcome(o: &CallOutcome) -> (out: Vec<u8>)
    ensures
        out@ == write_outcome(o@),
        exactly(read_outcome(out@)) == Some(o@),
{
    let mut out: Vec<u8> = Vec::new();
    put_outcome(&mut out, o);
    proof {
        assert(out@ =~= write_outcome(o@));
        lemma_read_write_outcome(o@, Seq::empty());
        assert(write_outcome(o@) + Seq::<u8>::empty() =~= write_outcome(o@));
    }
    out
}

/// Decodes a call outcome. Fails when the bytes are not exactly one.
pub fn decode_outcome(bytes: &[u8]) -> (r: Result<CallOutcome, DecodeError>)
    ensures
        match r {
            Ok(o) => exactly(read_outcome(bytes@)) == Some(o@) && bytes@ == write_outcome(o@),
            Err(e) => exactly(read_outcome(bytes@)) is None && e == DecodeError::Malformed,
        },
{
    proof {
        lemma_decoded_values_are_encodings(bytes@);
    }
    match take_outcome(bytes) {
        Some((o, rest)) => if rest.len() == 0 {
            Ok(o)
        } else {
            Err(DecodeError::Malformed)
        },
        None => Err(DecodeError::Malformed),
    }
}

} // verus!
