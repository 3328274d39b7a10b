use rust_interface::types::{
    ArtifactId, CallOutcome, CallRequest, DeploymentStatus, ExecutionContext, FailureKind,
    ServiceInstanceSpec, StateEffect,
};
use rust_interface::errors::ExecutionError;
use rust_interface::errors::DecodeError;
use rust_interface::wire::{
    decode_artifact, decode_call, decode_instance, decode_outcome, encode_artifact, encode_call,
    encode_instance, encode_outcome, put_artifact, put_call, put_context, put_effect, put_effects, put_instance, put_outcome,
    take_artifact, take_call, take_context, take_effect, take_effects, take_instance,
    take_outcome,
};

fn artifact() -> ArtifactId {
    ArtifactId { name: String::from("token"), version: String::from("1.2.0") }
}

fn context() -> ExecutionContext {
    ExecutionContext { height: 77, caller: vec![0xca, 0xfe], budget: 5000 }
}

#[test]
fn artifact_encoding_is_name_then_version() {
    let a = ArtifactId { name: String::from("ab"), version: String::from("1") };
    let mut out = Vec::new();
    put_artifact(&mut out, &a);
    assert_eq!(
        out,
        vec![2, 0, 0, 0, 0, 0, 0, 0, b'a', b'b', 1, 0, 0, 0, 0, 0, 0, 0, b'1']
    );
}

#[test]
fn artifact_round_trips() {
    let a = artifact();
    let mut out = Vec::new();
    put_artifact(&mut out, &a);
    out.push(5);
    let (b, rest) = take_artifact(&out).unwrap();
    assert_eq!(b, a);
    assert_eq!(rest, &[5]);
}

#[test]
fn artifact_with_empty_fields_round_trips() {
    let a = ArtifactId { name: String::new(), version: String::new() };
    let mut out = Vec::new();
    put_artifact(&mut out, &a);
    let (b, rest) = take_artifact(&out).unwrap();
    assert_eq!(b, a);
    assert!(rest.is_empty());
}

#[test]
fn truncated_artifact_is_refused() {
    let mut out = Vec::new();
    put_artifact(&mut out, &artifact());
    for cut in 0..out.len() {
        assert!(take_artifact(&out[..cut]).is_none());
    }
}

#[test]
fn artifacts_compare_by_name_and_version() {
    let a = artifact();
    assert!(a.same(&a.clone()));
    assert!(!a.same(&ArtifactId { name: String::from("token"), version: String::from("1.2.1") }));
    assert!(!a.same(&ArtifactId { name: String::from("tokem"), version: String::from("1.2.0") }));
}

#[test]
fn context_round_trips() {
    let c = context();
    let mut out = Vec::new();
    put_context(&mut out, &c);
    let (d, rest) = take_context(&out).unwrap();
    assert_eq!(d, c);
    assert!(rest.is_empty());
    assert_eq!(out.len(), 8 + 8 + 2 + 8);
}

#[test]
fn instance_round_trips() {
    let i = ServiceInstanceSpec { instance_id: 9, artifact: artifact(), args: b"args".to_vec() };
    let mut out = Vec::new();
    put_instance(&mut out, &i);
    let (j, rest) = take_instance(&out).unwrap();
    assert_eq!(j, i);
    assert!(rest.is_empty());
    assert_eq!(i.clone(), i);
}

#[test]
fn call_round_trips() {
    let c = CallRequest {
        instance_id: u32::MAX,
        method: String::from("transfer"),
        payload: vec![1, 2, 3, 4],
        context: context(),
    };
    let mut out = Vec::new();
    put_call(&mut out, &c);
    out.extend_from_slice(&[0, 0]);
    let (d, rest) = take_call(&out).unwrap();
    assert_eq!(d, c);
    assert_eq!(rest, &[0, 0]);
    assert_eq!(c.clone(), c);
}

#[test]
fn effect_encodings_are_tagged() {
    let mut out = Vec::new();
    put_effect(&mut out, &StateEffect::Put { key: vec![1], value: vec![2, 3] });
    assert_eq!(out, vec![0, 1, 0, 0, 0, 0, 0, 0, 0, 1, 2, 0, 0, 0, 0, 0, 0, 0, 2, 3]);
    let mut out = Vec::new();
    put_effect(&mut out, &StateEffect::Delete { key: vec![9] });
    assert_eq!(out, vec![1, 1, 0, 0, 0, 0, 0, 0, 0, 9]);
}

#[test]
fn effect_round_trips() {
    for e in [
        StateEffect::Put { key: b"k".to_vec(), value: b"v".to_vec() },
        StateEffect::Put { key: vec![], value: vec![] },
        StateEffect::Delete { key: b"gone".to_vec() },
    ] {
        let mut out = Vec::new();
        put_effect(&mut out, &e);
        let (f, rest) = take_effect(&out).unwrap();
        assert_eq!(f, e);
        assert!(rest.is_empty());
    }
}

#[test]
fn effect_with_unknown_tag_is_refused() {
    assert!(take_effect(&[2, 0, 0, 0, 0, 0, 0, 0, 0]).is_none());
    assert!(take_effect(&[]).is_none());
}

#[test]
fn effect_list_round_trips_in_order() {
    let list = vec![
        StateEffect::Put { key: b"a".to_vec(), value: b"1".to_vec() },
        StateEffect::Delete { key: b"b".to_vec() },
        StateEffect::Put { key: b"c".to_vec(), value: b"3".to_vec() },
    ];
    let mut out = Vec::new();
    put_effects(&mut out, &list);
    assert_eq!(&out[..8], &[3, 0, 0, 0, 0, 0, 0, 0]);
    out.push(0xee);
    let (back, rest) = take_effects(&out).unwrap();
    assert_eq!(back, list);
    assert_eq!(rest, &[0xee]);
}

#[test]
fn empty_effect_list_round_trips() {
    let mut out = Vec::new();
    put_effects(&mut out, &Vec::new());
    assert_eq!(out, vec![0; 8]);
    let (back, rest) = take_effects(&out).unwrap();
    assert!(back.is_empty());
    assert!(rest.is_empty());
}

#[test]
fn effect_list_shorter_than_its_count_is_refused() {
    let mut out = Vec::new();
    put_effects(&mut out, &vec![StateEffect::Delete { key: vec![1] }]);
    out[0] = 2;
    assert!(take_effects(&out).is_none());
    let huge = [0xffu8; 8];
    assert!(take_effects(&huge).is_none());
}

#[test]
fn successful_outcome_round_trips() {
    let o = CallOutcome::Success {
        payload: b"ok".to_vec(),
        effects: vec![StateEffect::Put { key: b"k".to_vec(), value: b"v".to_vec() }],
    };
    let mut out = Vec::new();
    put_outcome(&mut out, &o);
    let (p, rest) = take_outcome(&out).unwrap();
    assert_eq!(p, o);
    assert!(rest.is_empty());
    assert_eq!(o.clone(), o);
}

#[test]
fn failed_outcome_round_trips() {
    for kind in [FailureKind::Service, FailureKind::Runtime] {
        let o = CallOutcome::Failure { kind, code: 42, message: String::from("no") };
        let mut out = Vec::new();
        put_outcome(&mut out, &o);
        let (p, rest) = take_outcome(&out).unwrap();
        assert_eq!(p, o);
        assert!(rest.is_empty());
    }
}

#[test]
fn failed_outcome_encoding_is_exact() {
    let o = CallOutcome::Failure {
        kind: FailureKind::Runtime,
        code: 0x0102,
        message: String::from("x"),
    };
    let mut out = Vec::new();
    put_outcome(&mut out, &o);
    assert_eq!(out, vec![1, 1, 2, 1, 0, 0, 1, 0, 0, 0, 0, 0, 0, 0, b'x']);
}

#[test]
fn outcome_with_bad_tags_is_refused() {
    assert!(take_outcome(&[2]).is_none());
    assert!(take_outcome(&[1, 2, 0, 0, 0, 0, 0, 0, 0, 0, 0, 0, 0, 0]).is_none());
    assert!(take_outcome(&[]).is_none());
}

#[test]
fn outcome_with_bad_message_is_refused() {
    let bytes = [1u8, 0, 7, 0, 0, 0, 1, 0, 0, 0, 0, 0, 0, 0, 0xff];
    assert!(take_outcome(&bytes).is_none());
}

#[test]
fn deployment_status_knows_its_kind() {
    assert!(DeploymentStatus::Active.is_active());
    assert!(!DeploymentStatus::Pending.is_active());
    assert!(!DeploymentStatus::Pending.is_terminal());
    assert!(DeploymentStatus::Active.is_terminal());
    let failed = DeploymentStatus::Failed(ExecutionError::Unavailable);
    assert!(failed.is_terminal());
    assert!(!failed.is_active());
    assert_eq!(failed.clone(), failed);
}

#[test]
fn whole_values_round_trip() {
    let a = artifact();
    assert_eq!(decode_artifact(&encode_artifact(&a)), Ok(a.clone()));
    let i = ServiceInstanceSpec { instance_id: 2, artifact: a, args: vec![1, 2] };
    assert_eq!(decode_instance(&encode_instance(&i)), Ok(i.clone()));
    let c = CallRequest {
        instance_id: 2,
        method: String::from("m"),
        payload: vec![],
        context: context(),
    };
    assert_eq!(decode_call(&encode_call(&c)), Ok(c.clone()));
    let o = CallOutcome::Failure { kind: FailureKind::Service, code: 1, message: String::new() };
    assert_eq!(decode_outcome(&encode_outcome(&o)), Ok(o.clone()));
}

#[test]
fn whole_values_with_bytes_left_over_are_malformed() {
    let mut bytes = encode_artifact(&artifact());
    bytes.push(0);
    assert_eq!(decode_artifact(&bytes), Err(DecodeError::Malformed));
    let mut bytes = encode_outcome(&CallOutcome::Success { payload: vec![], effects: vec![] });
    bytes.push(0);
    assert_eq!(decode_outcome(&bytes), Err(DecodeError::Malformed));
    assert_eq!(decode_call(&[]), Err(DecodeError::Malformed));
    assert_eq!(decode_instance(&[1, 2, 3]), Err(DecodeError::Malformed));
}

#[test]
fn encoding_matches_the_streaming_writer() {
    let a = artifact();
    let mut out = Vec::new();
    put_artifact(&mut out, &a);
    assert_eq!(encode_artifact(&a), out);
}
