use rust_interface::errors::{
    translate_channel_error, translate_decode_error, translate_worker_failure, ChannelError,
    DecodeError, ExecutionError,
};

#[test]
fn timeout_means_unavailable() {
    assert_eq!(translate_channel_error(ChannelError::Timeout), ExecutionError::Unavailable);
}

#[test]
fn disconnect_means_unavailable() {
    assert_eq!(translate_channel_error(ChannelError::Disconnected), ExecutionError::Unavailable);
}

#[test]
fn busy_channel_means_unavailable() {
    assert_eq!(translate_channel_error(ChannelError::Busy), ExecutionError::Unavailable);
}

#[test]
fn malformed_means_protocol_violation() {
    assert_eq!(
        translate_decode_error(DecodeError::Malformed),
        ExecutionError::ProtocolViolation
    );
}

#[test]
fn worker_failure_keeps_code_and_message() {
    assert_eq!(
        translate_worker_failure(42, String::from("insufficient funds")),
        ExecutionError::Application { code: 42, message: String::from("insufficient funds") }
    );
}

#[test]
fn only_application_failures_may_be_committed() {
    let app = ExecutionError::Application { code: 1, message: String::new() };
    assert!(app.is_deterministic());
    assert!(!app.aborts_block());
    for e in [
        ExecutionError::ProtocolViolation,
        ExecutionError::Unavailable,
        ExecutionError::SupervisorFatal,
    ] {
        assert!(!e.is_deterministic());
        assert!(e.aborts_block());
    }
}

#[test]
fn execution_error_clone_is_equal() {
    let e = ExecutionError::Application { code: 7, message: String::from("m") };
    assert_eq!(e.clone(), e);
    assert_eq!(ExecutionError::Unavailable.clone(), ExecutionError::Unavailable);
}
