use rust_interface::errors::ExecutionError;
use rust_interface::pending_deployment::{CompletionReport, PendingDeployments};
use rust_interface::types::{ArtifactId, DeploymentStatus};

fn a1() -> ArtifactId {
    ArtifactId { name: String::from("A1"), version: String::from("1.0.0") }
}

fn a2() -> ArtifactId {
    ArtifactId { name: String::from("A2"), version: String::from("1.0.0") }
}

#[test]
fn unknown_artifact_has_no_status() {
    let table = PendingDeployments::new();
    assert_eq!(table.status(&a1()), None);
    assert!(!table.is_active(&a1()));
    assert!(table.needs_request(&a1()));
}

#[test]
fn begin_makes_an_artifact_pending() {
    let mut table = PendingDeployments::new();
    assert_eq!(table.begin(&a1(), b"spec"), DeploymentStatus::Pending);
    assert_eq!(table.status(&a1()), Some(DeploymentStatus::Pending));
    assert!(!table.needs_request(&a1()));
    assert_eq!(table.status(&a2()), None);
}

#[test]
fn begin_twice_reports_the_same_status() {
    let mut table = PendingDeployments::new();
    let first = table.begin(&a1(), b"spec");
    assert!(!table.needs_request(&a1()));
    let second = table.begin(&a1(), b"other spec");
    assert_eq!(first, second);
    assert_eq!(second, DeploymentStatus::Pending);
}

#[test]
fn begin_on_an_active_artifact_reports_active() {
    let mut table = PendingDeployments::new();
    table.begin(&a1(), b"spec");
    assert_eq!(table.complete(&a1(), Ok(())), CompletionReport::Applied);
    assert!(!table.needs_request(&a1()));
    assert_eq!(table.begin(&a1(), b"spec"), DeploymentStatus::Active);
    assert_eq!(table.begin(&a1(), b"spec"), DeploymentStatus::Active);
    assert!(table.is_active(&a1()));
}

#[test]
fn complete_moves_pending_to_active() {
    let mut table = PendingDeployments::new();
    table.begin(&a1(), b"spec");
    assert_eq!(table.complete(&a1(), Ok(())), CompletionReport::Applied);
    assert_eq!(table.status(&a1()), Some(DeploymentStatus::Active));
}

#[test]
fn complete_moves_pending_to_failed_with_the_cause() {
    let mut table = PendingDeployments::new();
    table.begin(&a1(), b"spec");
    let cause = ExecutionError::Application { code: 9, message: String::from("bad artifact") };
    assert_eq!(table.complete(&a1(), Err(cause.clone())), CompletionReport::Applied);
    assert_eq!(table.status(&a1()), Some(DeploymentStatus::Failed(cause)));
    assert!(!table.is_active(&a1()));
}

#[test]
fn complete_for_an_unknown_artifact_changes_nothing() {
    let mut table = PendingDeployments::new();
    table.begin(&a1(), b"spec");
    assert_eq!(table.complete(&a2(), Ok(())), CompletionReport::UnknownArtifact);
    assert_eq!(table.status(&a2()), None);
    assert_eq!(table.status(&a1()), Some(DeploymentStatus::Pending));
}

#[test]
fn complete_after_the_end_changes_nothing() {
    let mut table = PendingDeployments::new();
    table.begin(&a1(), b"spec");
    table.complete(&a1(), Ok(()));
    assert_eq!(
        table.complete(&a1(), Err(ExecutionError::Unavailable)),
        CompletionReport::AlreadyTerminal
    );
    assert_eq!(table.status(&a1()), Some(DeploymentStatus::Active));

    table.begin(&a2(), b"spec");
    table.complete(&a2(), Err(ExecutionError::Unavailable));
    assert_eq!(table.complete(&a2(), Ok(())), CompletionReport::AlreadyTerminal);
    assert_eq!(
        table.status(&a2()),
        Some(DeploymentStatus::Failed(ExecutionError::Unavailable))
    );
}

#[test]
fn failed_artifact_can_be_asked_for_again() {
    let mut table = PendingDeployments::new();
    table.begin(&a1(), b"spec");
    table.complete(&a1(), Err(ExecutionError::Unavailable));
    assert!(table.needs_request(&a1()));
    assert_eq!(table.begin(&a1(), b"spec"), DeploymentStatus::Pending);
    assert_eq!(table.status(&a1()), Some(DeploymentStatus::Pending));
    assert_eq!(table.complete(&a1(), Ok(())), CompletionReport::Applied);
    assert!(table.is_active(&a1()));
}

#[test]
fn artifacts_do_not_disturb_each_other() {
    let mut table = PendingDeployments::new();
    table.begin(&a1(), b"one");
    table.begin(&a2(), b"two");
    table.complete(&a2(), Ok(()));
    assert_eq!(table.status(&a1()), Some(DeploymentStatus::Pending));
    assert_eq!(table.status(&a2()), Some(DeploymentStatus::Active));
    table.complete(&a1(), Err(ExecutionError::ProtocolViolation));
    assert_eq!(table.status(&a2()), Some(DeploymentStatus::Active));
}

#[test]
fn versions_are_different_artifacts() {
    let mut table = PendingDeployments::new();
    let newer = ArtifactId { name: String::from("A1"), version: String::from("1.0.1") };
    table.begin(&a1(), b"spec");
    table.complete(&a1(), Ok(()));
    assert_eq!(table.status(&newer), None);
    assert_eq!(table.begin(&newer, b"spec"), DeploymentStatus::Pending);
    assert!(table.is_active(&a1()));
}

#[test]
fn restore_records_an_artifact_as_active() {
    let mut table = PendingDeployments::new();
    table.restore(&a1(), b"spec");
    assert!(table.is_active(&a1()));
    table.begin(&a2(), b"spec");
    table.restore(&a2(), b"spec");
    assert!(table.is_active(&a2()));
    assert!(table.is_active(&a1()));
}
