use action_pull_request_lock::action::{
    lock_outcome, lock_request, start_message, success_message, Outcome,
};
use action_pull_request_lock::inputs::{ActionInputs, LockReason};

fn inputs(reason: LockReason) -> ActionInputs {
    ActionInputs {
        github_token: "t".into(),
        number: 7,
        lock_reason: reason,
    }
}

fn request_for(reason: LockReason) -> (u64, String) {
    let req = lock_request(&inputs(reason), "octo", "widget");
    assert_eq!(req.owner, "octo");
    assert_eq!(req.repo, "widget");
    (req.issue_number, req.lock_reason.to_string())
}

#[test]
fn lock_request_with_resolved_reason() {
    assert_eq!(request_for(LockReason::Resolved), (7, "resolved".to_string()));
    assert!(success_message().to_lowercase().contains("locked successfully"));
}

#[test]
fn lock_request_with_spam_reason() {
    assert_eq!(request_for(LockReason::Spam), (7, "spam".to_string()));
}

#[test]
fn lock_request_with_off_topic_reason() {
    assert_eq!(request_for(LockReason::OffTopic), (7, "off-topic".to_string()));
}

#[test]
fn lock_request_with_too_heated_reason() {
    assert_eq!(request_for(LockReason::TooHeated), (7, "too heated".to_string()));
}

#[test]
fn lock_failure_is_passed_on_unchanged() {
    let out: Result<Outcome, String> = lock_outcome(Err("API exploded".to_string()));
    assert_eq!(out.unwrap_err(), "API exploded");
    let out: Result<Outcome, String> = lock_outcome(Ok(()));
    assert_eq!(out.unwrap(), Outcome::Locked);
}

#[test]
fn start_message_names_issue_and_reason() {
    assert_eq!(
        start_message(&inputs(LockReason::Resolved)),
        "Locking issue #7 with reason 'resolved'"
    );
    let big = ActionInputs {
        github_token: "t".into(),
        number: 1234567890,
        lock_reason: LockReason::TooHeated,
    };
    assert_eq!(
        start_message(&big),
        "Locking issue #1234567890 with reason 'too heated'"
    );
    assert_eq!(success_message(), "Issue locked successfully.");
}
