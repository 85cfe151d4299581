use action_pull_request_lock::inputs::{
    input_env_name, ActionInputs, InputError, InputSource, LockReason, MapSource,
};
use action_pull_request_lock::number::ParseNumberError;

fn src(pairs: &[(&str, &str)]) -> MapSource {
    MapSource::new(pairs.iter().map(|(k, v)| (k.to_string(), v.to_string())).collect())
}

#[test]
fn input_env_name_uppercases_and_keeps_hyphens() {
    assert_eq!(input_env_name("github-token"), "INPUT_GITHUB-TOKEN");
    assert_eq!(input_env_name("lock reason"), "INPUT_LOCK_REASON");
}

#[test]
fn parses_full_input_set() {
    let s = src(&[
        ("github-token", "ghp_abc"),
        ("number", "42"),
        ("lock-reason", "spam"),
    ]);
    let inputs = ActionInputs::from_source(&s).unwrap();
    assert_eq!(inputs.github_token, "ghp_abc");
    assert_eq!(inputs.number, 42);
    assert_eq!(inputs.lock_reason, LockReason::Spam);
}

#[test]
fn applies_defaults_when_optional_missing() {
    let s = src(&[("github-token", "ghp_abc"), ("number", "1")]);
    let inputs = ActionInputs::from_source(&s).unwrap();
    assert_eq!(inputs.lock_reason, LockReason::Resolved);
}

#[test]
fn rejects_missing_token() {
    let s = src(&[("number", "1")]);
    let err = ActionInputs::from_source(&s).unwrap_err().message();
    assert!(err.contains("github-token"), "got: {}", err);
}

#[test]
fn rejects_empty_required_input() {
    let s = src(&[("github-token", ""), ("number", "1")]);
    let err = ActionInputs::from_source(&s).unwrap_err().message();
    assert!(err.contains("github-token"));
}

#[test]
fn rejects_non_numeric_number() {
    let s = src(&[("github-token", "x"), ("number", "abc")]);
    let err = ActionInputs::from_source(&s).unwrap_err().message();
    assert!(err.contains("number"));
}

#[test]
fn rejects_unknown_lock_reason() {
    let s = src(&[
        ("github-token", "x"),
        ("number", "1"),
        ("lock-reason", "bored"),
    ]);
    let err = ActionInputs::from_source(&s).unwrap_err().message();
    assert!(err.contains("lock-reason"));
}

#[test]
fn lock_reason_parses_all_variants() {
    assert_eq!(
        LockReason::parse("off-topic").unwrap(),
        LockReason::OffTopic
    );
    assert_eq!(
        LockReason::parse("too heated").unwrap(),
        LockReason::TooHeated
    );
    assert_eq!(LockReason::parse("resolved").unwrap(), LockReason::Resolved);
    assert_eq!(LockReason::parse("spam").unwrap(), LockReason::Spam);
    assert!(LockReason::parse("nope").is_err());
}

#[test]
fn lock_reason_names_read_back() {
    for r in [
        LockReason::OffTopic,
        LockReason::TooHeated,
        LockReason::Resolved,
        LockReason::Spam,
    ] {
        assert_eq!(LockReason::parse(r.as_str()).unwrap(), r);
    }
    assert_eq!(LockReason::OffTopic.as_str(), "off-topic");
    assert_eq!(LockReason::TooHeated.as_str(), "too heated");
    assert_eq!(LockReason::Resolved.as_str(), "resolved");
    assert_eq!(LockReason::Spam.as_str(), "spam");
}

#[test]
fn lock_reason_is_case_and_space_sensitive() {
    assert!(LockReason::parse("Spam").is_err());
    assert!(LockReason::parse(" spam").is_err());
    assert!(LockReason::parse("too-heated").is_err());
    assert!(LockReason::parse("").is_err());
}

#[test]
fn invalid_lock_reason_message_is_exact() {
    let err = LockReason::parse("bored").unwrap_err();
    assert_eq!(
        err.message(),
        "invalid lock-reason 'bored': expected one of off-topic, too heated, resolved, spam"
    );
}

#[test]
fn missing_input_message_is_exact() {
    let s = src(&[("github-token", "x")]);
    let err = ActionInputs::from_source(&s).unwrap_err();
    assert!(matches!(err, InputError::Missing { .. }));
    assert_eq!(err.message(), "Input required and not supplied: number");
}

#[test]
fn empty_number_is_missing() {
    let s = src(&[("github-token", "x"), ("number", "")]);
    let err = ActionInputs::from_source(&s).unwrap_err();
    assert_eq!(err.message(), "Input required and not supplied: number");
}

#[test]
fn token_is_checked_before_number() {
    let s = src(&[("number", "abc"), ("lock-reason", "bored")]);
    let err = ActionInputs::from_source(&s).unwrap_err();
    assert_eq!(err.message(), "Input required and not supplied: github-token");
}

#[test]
fn number_is_checked_before_lock_reason() {
    let s = src(&[("github-token", "x"), ("number", "abc"), ("lock-reason", "bored")]);
    let err = ActionInputs::from_source(&s).unwrap_err();
    assert_eq!(
        err.message(),
        "Input 'number' must be a positive integer: invalid digit found in string"
    );
}

#[test]
fn number_errors_name_their_kind() {
    let err = ActionInputs::from_values(Some("x".into()), Some("   ".into()), None).unwrap_err();
    assert!(matches!(err, InputError::InvalidNumber { kind: ParseNumberError::Empty }));
    assert_eq!(
        err.message(),
        "Input 'number' must be a positive integer: cannot parse integer from empty string"
    );
    let err = ActionInputs::from_values(
        Some("x".into()),
        Some("18446744073709551616".into()),
        None,
    )
    .unwrap_err();
    assert_eq!(
        err.message(),
        "Input 'number' must be a positive integer: number too large to fit in target type"
    );
}

#[test]
fn number_is_trimmed_and_may_carry_a_plus() {
    let inputs =
        ActionInputs::from_values(Some("t".into()), Some(" \t+42\n".into()), None).unwrap();
    assert_eq!(inputs.number, 42);
    let inputs = ActionInputs::from_values(
        Some("t".into()),
        Some("18446744073709551615".into()),
        Some("".into()),
    )
    .unwrap();
    assert_eq!(inputs.number, u64::MAX);
    assert_eq!(inputs.lock_reason, LockReason::Resolved);
}

#[test]
fn empty_lock_reason_defaults_to_resolved() {
    let s = src(&[("github-token", "x"), ("number", "3"), ("lock-reason", "")]);
    assert_eq!(ActionInputs::from_source(&s).unwrap().lock_reason, LockReason::Resolved);
}

#[test]
fn map_source_keeps_the_last_value_of_a_name() {
    let s = src(&[("number", "1"), ("lock-reason", "spam"), ("number", "2")]);
    assert_eq!(s.get("number"), Some("2".to_string()));
    assert_eq!(s.get("lock-reason"), Some("spam".to_string()));
    assert_eq!(s.get("github-token"), None);
    let inputs = ActionInputs::from_source(&src(&[
        ("github-token", "a"),
        ("github-token", "b"),
        ("number", "5"),
    ]))
    .unwrap();
    assert_eq!(inputs.github_token, "b");
}

#[test]
fn env_name_maps_only_spaces() {
    assert_eq!(input_env_name("number"), "INPUT_NUMBER");
    assert_eq!(input_env_name("a b c"), "INPUT_A_B_C");
    assert_eq!(input_env_name("lock-reason"), "INPUT_LOCK-REASON");
    assert_eq!(input_env_name(""), "INPUT_");
}

#[test]
fn end_to_end_inputs_with_default_reason() {
    let s = MapSource::new(vec![
        ("github-token".to_string(), "ghp_test".to_string()),
        ("number".to_string(), "42".to_string()),
    ]);
    let inputs = ActionInputs::from_source(&s).unwrap();
    assert_eq!(inputs.number, 42);
    assert_eq!(inputs.lock_reason, LockReason::Resolved);
}

#[test]
fn default_source_is_empty() {
    let s = MapSource::default();
    assert_eq!(s.get("github-token"), None);
    let err = ActionInputs::from_source(&s).unwrap_err();
    assert_eq!(err.message(), "Input required and not supplied: github-token");
}

#[test]
fn input_names_are_the_three_inputs() {
    assert_eq!(
        action_pull_request_lock::inputs::input_names(),
        vec!["github-token", "number", "lock-reason"]
    );
}
