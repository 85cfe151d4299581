use action_pull_request_lock::forge::{
    check_lock_status, is_success_status, lock_route, pick_forge, send_failure_message,
    str_ends_with, uses_custom_base_uri, Forge,
};

#[test]
fn route_for_issue() {
    assert_eq!(lock_route("octo", "widget", 42), "/repos/octo/widget/issues/42/lock");
    assert_eq!(lock_route("o", "r", 0), "/repos/o/r/issues/0/lock");
    assert_eq!(
        lock_route("o", "r", u64::MAX),
        "/repos/o/r/issues/18446744073709551615/lock"
    );
}

#[test]
fn success_is_the_2xx_class() {
    assert!(is_success_status(200));
    assert!(is_success_status(204));
    assert!(is_success_status(299));
    assert!(!is_success_status(199));
    assert!(!is_success_status(300));
    assert!(!is_success_status(403));
}

#[test]
fn status_204_is_accepted_on_both_forges() {
    let route = lock_route("octo", "widget", 42);
    for forge in [Forge::GitHub, Forge::Gitea] {
        assert!(check_lock_status(forge, 42, &route, "resolved", 204, "204 No Content").is_ok());
    }
}

#[test]
fn github_non_success_status_is_reported() {
    let route = lock_route("octo", "widget", 42);
    let msg = check_lock_status(Forge::GitHub, 42, &route, "resolved", 403, "403 Forbidden")
        .unwrap_err();
    assert!(msg.contains("failed to lock issue #42"), "unexpected error: {msg}");
    assert_eq!(
        msg,
        "failed to lock issue #42 with reason 'resolved': unexpected status 403 Forbidden"
    );
}

#[test]
fn gitea_non_success_status_names_issue_status_and_route() {
    let route = lock_route("octo", "widget", 42);
    let msg = check_lock_status(Forge::Gitea, 42, &route, "resolved", 403, "403 Forbidden")
        .unwrap_err();
    assert!(msg.contains("#42"));
    assert!(msg.contains("403"));
    assert!(msg.contains("/repos/octo/widget/issues/42/lock"));
    assert_eq!(
        msg,
        "failed to lock issue #42 (PUT /repos/octo/widget/issues/42/lock) with reason 'resolved': unexpected status 403 Forbidden"
    );
}

#[test]
fn send_failure_messages() {
    let route = lock_route("octo", "widget", 42);
    assert_eq!(
        send_failure_message(Forge::GitHub, 42, &route, "spam"),
        "failed to lock issue #42 with reason 'spam'"
    );
    assert_eq!(
        send_failure_message(Forge::Gitea, 42, &route, "spam"),
        "failed to send lock for issue #42 (PUT /repos/octo/widget/issues/42/lock) with reason 'spam'"
    );
}

#[test]
fn custom_base_uri_only_away_from_github_com() {
    assert!(!uses_custom_base_uri("https://api.github.com"));
    assert!(uses_custom_base_uri("https://api.github.com/"));
    assert!(uses_custom_base_uri("https://gitea.example.com/api/v1"));
    assert!(uses_custom_base_uri("http://127.0.0.1:4242"));
}

#[test]
fn gitea_is_picked_by_runner_flag_or_api_suffix() {
    assert_eq!(pick_forge(Some("true"), "https://api.github.com"), Forge::Gitea);
    assert_eq!(pick_forge(None, "https://gitea.example.com/api/v1"), Forge::Gitea);
    assert_eq!(pick_forge(Some("false"), "https://gitea.example.com/api/v1"), Forge::Gitea);
    assert_eq!(pick_forge(None, "https://api.github.com"), Forge::GitHub);
    assert_eq!(pick_forge(Some("false"), "https://ghe.example.com/api/v3"), Forge::GitHub);
    assert_eq!(pick_forge(Some("TRUE"), "https://api.github.com"), Forge::GitHub);
    assert_eq!(pick_forge(None, "https://gitea.example.com/api/v1/"), Forge::GitHub);
}

#[test]
fn suffix_check() {
    assert!(str_ends_with("abc", "bc"));
    assert!(str_ends_with("abc", ""));
    assert!(str_ends_with("abc", "abc"));
    assert!(!str_ends_with("bc", "abc"));
    assert!(!str_ends_with("abc", "ab"));
}
