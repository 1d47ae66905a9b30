use nimble::client::{build_poll_action, deployment_poll_action, PollAction};
use nimble::text::{dec_string, str_ci_eq, str_contains, str_eq, trim};

#[test]
fn build_polling_settles_on_terminal_statuses() {
    assert_eq!(build_poll_action("success"), PollAction::Done);
    assert_eq!(build_poll_action("succeeded"), PollAction::Done);
    assert_eq!(build_poll_action("failed"), PollAction::Fail);
    assert_eq!(build_poll_action("errored"), PollAction::Fail);
    assert_eq!(build_poll_action("queued"), PollAction::Wait);
    assert_eq!(build_poll_action("building"), PollAction::Wait);
}

#[test]
fn deployment_polling_settles_once_running() {
    assert_eq!(deployment_poll_action("running"), PollAction::Done);
    assert_eq!(deployment_poll_action("failed"), PollAction::Fail);
    assert_eq!(deployment_poll_action("errored"), PollAction::Fail);
    assert_eq!(deployment_poll_action("deploying"), PollAction::Wait);
    assert_eq!(deployment_poll_action("queued"), PollAction::Wait);
}

#[test]
fn text_helpers_behave() {
    assert!(str_eq("abc", "abc"));
    assert!(!str_eq("abc", "abd"));
    assert!(str_ci_eq("DockerFile", "dockerfile"));
    assert!(!str_ci_eq("docker", "dockerfile"));
    assert_eq!(trim("  x y\t\n"), "x y");
    assert!(str_contains("Error: no such container: x", "no such container"));
    assert!(!str_contains("ok", "no such container"));
    assert_eq!(dec_string(0), "0");
    assert_eq!(dec_string(8080), "8080");
    assert_eq!(dec_string(u64::MAX), "18446744073709551615");
}
