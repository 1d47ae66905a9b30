use nimble::status::{BuildStatus, DeployStatus};

#[test]
fn build_status_tokens() {
    assert_eq!(BuildStatus::Queued.as_str(), "queued");
    assert_eq!(BuildStatus::Building.as_str(), "building");
    assert_eq!(BuildStatus::Success.as_str(), "success");
    assert_eq!(BuildStatus::Failed.as_str(), "failed");
}

#[test]
fn build_status_parse_round_trips() {
    for s in [BuildStatus::Queued, BuildStatus::Building, BuildStatus::Success, BuildStatus::Failed]
    {
        assert_eq!(BuildStatus::from_str(s.as_str()), Some(s));
    }
}

#[test]
fn build_status_parse_ignores_case() {
    assert_eq!(BuildStatus::from_str("Queued"), Some(BuildStatus::Queued));
    assert_eq!(BuildStatus::from_str("SUCCESS"), Some(BuildStatus::Success));
}

#[test]
fn build_status_parse_rejects_unknown() {
    assert_eq!(BuildStatus::from_str("pending"), None);
    assert_eq!(BuildStatus::from_str(""), None);
}

#[test]
fn deploy_status_tokens() {
    assert_eq!(DeployStatus::Queued.as_str(), "queued");
    assert_eq!(DeployStatus::Deploying.as_str(), "deploying");
    assert_eq!(DeployStatus::Running.as_str(), "running");
    assert_eq!(DeployStatus::Failed.as_str(), "failed");
    assert_eq!(DeployStatus::Stopped.as_str(), "stopped");
}

#[test]
fn deploy_status_parse_round_trips() {
    for s in [
        DeployStatus::Queued,
        DeployStatus::Deploying,
        DeployStatus::Running,
        DeployStatus::Failed,
        DeployStatus::Stopped,
    ] {
        assert_eq!(DeployStatus::from_str(s.as_str()), Some(s));
    }
}

#[test]
fn deploy_status_parse_rejects_unknown() {
    assert_eq!(DeployStatus::from_str("live"), None);
}
