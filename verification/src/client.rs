//! The CLI client's decisions.
//!
//! The client polls the agent while waiting for a build or a
//! deployment; the decision it takes on each observed status stands
//! here, and the HTTP polling around it stays outside the library.

use crate::status::{BuildStatus, DeployStatus};
use crate::text::str_eq;
use vstd::prelude::*;

verus! {

/// Arguments of the deploy command.
#[derive(Debug, Clone)]
pub struct DeployArgs {
    /// Directory containing the source to deploy.
    pub directory: String,
    /// Block until the build finishes.
    pub wait: bool,
}

/// Arguments of the build-listing command.
#[derive(Debug, Clone)]
pub struct BuildListArgs {
    /// Filter results by status token.
    pub status: Option<String>,
    /// Limit the number of results returned.
    pub limit: Option<u64>,
}

/// Arguments of the single-build command.
#[derive(Debug, Clone)]
pub struct BuildGetArgs {
    /// Build id to fetch.
    pub id: String,
}

/// Arguments of the single-deployment command.
#[derive(Debug, Clone)]
pub struct DeploymentGetArgs {
    /// Deployment id to fetch.
    pub deployment_id: String,
}

/// Arguments of the deployment-listing command.
#[derive(Debug, Clone)]
pub struct DeploymentListArgs {
    /// Filter by build id.
    pub build_id: Option<String>,
}

/// What the poller does after reading a status.
#[derive(Debug, Clone, Copy, PartialEq, Eq, Structural)]
pub enum PollAction {
    /// The watched record reached its goal; stop successfully.
    Done,
    /// The watched record failed; stop with an error.
    Fail,
    /// Not settled yet; sleep and poll again.
    Wait,
}

/// The decision taken on a build's served status token.
pub open spec fn build_poll_spec(status: Seq<char>) -> PollAction {
    if status == "success"@ || status == "succeeded"@ {
        PollAction::Done
    } else if status == "failed"@ || status == "errored"@ {
        PollAction::Fail
    } else {
        PollAction::Wait
    }
}

/// Decides what to do after polling a build: done on success, fail on
/// failure, keep waiting otherwise.
pub fn build_poll_action(status: &str) -> (r: PollAction)
    ensures
        r == build_poll_spec(status@),
{
    if str_eq(status, "success") || str_eq(status, "succeeded") {
        PollAction::Done
    } else if str_eq(status, "failed") || str_eq(status, "errored") {
        PollAction::Fail
    } else {
        PollAction::Wait
    }
}

/// The decision taken on a deployment's served status token.
pub open spec fn deployment_poll_spec(status: Seq<char>) -> PollAction {
    if status == "running"@ {
        PollAction::Done
    } else if status == "failed"@ || status == "errored"@ {
        PollAction::Fail
    } else {
        PollAction::Wait
    }
}

/// Decides what to do after polling a deployment: done once running,
/// fail on failure, keep waiting otherwise.
pub fn deployment_poll_action(status: &str) -> (r: PollAction)
    ensures
        r == deployment_poll_spec(status@),
{
    if str_eq(status, "running") {
        PollAction::Done
    } else if str_eq(status, "failed") || str_eq(status, "errored") {
        PollAction::Fail
    } else {
        PollAction::Wait
    }
}

/// Polling settles exactly on the tokens the agent serves: a build
/// poll is done on the Success token, fails on the Failed token, and
/// waits on the others; a deployment poll is done on the Running
/// token and fails on the Failed token.
pub proof fn lemma_poll_matches_served_tokens()
    ensures
        build_poll_spec(BuildStatus::Success.spec_str()) == PollAction::Done,
        build_poll_spec(BuildStatus::Failed.spec_str()) == PollAction::Fail,
        build_poll_spec(BuildStatus::Queued.spec_str()) == PollAction::Wait,
        build_poll_spec(BuildStatus::Building.spec_str()) == PollAction::Wait,
        deployment_poll_spec(DeployStatus::Running.spec_str()) == PollAction::Done,
        deployment_poll_spec(DeployStatus::Failed.spec_str()) == PollAction::Fail,
        deployment_poll_spec(DeployStatus::Queued.spec_str()) == PollAction::Wait,
        deployment_poll_spec(DeployStatus::Deploying.spec_str()) == PollAction::Wait,
{
    reveal_strlit("success");
    reveal_strlit("succeeded");
    reveal_strlit("failed");
    reveal_strlit("errored");
    reveal_strlit("queued");
    reveal_strlit("building");
    reveal_strlit("running");
    reveal_strlit("deploying");
    assert(("success"@)[0] == 's');
    assert(("succeeded"@)[0] == 's');
    assert(("failed"@)[0] == 'f');
    assert(("errored"@)[0] == 'e');
    assert(("queued"@)[0] == 'q');
    assert(("building"@)[0] == 'b');
    assert(("running"@)[0] == 'r');
    assert(("deploying"@)[0] == 'd');
}

} // verus!
