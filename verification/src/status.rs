//! Build and deployment lifecycle states.
//!
//! A build moves Queued -> Building -> (Success | Failed) and never
//! leaves a terminal state.  A deployment moves Queued -> Deploying ->
//! Running -> Stopped, with Deploying -> Failed terminal.  The allowed
//! edges are reflexive, so rewriting a status to itself is permitted.

use crate::text::{seq_ci_eq, str_ci_eq};
use vstd::prelude::*;

verus! {

/// The lifecycle state of a build.
#[derive(Debug, Clone, Copy, PartialEq, Eq, Structural)]
pub enum BuildStatus {
    Queued,
    Building,
    Success,
    Failed,
}

impl BuildStatus {
    /// The lowercase token for this status, as stored and served.
    pub open spec fn spec_str(self) -> Seq<char> {
        match self {
            BuildStatus::Queued => "queued"@,
            BuildStatus::Building => "building"@,
            BuildStatus::Success => "success"@,
            BuildStatus::Failed => "failed"@,
        }
    }

    pub fn as_str(&self) -> (r: &'static str)
        ensures
            r@ == self.spec_str(),
    {
        match self {
            BuildStatus::Queued => "queued",
            BuildStatus::Building => "building",
            BuildStatus::Success => "success",
            BuildStatus::Failed => "failed",
        }
    }

    /// A build in a terminal state is never re-opened.
    pub open spec fn is_terminal(self) -> bool {
        self == BuildStatus::Success || self == BuildStatus::Failed
    }

    /// The allowed status transitions, reflexive.
    pub open spec fn can_step(self, to: BuildStatus) -> bool {
        ||| self == to
        ||| (self == BuildStatus::Queued && to == BuildStatus::Building)
        ||| (self == BuildStatus::Building && (to == BuildStatus::Success || to
            == BuildStatus::Failed))
    }

    /// What parsing a status token yields: the status whose lowercase
    /// token matches the input ignoring ASCII case.
    pub open spec fn parse_spec(s: Seq<char>) -> Option<BuildStatus> {
        if seq_ci_eq(s, "queued"@) {
            Some(BuildStatus::Queued)
        } else if seq_ci_eq(s, "building"@) {
            Some(BuildStatus::Building)
        } else if seq_ci_eq(s, "success"@) {
            Some(BuildStatus::Success)
        } else if seq_ci_eq(s, "failed"@) {
            Some(BuildStatus::Failed)
        } else {
            None
        }
    }

    /// Parses a status token, ignoring ASCII case.
    pub fn from_str(s: &str) -> (r: Option<BuildStatus>)
        ensures
            r == BuildStatus::parse_spec(s@),
    {
        if str_ci_eq(s, "queued") {
            Some(BuildStatus::Queued)
        } else if str_ci_eq(s, "building") {
            Some(BuildStatus::Building)
        } else if str_ci_eq(s, "success") {
            Some(BuildStatus::Success)
        } else if str_ci_eq(s, "failed") {
            Some(BuildStatus::Failed)
        } else {
            None
        }
    }
}

/// A build never transitions out of Success or Failed: every allowed
/// step from a terminal state is a self-loop.
pub proof fn lemma_build_status_monotone(from: BuildStatus, to: BuildStatus)
    requires
        from.can_step(to),
        from.is_terminal(),
    ensures
        to == from,
{
}

/// The lifecycle state of a deployment.
#[derive(Debug, Clone, Copy, PartialEq, Eq, Structural)]
pub enum DeployStatus {
    Queued,
    Deploying,
    Running,
    Failed,
    Stopped,
}

impl DeployStatus {
    /// The lowercase token for this status, as stored and served.
    pub open spec fn spec_str(self) -> Seq<char> {
        match self {
            DeployStatus::Queued => "queued"@,
            DeployStatus::Deploying => "deploying"@,
            DeployStatus::Running => "running"@,
            DeployStatus::Failed => "failed"@,
            DeployStatus::Stopped => "stopped"@,
        }
    }

    pub fn as_str(&self) -> (r: &'static str)
        ensures
            r@ == self.spec_str(),
    {
        match self {
            DeployStatus::Queued => "queued",
            DeployStatus::Deploying => "deploying",
            DeployStatus::Running => "running",
            DeployStatus::Failed => "failed",
            DeployStatus::Stopped => "stopped",
        }
    }

    /// Failed and Stopped are terminal for a deployment.
    pub open spec fn is_terminal(self) -> bool {
        self == DeployStatus::Failed || self == DeployStatus::Stopped
    }

    /// The allowed status transitions, reflexive: Queued -> Deploying ->
    /// (Running | Failed), and Running -> Stopped when retired.
    pub open spec fn can_step(self, to: DeployStatus) -> bool {
        ||| self == to
        ||| (self == DeployStatus::Queued && to == DeployStatus::Deploying)
        ||| (self == DeployStatus::Deploying && (to == DeployStatus::Running || to
            == DeployStatus::Failed))
        ||| (self == DeployStatus::Running && to == DeployStatus::Stopped)
    }

    /// What parsing a status token yields.
    pub open spec fn parse_spec(s: Seq<char>) -> Option<DeployStatus> {
        if seq_ci_eq(s, "queued"@) {
            Some(DeployStatus::Queued)
        } else if seq_ci_eq(s, "deploying"@) {
            Some(DeployStatus::Deploying)
        } else if seq_ci_eq(s, "running"@) {
            Some(DeployStatus::Running)
        } else if seq_ci_eq(s, "failed"@) {
            Some(DeployStatus::Failed)
        } else if seq_ci_eq(s, "stopped"@) {
            Some(DeployStatus::Stopped)
        } else {
            None
        }
    }

    /// Parses a status token, ignoring ASCII case.
    pub fn from_str(s: &str) -> (r: Option<DeployStatus>)
        ensures
            r == DeployStatus::parse_spec(s@),
    {
        if str_ci_eq(s, "queued") {
            Some(DeployStatus::Queued)
        } else if str_ci_eq(s, "deploying") {
            Some(DeployStatus::Deploying)
        } else if str_ci_eq(s, "running") {
            Some(DeployStatus::Running)
        } else if str_ci_eq(s, "failed") {
            Some(DeployStatus::Failed)
        } else if str_ci_eq(s, "stopped") {
            Some(DeployStatus::Stopped)
        } else {
            None
        }
    }
}

/// A deployment reaches Stopped only from Running (or by staying
/// Stopped): having a retired record implies the container once ran.
pub proof fn lemma_stopped_only_from_running(from: DeployStatus, to: DeployStatus)
    requires
        from.can_step(to),
        to == DeployStatus::Stopped,
    ensures
        from == DeployStatus::Running || from == DeployStatus::Stopped,
{
}

/// A deployment never transitions out of Failed or Stopped except that
/// a Stopped record stays Stopped.
pub proof fn lemma_deploy_status_terminal(from: DeployStatus, to: DeployStatus)
    requires
        from.can_step(to),
        from.is_terminal(),
    ensures
        to == from,
{
}

} // verus!
