//! Agent configuration and the workspace layout.
//!
//! The run mode picks default data directories; all artifact paths are
//! derived here and nowhere else: the submitted archive, the per-build
//! extraction directory, and the state database.

use crate::ids::{format_id, id_str};
use crate::text::{seq_ci_eq, str_ci_eq};
use vstd::prelude::*;

verus! {

/// Whether the agent runs with development or production defaults.
#[derive(Debug, Clone, Copy, PartialEq, Eq, Structural)]
pub enum RunMode {
    Dev,
    Prod,
}

impl RunMode {
    /// Whether an environment value selects dev mode: one of `1`,
    /// `true`, `yes`, `on`, ignoring ASCII case.
    pub open spec fn dev_selected(val: Option<Seq<char>>) -> bool {
        match val {
            Some(s) => seq_ci_eq(s, "1"@) || seq_ci_eq(s, "true"@) || seq_ci_eq(s, "yes"@)
                || seq_ci_eq(s, "on"@),
            None => false,
        }
    }

    /// Decides the run mode from the value of the dev-mode environment
    /// variable, if it was set.  Anything but a truthy value, or an
    /// unset variable, means production.
    pub fn from_env_value(val: Option<&str>) -> (r: RunMode)
        ensures
            r == if RunMode::dev_selected(match val {
                Some(s) => Some(s@),
                None => None,
            }) {
                RunMode::Dev
            } else {
                RunMode::Prod
            },
    {
        match val {
            Some(s) => {
                if str_ci_eq(s, "1") || str_ci_eq(s, "true") || str_ci_eq(s, "yes") || str_ci_eq(
                    s,
                    "on",
                ) {
                    RunMode::Dev
                } else {
                    RunMode::Prod
                }
            },
            None => RunMode::Prod,
        }
    }
}

/// The agent's configuration: its run mode, and an optional explicit
/// data directory overriding the mode's default.
#[derive(Debug, Clone)]
pub struct AgentConfig {
    run_mode: RunMode,
    data_dir: Option<String>,
}

impl AgentConfig {
    /// The run mode this configuration was built with.
    pub closed spec fn mode(self) -> RunMode {
        self.run_mode
    }

    /// The explicit data directory, if one was set.
    pub closed spec fn explicit_dir(self) -> Option<Seq<char>> {
        match self.data_dir {
            Some(d) => Some(d@),
            None => None,
        }
    }

    /// Where the agent stores its data: the explicit directory if set,
    /// else `./data` in dev and `/var/lib/nimble` in prod.
    pub open spec fn data_dir_spec(self) -> Seq<char> {
        match self.explicit_dir() {
            Some(d) => d,
            None => if self.mode() == RunMode::Dev {
                "./data"@
            } else {
                "/var/lib/nimble"@
            },
        }
    }

    /// A configuration for the given run mode, with no explicit data
    /// directory.
    pub fn new(run_mode: RunMode) -> (r: AgentConfig)
        ensures
            r.mode() == run_mode,
            r.explicit_dir() is None,
    {
        AgentConfig { run_mode, data_dir: None }
    }

    /// Overrides the data directory.
    pub fn set_data_dir(&mut self, dir: String)
        ensures
            final(self).mode() == old(self).mode(),
            final(self).explicit_dir() == Some(dir@),
    {
        self.data_dir = Some(dir);
    }

    /// The resolved data directory.
    pub fn get_data_dir(&self) -> (r: String)
        ensures
            r@ == self.data_dir_spec(),
    {
        match &self.data_dir {
            Some(d) => d.clone(),
            None => match self.run_mode {
                RunMode::Dev => "./data".to_owned(),
                RunMode::Prod => "/var/lib/nimble".to_owned(),
            },
        }
    }

    /// The paths helper rooted at the resolved data directory.
    pub fn paths(&self) -> (r: Paths)
        ensures
            r.base() == self.data_dir_spec(),
    {
        Paths { base_dir: self.get_data_dir() }
    }
}

/// Derives every artifact path from the data directory.
pub struct Paths {
    base_dir: String,
}

impl Paths {
    /// The data directory the paths are rooted at.
    pub closed spec fn base(self) -> Seq<char> {
        self.base_dir@
    }

    /// Where a submitted archive is stored:
    /// `<data>/artifacts/source/<build_id>.tar.gz`.
    pub fn source_archive(&self, build_id: u128) -> (r: String)
        ensures
            r@ == self.base() + "/artifacts/source/"@ + id_str(build_id) + ".tar.gz"@,
    {
        let mut out = self.base_dir.clone();
        out.append("/artifacts/source/");
        let id = format_id(build_id);
        out.append(id.as_str());
        out.append(".tar.gz");
        out
    }

    /// Where a build's sources are extracted:
    /// `<data>/artifacts/build/<build_id>`.
    pub fn build_dir(&self, build_id: u128) -> (r: String)
        ensures
            r@ == self.base() + "/artifacts/build/"@ + id_str(build_id),
    {
        let mut out = self.base_dir.clone();
        out.append("/artifacts/build/");
        let id = format_id(build_id);
        out.append(id.as_str());
        out
    }

    /// Where the store's database file lives: `<data>/nimble.db`.
    pub fn database(&self) -> (r: String)
        ensures
            r@ == self.base() + "/nimble.db"@,
    {
        let mut out = self.base_dir.clone();
        out.append("/nimble.db");
        out
    }
}

} // verus!
