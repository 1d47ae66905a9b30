//! The per-submission project configuration, loaded from the
//! `nimble.yaml` found in an extracted source tree.
//!
//! Three fields matter: `builder` (required; selects the build
//! strategy, case-insensitive), `app` (required; the logical
//! application name, non-empty), and `port` (optional; the in-container
//! port to publish, 1 to 65535, defaulting to 8080; a value outside
//! that range is rejected).  A `port` entry that is present but not an
//! integer is treated as absent.  An `app` entry that is present but
//! empty counts as missing.
//!
//! YAML itself is handled by an outside parser behind trusted wrappers;
//! what the wrappers return is named by uninterpreted functions of the
//! document text, and everything after them is verified.

use crate::text::{seq_ci_eq, str_ci_eq};
use vstd::prelude::*;

verus! {

/// Whether a document is well-formed YAML, as the outside parser
/// decides it.
pub uninterp spec fn yaml_parses(doc: Seq<char>) -> bool;

/// The string value at a top-level key of a document, if the document
/// parses, has the key, and the value is a string.
pub uninterp spec fn yaml_str_field(doc: Seq<char>, key: Seq<char>) -> Option<Seq<char>>;

/// The integer value at a top-level key of a document, if the document
/// parses, has the key, and the value is an integer that fits i64.
pub uninterp spec fn yaml_int_field(doc: Seq<char>, key: Seq<char>) -> Option<int>;

/// Relies on serde_yaml::from_str::<Value>: returns the parse error's
/// message, or None on a well-formed document.  Success depends on the
/// document text alone; nothing is promised of the message.
#[verifier::external_body]
fn yaml_check(doc: &str) -> (r: Option<String>)
    ensures
        (r is None) == yaml_parses(doc@),
{
    match serde_yaml::from_str::<serde_yaml::Value>(doc) {
        Ok(_) => None,
        Err(e) => Some(e.to_string()),
    }
}

/// Relies on serde_yaml::from_str, Value::get and Value::as_str: the
/// string at a top-level key.  The result depends on the document text
/// and key alone; an ill-formed document has no fields.
#[verifier::external_body]
fn yaml_get_str(doc: &str, key: &str) -> (r: Option<String>)
    ensures
        r.deep_view() == yaml_str_field(doc@, key@),
        !yaml_parses(doc@) ==> r is None,
{
    match serde_yaml::from_str::<serde_yaml::Value>(doc) {
        Ok(v) => v.get(key).and_then(|x| x.as_str()).map(|s| s.to_string()),
        Err(_) => None,
    }
}

/// Relies on serde_yaml::from_str, Value::get and Value::as_i64: the
/// integer at a top-level key.  The result depends on the document text
/// and key alone; an ill-formed document has no fields.
#[verifier::external_body]
fn yaml_get_int(doc: &str, key: &str) -> (r: Option<i64>)
    ensures
        match yaml_int_field(doc@, key@) {
            Some(v) => (r matches Some(x) && x == v),
            None => r is None,
        },
        !yaml_parses(doc@) ==> r is None,
{
    match serde_yaml::from_str::<serde_yaml::Value>(doc) {
        Ok(v) => v.get(key).and_then(|x| x.as_i64()),
        Err(_) => None,
    }
}

/// The build strategy a submission selects.
#[derive(Debug, Clone, Copy, PartialEq, Eq, Structural)]
pub enum BuilderType {
    /// Build from a Dockerfile in the source tree.
    Dockerfile,
    /// Build a Go project; reserved, currently refused.
    Go,
}

/// An error loading or parsing a project configuration.
#[derive(Debug, Clone, PartialEq, Eq)]
pub enum ConfigError {
    /// The file could not be read.
    IoError(String),
    /// The document is not well-formed YAML.
    ParseError(String),
    /// A required field is absent (or, for `app`, empty).
    MissingField(String),
    /// The `builder` value names no known strategy.
    InvalidBuilder(String),
    /// The `port` value lies outside 1 to 65535.
    InvalidPort(i64),
}

impl ConfigError {
    /// The human-readable description of this error.
    pub fn message(&self) -> (r: String)
        ensures
            r@ == match self {
                ConfigError::IoError(m) => "I/O error: "@ + m@,
                ConfigError::ParseError(m) => "Parse error: "@ + m@,
                ConfigError::MissingField(f) => "Missing required field: "@ + f@,
                ConfigError::InvalidBuilder(b) => "Invalid builder type: "@ + b@
                    + ". Valid options: dockerfile, go"@,
                ConfigError::InvalidPort(_) => "Invalid port: expected 1 to 65535"@,
            },
    {
        match self {
            ConfigError::IoError(m) => {
                let mut out = "I/O error: ".to_owned();
                out.append(m.as_str());
                out
            },
            ConfigError::ParseError(m) => {
                let mut out = "Parse error: ".to_owned();
                out.append(m.as_str());
                out
            },
            ConfigError::MissingField(f) => {
                let mut out = "Missing required field: ".to_owned();
                out.append(f.as_str());
                out
            },
            ConfigError::InvalidBuilder(b) => {
                let mut out = "Invalid builder type: ".to_owned();
                out.append(b.as_str());
                out.append(". Valid options: dockerfile, go");
                out
            },
            ConfigError::InvalidPort(_) => "Invalid port: expected 1 to 65535".to_owned(),
        }
    }
}

impl BuilderType {
    /// What parsing a builder name yields: the strategy whose name
    /// matches ignoring ASCII case.
    pub open spec fn parse_spec(s: Seq<char>) -> Option<BuilderType> {
        if seq_ci_eq(s, "dockerfile"@) {
            Some(BuilderType::Dockerfile)
        } else if seq_ci_eq(s, "go"@) {
            Some(BuilderType::Go)
        } else {
            None
        }
    }

    /// Parses a builder name, ignoring ASCII case.  An unknown name is
    /// an InvalidBuilder error carrying the offending value.
    pub fn from_str(s: &str) -> (r: Result<BuilderType, ConfigError>)
        ensures
            match BuilderType::parse_spec(s@) {
                Some(b) => r == Ok::<BuilderType, ConfigError>(b),
                None => r matches Err(ConfigError::InvalidBuilder(m)) && m@ == s@,
            },
    {
        if str_ci_eq(s, "dockerfile") {
            Ok(BuilderType::Dockerfile)
        } else if str_ci_eq(s, "go") {
            Ok(BuilderType::Go)
        } else {
            Err(ConfigError::InvalidBuilder(s.to_owned()))
        }
    }
}

/// The in-container port published when a submission does not name one.
pub const DEFAULT_PORT: u16 = 8080;

/// A parsed project configuration.
#[derive(Debug, Clone)]
pub struct NimbleConfig {
    /// The build strategy to use.
    pub builder_type: BuilderType,
    /// The logical application name deployments are grouped under.
    pub app: String,
    /// The in-container port to publish.
    pub port: u16,
}

impl NimbleConfig {
    /// Parses a configuration from YAML text.
    ///
    /// Exactly one of the following holds, checked in this order:
    /// the document does not parse (ParseError); `builder` is absent
    /// (MissingField); `builder` names no strategy (InvalidBuilder);
    /// `app` is absent or empty (MissingField); `port` is present and
    /// out of range (InvalidPort); otherwise the configuration, with
    /// `port` defaulting to 8080 when absent.
    pub fn from_str(yaml: &str) -> (r: Result<NimbleConfig, ConfigError>)
        ensures
            !yaml_parses(yaml@) ==> r matches Err(ConfigError::ParseError(_)),
            yaml_parses(yaml@) ==> match yaml_str_field(yaml@, "builder"@) {
                None => (r matches Err(ConfigError::MissingField(f)) && f@ == "builder"@),
                Some(b) => match BuilderType::parse_spec(b) {
                    None => (r matches Err(ConfigError::InvalidBuilder(m)) && m@ == b),
                    Some(bt) => match yaml_str_field(yaml@, "app"@) {
                        None => (r matches Err(ConfigError::MissingField(f)) && f@ == "app"@),
                        Some(a) => if a.len() == 0 {
                            (r matches Err(ConfigError::MissingField(f)) && f@ == "app"@)
                        } else {
                            match yaml_int_field(yaml@, "port"@) {
                                None => (r matches Ok(c) && c.builder_type == bt && c.app@ == a
                                    && c.port == DEFAULT_PORT),
                                Some(p) => if 1 <= p <= 65535 {
                                    (r matches Ok(c) && c.builder_type == bt && c.app@ == a
                                        && c.port == p)
                                } else {
                                    (r matches Err(ConfigError::InvalidPort(q)) && q == p)
                                },
                            }
                        },
                    },
                },
            },
    {
        if let Some(msg) = yaml_check(yaml) {
            return Err(ConfigError::ParseError(msg));
        }
        let builder_str = match yaml_get_str(yaml, "builder") {
            Some(s) => s,
            None => {
                return Err(ConfigError::MissingField("builder".to_owned()));
            },
        };
        let builder_type = match BuilderType::from_str(builder_str.as_str()) {
            Ok(b) => b,
            Err(e) => {
                return Err(e);
            },
        };
        let app = match yaml_get_str(yaml, "app") {
            Some(a) => a,
            None => {
                return Err(ConfigError::MissingField("app".to_owned()));
            },
        };
        if app.as_str().is_empty() {
            return Err(ConfigError::MissingField("app".to_owned()));
        }
        let port: u16 = match yaml_get_int(yaml, "port") {
            None => DEFAULT_PORT,
            Some(p) => {
                if 1 <= p && p <= 65535 {
                    p as u16
                } else {
                    return Err(ConfigError::InvalidPort(p));
                }
            },
        };
        Ok(NimbleConfig { builder_type, app, port })
    }
}

} // verus!
