//! Nimble: a single-host application deployment agent, verified.
//!
//! A submitted source archive is extracted into a per-build workspace,
//! built into a container image, and run as a container; the library
//! tracks builds, deployments and apps, and proves the state-machine
//! invariants that tie the build and deploy pipelines together.

pub mod agent;
pub mod api;
pub mod build_worker;
pub mod builders;
pub mod client;
pub mod config;
pub mod deploy_worker;
pub mod extract;
pub mod ids;
pub mod queue;
pub mod status;
pub mod store;
pub mod text;
