//! Release automation for a Rust workspace: reading the package manifest,
//! building the commands that test and publish the crate, and the decisions
//! that drive the continuous-integration pipeline.

pub mod text;
pub mod error;
pub mod manifest;
pub mod dry_run;
pub mod command;
pub mod git;
pub mod publish;
pub mod ci;
