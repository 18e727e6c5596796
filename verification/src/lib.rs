//! Identity, observability and policy for harness-managed agent sessions.

pub mod command;
pub mod context;
pub mod events;
pub mod git;
pub mod glob;
pub mod harness;
pub mod inspector;
pub mod json;
pub mod message;
pub mod path;
pub mod policy;
pub mod profile;
pub mod provision;
pub mod sink;
pub mod status;
pub mod submission;
pub mod text;
