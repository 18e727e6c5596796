//! The commands that bootstrap, submit and inspect harness-managed sessions.

use std::path::PathBuf;
use vstd::prelude::*;

verus! {

/// What the user asks for.
#[derive(Debug)]
pub enum HarnessCommand {
    /// Provision and launch a session from a profile.
    Start {
        /// Profile source: local path or HTTP(S) URL.
        profile: String,
        /// Who is running the session.
        principal: Option<String>,
        /// Bearer token for fetching the profile and authenticating ingest.
        token: Option<String>,
        /// Directory to check the workspace out in.
        dir: Option<PathBuf>,
        /// Provision only, without launching a session.
        no_launch: bool,
    },
    /// Submit the state of the workspace and close the session.
    Submit {
        /// Note recorded with the submission.
        message: Option<String>,
    },
    /// Show the active session.
    Status {},
}

} // verus!
