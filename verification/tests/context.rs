//! Contexts, their files, and how they are found.

use goose_harness::context::{
    discover_context_path, Discovery, HarnessContext, IngestConfig, CONTEXT_FILE, EVENTS_FILE,
    HARNESS_CONTEXT_ENV, HARNESS_DIR,
};
use goose_harness::policy::HarnessPolicy;
use std::path::PathBuf;

fn context(workspace: &str) -> HarnessContext {
    HarnessContext {
        harness_session_id: "hs-test".into(),
        principal: Some("cand-42".into()),
        profile_id: Some("exam/demo".into()),
        workspace: PathBuf::from(workspace),
        base_commit: None,
        ingest: Some(IngestConfig {
            endpoint: "https://ingest.example.com".into(),
            token: None,
        }),
        policy: HarnessPolicy {
            deny: vec!["x".into()],
            require_approval: vec![],
        },
    }
}

/// Runs a search among the given files, and counts the questions it asks.
fn search(explicit: Option<&str>, cwd: Option<&str>, files: &[&str]) -> (Option<PathBuf>, usize) {
    let mut state = discover_context_path(explicit.map(PathBuf::from), cwd.map(PathBuf::from));
    let mut asked = 0;
    while let Some(candidate) = state.candidate() {
        asked += 1;
        let is_file = files.iter().any(|f| candidate == PathBuf::from(f));
        state = state.answer(is_file);
    }
    match state {
        Discovery::Found(path) => (Some(path), asked),
        _ => (None, asked),
    }
}

#[test]
fn names() {
    assert_eq!(HARNESS_CONTEXT_ENV, "GOOSE_HARNESS_CONTEXT");
    assert_eq!(HARNESS_DIR, ".goose-harness");
    assert_eq!(CONTEXT_FILE, "session.json");
    assert_eq!(EVENTS_FILE, "events.jsonl");
}

#[test]
fn harness_files_lie_in_the_workspace() {
    let ctx = context("/work/space");
    assert_eq!(ctx.harness_dir(), PathBuf::from("/work/space/.goose-harness"));
    assert_eq!(
        ctx.context_path(),
        PathBuf::from("/work/space/.goose-harness/session.json")
    );
    assert_eq!(
        ctx.events_path(),
        PathBuf::from("/work/space/.goose-harness/events.jsonl")
    );
    assert_eq!(context("").harness_dir(), PathBuf::from(".goose-harness"));
}

#[test]
fn a_copy_says_the_same() {
    let ctx = context("/w");
    let copy = ctx.clone();
    assert_eq!(copy.harness_session_id, "hs-test");
    assert_eq!(copy.principal.as_deref(), Some("cand-42"));
    assert_eq!(copy.profile_id.as_deref(), Some("exam/demo"));
    assert_eq!(copy.workspace, ctx.workspace);
    assert_eq!(copy.base_commit, None);
    assert_eq!(copy.ingest.unwrap().endpoint, "https://ingest.example.com");
    assert_eq!(copy.policy.deny, vec!["x".to_string()]);
}

#[test]
fn the_nearest_ancestor_wins() {
    let files = ["/a/.goose-harness/session.json", "/a/b/.goose-harness/session.json"];
    assert_eq!(
        search(None, Some("/a/b/c"), &files),
        (Some(PathBuf::from("/a/b/.goose-harness/session.json")), 2)
    );
    assert_eq!(
        search(None, Some("/a/b"), &files),
        (Some(PathBuf::from("/a/b/.goose-harness/session.json")), 1)
    );
    assert_eq!(
        search(None, Some("/a/x/y"), &files),
        (Some(PathBuf::from("/a/.goose-harness/session.json")), 3)
    );
}

#[test]
fn a_stored_session_is_found_from_inside_its_workspace() {
    let stored = context("/work/space").context_path();
    let path = stored.to_str().unwrap();
    for dir in ["/work/space", "/work/space/a", "/work/space/a/b/c"] {
        assert_eq!(search(None, Some(dir), &[path]).0, Some(stored.clone()));
    }
    assert_eq!(search(None, Some("/work"), &[path]).0, None);
}

#[test]
fn the_search_ends_at_the_root() {
    assert_eq!(search(None, Some("/a/b"), &[]), (None, 3));
    assert_eq!(
        search(None, Some("/a"), &["/.goose-harness/session.json"]),
        (Some(PathBuf::from("/.goose-harness/session.json")), 2)
    );
    assert_eq!(search(None, None, &["/.goose-harness/session.json"]), (None, 0));
}

#[test]
fn the_environment_comes_first_and_the_walk_up_second() {
    let files = ["/a/.goose-harness/session.json", "/ctx.json"];
    assert_eq!(
        search(Some("/ctx.json"), Some("/a"), &files),
        (Some(PathBuf::from("/ctx.json")), 1)
    );
    assert_eq!(
        search(Some("/gone.json"), Some("/a/b"), &files),
        (Some(PathBuf::from("/a/.goose-harness/session.json")), 3)
    );
    assert_eq!(search(Some("/gone.json"), Some("/"), &files), (None, 2));
    assert_eq!(search(Some("/gone.json"), None, &files), (None, 1));
}
