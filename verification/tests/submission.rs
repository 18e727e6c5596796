//! Submissions and status reports.

use goose_harness::context::{HarnessContext, IngestConfig};
use goose_harness::harness::{record_usage, HarnessCell};
use goose_harness::policy::HarnessPolicy;
use goose_harness::status::{report_lines, status_lines, Shown};
use goose_harness::submission::{
    artifact_payload, cap_text, diff_base, session_end_payload, submission, submit_events,
    RepoState, DIFF_CAP,
};
use serde_json::Value;
use std::path::PathBuf;

fn parse(raw: &str) -> Value {
    serde_json::from_str(raw).unwrap()
}

#[test]
fn a_text_within_the_cap_is_kept() {
    assert_eq!(cap_text("diff"), "diff");
    let edge = "x".repeat(DIFF_CAP);
    assert_eq!(cap_text(&edge), edge);
}

#[test]
fn a_longer_text_says_how_much_is_missing() {
    let long = "x".repeat(DIFF_CAP + 12);
    assert_eq!(
        cap_text(&long),
        format!("{}…<truncated 12 bytes>", "x".repeat(DIFF_CAP))
    );
}

#[test]
fn no_character_is_cut_in_two() {
    let long = "x".repeat(DIFF_CAP - 1) + "é";
    assert_eq!(
        cap_text(&long),
        format!("{}…<truncated 2 bytes>", "x".repeat(DIFF_CAP - 1))
    );
    let long = "x".repeat(DIFF_CAP - 3) + "😀y";
    assert_eq!(
        cap_text(&long),
        format!("{}…<truncated 5 bytes>", "x".repeat(DIFF_CAP - 3))
    );
    let long = "x".repeat(DIFF_CAP - 2) + "é!";
    assert_eq!(
        cap_text(&long),
        format!("{}é…<truncated 1 bytes>", "x".repeat(DIFF_CAP - 2))
    );
}

#[test]
fn a_submission_holds_the_diff_and_the_untracked_files() {
    let repo = Some(RepoState {
        diff: Ok("+x\n".into()),
        untracked: Some("a.txt\nb/c.txt\n".into()),
    });
    assert_eq!(
        artifact_payload(Some("done"), &Some("abc".into()), &repo),
        parse(
            r#"{"message":"done","base_commit":"abc","diff":"+x\n",
                "untracked_files":["a.txt","b/c.txt"]}"#
        )
    );
}

#[test]
fn a_submission_says_what_failed() {
    let repo = Some(RepoState {
        diff: Err("git diff HEAD failed: fatal".into()),
        untracked: None,
    });
    assert_eq!(
        artifact_payload(None, &None, &repo),
        parse(
            r#"{"base_commit":"HEAD","diff":"<git diff failed: git diff HEAD failed: fatal>",
                "untracked_files":[]}"#
        )
    );
}

#[test]
fn a_submission_without_a_repository() {
    assert_eq!(
        artifact_payload(None, &Some("abc".into()), &None),
        parse(r#"{"note":"workspace is not a git repo; no diff captured"}"#)
    );
    assert_eq!(session_end_payload(), parse(r#"{"reason":"submitted"}"#));
}

#[test]
fn the_diff_is_against_the_base_commit_or_head() {
    assert_eq!(diff_base(&Some("abc".into())), "abc");
    assert_eq!(diff_base(&None), "HEAD");
}

fn context() -> HarnessContext {
    HarnessContext {
        harness_session_id: "hs-1".into(),
        principal: Some("cand-42".into()),
        profile_id: Some("exam/demo".into()),
        workspace: PathBuf::from("/w"),
        base_commit: None,
        ingest: Some(IngestConfig {
            endpoint: "https://ingest.example.com".into(),
            token: None,
        }),
        policy: HarnessPolicy {
            deny: vec!["a\"b".into(), "*".into()],
            require_approval: vec![],
        },
    }
}

#[test]
fn the_status_of_a_full_session() {
    assert_eq!(
        status_lines(Some(&context()), Some("{}\n{}\n")),
        vec![
            "Harness session: hs-1",
            "Principal:       cand-42",
            "Profile:         exam/demo",
            "Workspace:       /w",
            "Ingest:          https://ingest.example.com",
            "Policy:          deny=[\"a\\\"b\", \"*\"] require_approval=[]",
            "Events:          2 recorded at /w/.goose-harness/events.jsonl",
        ]
    );
}

#[test]
fn the_status_of_a_bare_session() {
    let mut ctx = context();
    ctx.principal = None;
    ctx.profile_id = None;
    ctx.ingest = None;
    ctx.policy = HarnessPolicy::default();
    assert_eq!(
        status_lines(Some(&ctx), None),
        vec![
            "Harness session: hs-1",
            "Workspace:       /w",
            "Ingest:          (local JSONL only)",
            "Events:          0 recorded at /w/.goose-harness/events.jsonl",
        ]
    );
}

#[test]
fn reports_show_what_they_are_given() {
    let shown = Shown {
        workspace: "W".into(),
        events_path: "E".into(),
        deny: "D".into(),
        require_approval: "R".into(),
    };
    let lines = report_lines(&context(), &shown, Some("one"));
    assert_eq!(lines[3], "Workspace:       W");
    assert_eq!(lines[5], "Policy:          deny=D require_approval=R");
    assert_eq!(lines[6], "Events:          1 recorded at E");
}

#[test]
fn a_submission_is_an_artifact_and_the_end() {
    let events = submission(Some(&context()), Some("done"), &None).unwrap();
    assert_eq!(events.len(), 2);
    assert_eq!(events[0].0, "artifact");
    assert_eq!(
        events[0].1,
        parse(r#"{"message":"done","note":"workspace is not a git repo; no diff captured"}"#)
    );
    assert_eq!(events[1].0, "session_end");
    assert_eq!(events[1].1, parse(r#"{"reason":"submitted"}"#));
}

#[test]
fn without_a_session_there_is_nothing_to_submit_or_to_show() {
    assert_eq!(
        submission(None, Some("done"), &None).unwrap_err(),
        "no active harness session found (looked for GOOSE_HARNESS_CONTEXT and .goose-harness/session.json in ancestors)"
    );
    assert_eq!(status_lines(None, Some("{}\n")), vec!["No active harness session."]);
}

#[test]
fn the_events_of_a_submission_belong_to_no_agent_session() {
    let mut cell = HarnessCell::new();
    record_usage(&mut cell, Some(context()), "gs", "m", Value::Null);
    let repo = Some(RepoState {
        diff: Ok("+x\n".into()),
        untracked: None,
    });
    let events = submit_events(&mut cell, None, Some("done"), &repo).unwrap();
    assert_eq!(events.len(), 2);
    assert_eq!(events[0].kind, "artifact");
    assert_eq!(events[0].seq, 1);
    assert_eq!(events[0].goose_session_id, None);
    assert_eq!(
        events[0].payload,
        parse(r#"{"message":"done","base_commit":"HEAD","diff":"+x\n","untracked_files":[]}"#)
    );
    assert_eq!(events[1].kind, "session_end");
    assert_eq!(events[1].seq, 2);
    assert_eq!(events[1].goose_session_id, None);
    assert_eq!(events[1].payload, parse(r#"{"reason":"submitted"}"#));
    assert!(submit_events(&mut HarnessCell::new(), None, None, &None).is_err());
}
