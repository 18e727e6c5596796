//! Live state, numbering and taps.

use goose_harness::context::HarnessContext;
use goose_harness::harness::{
    activate, active, record_message, record_permission_decision, record_usage,
    AlreadyInitialized, Harness, HarnessCell,
};
use goose_harness::message::{Message, MessageContentBlock, Role};
use goose_harness::policy::HarnessPolicy;
use serde_json::Value;
use std::path::PathBuf;

fn context(id: &str) -> HarnessContext {
    HarnessContext {
        harness_session_id: id.into(),
        principal: Some("cand-42".into()),
        profile_id: None,
        workspace: PathBuf::from("/w"),
        base_commit: None,
        ingest: None,
        policy: HarnessPolicy {
            deny: vec!["d".into()],
            require_approval: vec![],
        },
    }
}

fn message(texts: &[&str]) -> Message {
    Message {
        id: None,
        role: Role::User,
        created: 0,
        content: texts
            .iter()
            .map(|t| MessageContentBlock::Text(t.to_string()))
            .collect(),
        agent_visible: true,
        user_visible: true,
    }
}

#[test]
fn envelopes_bear_the_identity_of_the_session() {
    let mut harness = Harness::new(context("hs-1"));
    let event = harness.envelope("usage", Some("gs-1"), Value::from(3), "T".into());
    assert_eq!(event.v, 1);
    assert_eq!(event.harness_session_id, "hs-1");
    assert_eq!(event.principal.as_deref(), Some("cand-42"));
    assert_eq!(event.profile_id, None);
    assert_eq!(event.goose_session_id.as_deref(), Some("gs-1"));
    assert_eq!(event.seq, 0);
    assert_eq!(event.ts, "T");
    assert_eq!(event.kind, "usage");
    assert_eq!(event.payload, Value::from(3));
    let event = harness.envelope("k", None, Value::Null, "U".into());
    assert_eq!(event.seq, 1);
    assert_eq!(event.goose_session_id, None);
    assert_eq!(harness.context().harness_session_id, "hs-1");
    assert_eq!(harness.policy().deny, vec!["d".to_string()]);
}

#[test]
fn events_are_stamped_with_the_time() {
    let mut harness = Harness::new(context("hs-1"));
    let event = harness.emit("k", None, Value::Null);
    assert!(event.ts.ends_with("+00:00"));
    assert!(event.ts.len() >= 25);
    for (i, c) in [(4, '-'), (7, '-'), (10, 'T'), (13, ':'), (16, ':')] {
        assert_eq!(event.ts.chars().nth(i), Some(c));
    }
}

#[test]
fn a_message_gives_one_numbered_event_for_each_block() {
    let mut harness = Harness::new(context("hs-1"));
    harness.emit("k", None, Value::Null);
    let events = harness.record_message("gs", &message(&["a", "b", "c"]));
    assert_eq!(events.len(), 3);
    for (i, event) in events.iter().enumerate() {
        assert_eq!(event.seq, 1 + i as u64);
        assert_eq!(event.kind, "prompt");
        assert_eq!(event.goose_session_id.as_deref(), Some("gs"));
    }
    assert_eq!(events[1].payload["content"]["text"], "b");
    assert_eq!(harness.emit("k", None, Value::Null).seq, 4);
}

#[test]
fn the_first_use_settles_the_harness() {
    let mut cell = HarnessCell::new();
    assert!(!cell.is_resolved());
    assert!(cell.harness().is_none());
    assert_eq!(
        active(&mut cell, Some(context("hs-1")))
            .unwrap()
            .context()
            .harness_session_id,
        "hs-1"
    );
    assert!(cell.is_resolved());
    assert_eq!(
        active(&mut cell, Some(context("hs-2")))
            .unwrap()
            .context()
            .harness_session_id,
        "hs-1"
    );
    assert_eq!(activate(&mut cell, context("hs-3")), Err(AlreadyInitialized));
    assert_eq!(
        AlreadyInitialized.message(),
        "harness already initialized for this process"
    );
}

#[test]
fn an_inactive_harness_stays_inactive() {
    let mut cell = HarnessCell::new();
    assert!(active(&mut cell, None).is_none());
    assert!(active(&mut cell, Some(context("hs-1"))).is_none());
    assert!(activate(&mut cell, context("hs-2")).is_err());
    assert!(record_message(&mut cell, None, "gs", &message(&["a"])).is_empty());
    assert!(record_usage(&mut cell, None, "gs", "m", Value::Null).is_none());
    assert!(record_permission_decision(&mut cell, None, None, "s", "d", "acp").is_none());
}

#[test]
fn a_bootstrap_activates_the_harness() {
    let mut cell = HarnessCell::new();
    assert_eq!(activate(&mut cell, context("hs-9")), Ok(()));
    assert_eq!(
        active(&mut cell, None).unwrap().context().harness_session_id,
        "hs-9"
    );
    assert_eq!(cell.harness().unwrap().context().harness_session_id, "hs-9");
}

#[test]
fn taps_share_one_numbering() {
    let mut cell = HarnessCell::new();
    let events = record_message(&mut cell, Some(context("hs-1")), "gs", &message(&["a", "b"]));
    assert_eq!(events.len(), 2);
    let usage: Value = serde_json::from_str(r#"{"input":5}"#).unwrap();
    let event = record_usage(&mut cell, None, "gs", "model-x", usage).unwrap();
    assert_eq!(event.seq, 2);
    assert_eq!(event.kind, "usage");
    assert_eq!(event.harness_session_id, "hs-1");
    assert_eq!(
        event.payload,
        serde_json::from_str::<Value>(r#"{"model":"model-x","usage":{"input":5}}"#).unwrap()
    );
    let event =
        record_permission_decision(&mut cell, None, Some("gs"), "rm", "denied", "acp").unwrap();
    assert_eq!(event.seq, 3);
    assert_eq!(event.kind, "permission_decision");
    assert_eq!(
        event.payload,
        serde_json::from_str::<Value>(
            r#"{"subject":"rm","decision":"denied","source":"acp"}"#
        )
        .unwrap()
    );
    let event =
        record_permission_decision(&mut cell, None, None, "rm", "denied", "acp").unwrap();
    assert_eq!(event.goose_session_id, None);
}
