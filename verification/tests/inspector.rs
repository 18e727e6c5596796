//! Policy enforcement on tool requests.

use goose_harness::context::HarnessContext;
use goose_harness::harness::HarnessCell;
use goose_harness::inspector::{
    result_of, HarnessPolicyInspector, InspectionAction, InspectionResult,
};
use goose_harness::message::{ToolCall, ToolRequest};
use goose_harness::policy::{HarnessPolicy, PolicyVerdict};
use serde_json::Value;
use std::path::PathBuf;

fn context(deny: &[&str], approve: &[&str]) -> HarnessContext {
    HarnessContext {
        harness_session_id: "hs".into(),
        principal: None,
        profile_id: None,
        workspace: PathBuf::from("/w"),
        base_commit: None,
        ingest: None,
        policy: HarnessPolicy {
            deny: deny.iter().map(|s| s.to_string()).collect(),
            require_approval: approve.iter().map(|s| s.to_string()).collect(),
        },
    }
}

fn request(id: &str, tool: &str) -> ToolRequest {
    ToolRequest {
        id: id.into(),
        external: false,
        tool_call: Ok(ToolCall {
            name: tool.into(),
            arguments: None,
        }),
    }
}

#[test]
fn decisions_are_reported_and_recorded_in_order() {
    let mut cell = HarnessCell::new();
    let requests = vec![
        request("1", "safe"),
        request("2", "developer__shell"),
        ToolRequest {
            id: "3".into(),
            external: false,
            tool_call: Err("broken".into()),
        },
        request("4", "wipe_production"),
    ];
    let ctx = context(&["*production*"], &["developer__shell"]);
    let inspection = HarnessPolicyInspector.inspect(&mut cell, Some(ctx), "gs", &requests);
    assert_eq!(
        inspection.results,
        vec![
            InspectionResult {
                tool_request_id: "2".into(),
                action: InspectionAction::RequireApproval(Some(
                    "approval required by harness policy (rule: developer__shell)".into()
                )),
                reason: "approval required by harness policy (rule: developer__shell)".into(),
                inspector_name: "harness_policy".into(),
                finding_id: None,
            },
            InspectionResult {
                tool_request_id: "4".into(),
                action: InspectionAction::Deny,
                reason: "blocked by harness policy (rule: *production*)".into(),
                inspector_name: "harness_policy".into(),
                finding_id: None,
            },
        ]
    );
    assert_eq!(inspection.events.len(), 2);
    assert_eq!(inspection.events[0].seq, 0);
    assert_eq!(inspection.events[0].kind, "permission_decision");
    assert_eq!(inspection.events[0].goose_session_id.as_deref(), Some("gs"));
    assert_eq!(
        inspection.events[0].payload,
        serde_json::from_str::<Value>(
            r#"{"subject":"developer__shell","decision":"policy_require_approval",
                "source":"native"}"#
        )
        .unwrap()
    );
    assert_eq!(inspection.events[1].seq, 1);
    assert_eq!(inspection.events[1].payload["decision"], "policy_deny");
    assert_eq!(inspection.events[1].payload["subject"], "wipe_production");
}

#[test]
fn without_a_harness_or_rules_nothing_is_found() {
    let mut cell = HarnessCell::new();
    let requests = vec![request("1", "anything")];
    let inspection = HarnessPolicyInspector.inspect(&mut cell, None, "gs", &requests);
    assert!(inspection.results.is_empty());
    assert!(inspection.events.is_empty());
    let mut cell = HarnessCell::new();
    let inspection =
        HarnessPolicyInspector.inspect(&mut cell, Some(context(&[], &[])), "gs", &requests);
    assert!(inspection.results.is_empty());
    assert!(inspection.events.is_empty());
}

#[test]
fn the_inspector_is_enabled_when_there_are_rules() {
    let inspector = HarnessPolicyInspector;
    assert_eq!(inspector.name(), "harness_policy");
    assert!(!inspector.is_enabled(&mut HarnessCell::new(), None));
    assert!(!inspector.is_enabled(&mut HarnessCell::new(), Some(context(&[], &[]))));
    assert!(inspector.is_enabled(&mut HarnessCell::new(), Some(context(&["a"], &[]))));
    assert!(inspector.is_enabled(&mut HarnessCell::new(), Some(context(&[], &["a"]))));
}

#[test]
fn results_of_given_verdicts() {
    assert!(result_of("1", PolicyVerdict::Allow).is_none());
    let denied = result_of("1", PolicyVerdict::Deny("why".into())).unwrap();
    assert_eq!(denied.action, InspectionAction::Deny);
    assert_eq!(denied.reason, "why");
    let asked = result_of("2", PolicyVerdict::RequireApproval("ask".into())).unwrap();
    assert_eq!(
        asked.action,
        InspectionAction::RequireApproval(Some("ask".into()))
    );
    assert_eq!(asked.tool_request_id, "2");
}
