//! Events of messages.

use goose_harness::events::{
    cap, cap_raw, cap_value, events_for_message, role_str, SCHEMA_VERSION, TEXT_CAP,
};
use goose_harness::message::{
    FrontendToolRequest, Message, MessageContentBlock, Role, ToolCall, ToolConfirmationRequest,
    ToolOutput, ToolRequest, ToolResponse,
};
use serde_json::Value;

fn message(role: Role, content: Vec<MessageContentBlock>) -> Message {
    Message {
        id: None,
        role,
        created: 1_700_000_000,
        content,
        agent_visible: true,
        user_visible: true,
    }
}

fn text(role: Role, text: &str) -> Message {
    message(role, vec![MessageContentBlock::Text(text.to_string())])
}

fn parse(raw: &str) -> Value {
    serde_json::from_str(raw).unwrap()
}

fn object(key: &str, value: Value) -> serde_json::Map<String, Value> {
    let mut map = serde_json::Map::new();
    map.insert(key.to_string(), value);
    map
}

fn only(block: MessageContentBlock) -> (String, Value) {
    let mut events = events_for_message(&message(Role::Assistant, vec![block]));
    assert_eq!(events.len(), 1);
    events.remove(0)
}

#[test]
fn user_text_is_prompt_and_assistant_text_is_agent_message() {
    let user = text(Role::User, "hello");
    let events = events_for_message(&user);
    assert_eq!(events.len(), 1);
    assert_eq!(events[0].0, "prompt");
    assert_eq!(events[0].1["content"]["text"], "hello");

    let agent = text(Role::Assistant, "hi there");
    let events = events_for_message(&agent);
    assert_eq!(events[0].0, "agent_message");
}

#[test]
fn long_text_is_capped() {
    let long = "x".repeat(TEXT_CAP + 10);
    let msg = text(Role::User, &long);
    let events = events_for_message(&msg);
    assert_eq!(events[0].1["content"]["truncated"], true);
}

#[test]
fn a_capped_text_keeps_its_start_and_its_length() {
    let long = "é".repeat(TEXT_CAP + 1);
    let field = cap(&long);
    assert_eq!(field["text"], "é".repeat(TEXT_CAP));
    assert_eq!(field["original_chars"], 200_001);
    assert_eq!(field["truncated"], true);
    let whole = "é".repeat(TEXT_CAP);
    let field = cap(&whole);
    assert_eq!(field, Value::Object(object("text", Value::from(whole))));
}

#[test]
fn a_capped_value_keeps_the_start_of_its_text() {
    let big = Value::from("y".repeat(TEXT_CAP));
    let field = cap_value(&big);
    assert_eq!(
        field["json_truncated"],
        format!("\"{}", "y".repeat(TEXT_CAP - 1))
    );
    assert_eq!(field["truncated"], true);
    assert_eq!(field["original_chars"], 200_002);
    let small = parse(r#"{"a":[1,-2,2.5,null,true,"s"]}"#);
    assert_eq!(cap_value(&small), small);
}

#[test]
fn a_value_at_the_cap_is_kept_as_it_is() {
    let edge = Value::from("y".repeat(TEXT_CAP - 2));
    assert_eq!(cap_value(&edge), edge);
}

#[test]
fn a_value_is_capped_by_the_text_that_is_given() {
    let v = Value::from(7);
    assert_eq!(cap_raw(&v, "7"), v);
    let raw = "z".repeat(TEXT_CAP + 5);
    let field = cap_raw(&v, &raw);
    assert_eq!(field["json_truncated"], "z".repeat(TEXT_CAP));
    assert_eq!(field["original_chars"], 200_005);
}

#[test]
fn every_payload_describes_its_message() {
    let msg = Message {
        id: Some("m-1".into()),
        role: Role::User,
        created: -5,
        content: vec![
            MessageContentBlock::Text("a".into()),
            MessageContentBlock::Image("image/png".into()),
        ],
        agent_visible: false,
        user_visible: false,
    };
    let events = events_for_message(&msg);
    assert_eq!(events.len(), 2);
    assert_eq!(
        events[0].1,
        parse(
            r#"{"content":{"text":"a"},"role":"user","message_id":"m-1","created":-5,
                "agent_visible":false,"user_visible":false}"#
        )
    );
    assert_eq!(events[1].0, "prompt");
    assert_eq!(
        events[1].1,
        parse(
            r#"{"mime_type":"image/png","role":"user","message_id":"m-1","created":-5,
                "agent_visible":false,"user_visible":false}"#
        )
    );
}

#[test]
fn thoughts() {
    let (kind, payload) = only(MessageContentBlock::Thinking("hm".into()));
    assert_eq!(kind, "agent_thinking");
    assert_eq!(
        payload,
        parse(r#"{"content":{"text":"hm"},"role":"assistant","created":1700000000}"#)
    );
    let (kind, payload) = only(MessageContentBlock::RedactedThinking);
    assert_eq!(kind, "agent_thinking");
    assert_eq!(
        payload,
        parse(r#"{"redacted":true,"role":"assistant","created":1700000000}"#)
    );
}

#[test]
fn tool_requests() {
    let (kind, payload) = only(MessageContentBlock::ToolRequest(ToolRequest {
        id: "r1".into(),
        external: true,
        tool_call: Ok(ToolCall {
            name: "developer__shell".into(),
            arguments: Some(object("command", Value::from("ls"))),
        }),
    }));
    assert_eq!(kind, "tool_call");
    assert_eq!(
        payload,
        parse(
            r#"{"id":"r1","external":true,"tool_name":"developer__shell",
                "arguments":{"command":"ls"},"role":"assistant","created":1700000000}"#
        )
    );
    let (_, payload) = only(MessageContentBlock::ToolRequest(ToolRequest {
        id: "r2".into(),
        external: false,
        tool_call: Ok(ToolCall {
            name: "t".into(),
            arguments: None,
        }),
    }));
    assert_eq!(payload["arguments"], Value::Null);
    assert!(payload.get("arguments").is_some());
    let (kind, payload) = only(MessageContentBlock::ToolRequest(ToolRequest {
        id: "r3".into(),
        external: false,
        tool_call: Err("no such tool".into()),
    }));
    assert_eq!(kind, "tool_call");
    assert_eq!(
        payload,
        parse(
            r#"{"id":"r3","external":false,"invalid":"no such tool","role":"assistant",
                "created":1700000000}"#
        )
    );
}

#[test]
fn tool_responses() {
    let outputs = vec![(None, true), (Some(false), true), (Some(true), false)];
    for (is_error, ok) in outputs {
        let (kind, payload) = only(MessageContentBlock::ToolResponse(ToolResponse {
            id: "r1".into(),
            tool_result: Ok(ToolOutput {
                is_error,
                content: Some(parse(r#"[1,"two"]"#)),
            }),
        }));
        assert_eq!(kind, "tool_result");
        assert_eq!(payload["ok"], ok);
        assert_eq!(payload["content"], parse(r#"[1,"two"]"#));
        assert_eq!(payload["id"], "r1");
    }
    let (_, payload) = only(MessageContentBlock::ToolResponse(ToolResponse {
        id: "r2".into(),
        tool_result: Ok(ToolOutput {
            is_error: None,
            content: None,
        }),
    }));
    assert!(payload["content"].is_null());
    let (_, payload) = only(MessageContentBlock::ToolResponse(ToolResponse {
        id: "r3".into(),
        tool_result: Err("crashed".into()),
    }));
    assert_eq!(
        payload,
        parse(
            r#"{"id":"r3","ok":false,"error":"crashed","role":"assistant","created":1700000000}"#
        )
    );
}

#[test]
fn permission_requests() {
    let (kind, payload) = only(MessageContentBlock::ToolConfirmationRequest(
        ToolConfirmationRequest {
            id: "c1".into(),
            tool_name: "t".into(),
            arguments: Some(serde_json::Map::new()),
        },
    ));
    assert_eq!(kind, "permission_request");
    assert_eq!(
        payload,
        parse(
            r#"{"id":"c1","tool_name":"t","arguments":{},"role":"assistant",
                "created":1700000000}"#
        )
    );
    let (kind, payload) = only(MessageContentBlock::ActionRequired(Some(parse(r#"{"k":1}"#))));
    assert_eq!(kind, "permission_request");
    assert_eq!(payload["action"], parse(r#"{"k":1}"#));
}

#[test]
fn frontend_tool_requests() {
    let (kind, payload) = only(MessageContentBlock::FrontendToolRequest(FrontendToolRequest {
        id: "f1".into(),
        tool_call: Ok(ToolCall {
            name: "open".into(),
            arguments: None,
        }),
    }));
    assert_eq!(kind, "tool_call");
    assert_eq!(
        payload,
        parse(
            r#"{"id":"f1","tool_name":"open","frontend":true,"role":"assistant",
                "created":1700000000}"#
        )
    );
    let (_, payload) = only(MessageContentBlock::FrontendToolRequest(FrontendToolRequest {
        id: "f2".into(),
        tool_call: Err("bad".into()),
    }));
    assert!(payload.get("tool_name").is_none());
    assert_eq!(payload["frontend"], true);
}

#[test]
fn notices_and_failures() {
    let (kind, payload) = only(MessageContentBlock::SystemNotification(Some(Value::from("n"))));
    assert_eq!(kind, "system_notification");
    assert_eq!(payload["notification"], "n");
    let (kind, payload) = only(MessageContentBlock::Error(None));
    assert_eq!(kind, "agent_error");
    assert!(payload["error"].is_null());
}

#[test]
fn an_empty_message_has_no_events() {
    assert!(events_for_message(&message(Role::User, vec![])).is_empty());
}

#[test]
fn roles_and_schema() {
    assert_eq!(role_str(&Role::User), "user");
    assert_eq!(role_str(&Role::Assistant), "assistant");
    assert_eq!(SCHEMA_VERSION, 1);
}
