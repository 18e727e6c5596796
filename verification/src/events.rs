//! The event schema, and the events that messages give rise to.
//!
//! One event comes of each content block of a message, so that prompts, agent
//! output, tool calls, tool results and permission requests are told apart
//! whichever agent executed them.

use crate::json::{
    arguments_json, arguments_to_value, compact, entries, json, json_bool, json_clone,
    json_compact, json_i64, json_null, json_object, json_text, json_usize, object_insert,
    object_new, Entries, Json, Object,
};
use crate::message::{Message, MessageContentBlock, Role};
use crate::text::text_of;
use vstd::prelude::*;
use vstd::string::*;

verus! {

/// Bumped when the envelope or the payloads change incompatibly.
pub const SCHEMA_VERSION: u32 = 1;

/// How many characters of a large text an event keeps.
pub const TEXT_CAP: usize = 200_000;

/// The envelope of every harness event.
#[derive(Debug)]
pub struct HarnessEvent {
    /// Schema version.
    pub v: u32,
    /// The harness session that the event belongs to.
    pub harness_session_id: String,
    /// The human behind the session.
    pub principal: Option<String>,
    /// The profile that provisioned the session.
    pub profile_id: Option<String>,
    /// The agent session that the event comes from.
    pub goose_session_id: Option<String>,
    /// Number of the event within its process.
    pub seq: u64,
    /// RFC 3339 timestamp.
    pub ts: String,
    /// What kind of event this is.
    pub kind: String,
    /// What there is to say of the event.
    pub payload: serde_json::Value,
}

/// `copy` says what `event` says.
pub open spec fn same_event(event: HarnessEvent, copy: HarnessEvent) -> bool {
    &&& copy.v == event.v
    &&& copy.harness_session_id@ == event.harness_session_id@
    &&& text_of(copy.principal) == text_of(event.principal)
    &&& text_of(copy.profile_id) == text_of(event.profile_id)
    &&& text_of(copy.goose_session_id) == text_of(event.goose_session_id)
    &&& copy.seq == event.seq
    &&& copy.ts@ == event.ts@
    &&& copy.kind@ == event.kind@
    &&& json(copy.payload) == json(event.payload)
}

impl Clone for HarnessEvent {
    fn clone(&self) -> (copy: Self)
        ensures
            same_event(*self, copy),
    {
        HarnessEvent {
            v: self.v,
            harness_session_id: self.harness_session_id.clone(),
            principal: self.principal.clone(),
            profile_id: self.profile_id.clone(),
            goose_session_id: self.goose_session_id.clone(),
            seq: self.seq,
            ts: self.ts.clone(),
            kind: self.kind.clone(),
            payload: json_clone(&self.payload),
        }
    }
}

/// The payload field of a text: the text, or its start and its full length.
pub open spec fn capped(s: Seq<char>) -> Json {
    if s.len() > TEXT_CAP {
        Json::Object(
            Entries::empty().insert("text"@, Json::Text(s.take(TEXT_CAP as int))).insert(
                "truncated"@,
                Json::Bool(true),
            ).insert("original_chars"@, Json::Int(s.len() as int)),
        )
    } else {
        Json::Object(Entries::empty().insert("text"@, Json::Text(s)))
    }
}

/// The payload field of a JSON value whose compact text is `raw`: the value, or
/// the start of the text and the text's full length.
pub open spec fn capped_raw(v: Json, raw: Seq<char>) -> Json {
    if raw.len() > TEXT_CAP {
        let start = Json::Text(raw.take(TEXT_CAP as int));
        Json::Object(
            Entries::empty().insert("json_truncated"@, start).insert(
                "truncated"@,
                Json::Bool(true),
            ).insert("original_chars"@, Json::Int(raw.len() as int)),
        )
    } else {
        v
    }
}

/// The payload field of a JSON value.
pub open spec fn capped_value(v: Json) -> Json {
    capped_raw(v, compact(v))
}

/// The JSON form of something, `null` where it has none.
pub open spec fn json_or_null(value: Option<serde_json::Value>) -> Json {
    match value {
        Some(value) => json(value),
        None => Json::Null,
    }
}

/// How a role is written.
pub open spec fn role_text(role: Role) -> Seq<char> {
    match role {
        Role::User => "user"@,
        Role::Assistant => "assistant"@,
    }
}

/// The kind of event that a block gives rise to.
pub open spec fn block_kind(role: Role, block: MessageContentBlock) -> Seq<char> {
    match block {
        MessageContentBlock::Text(_) => if role == Role::User {
            "prompt"@
        } else {
            "agent_message"@
        },
        MessageContentBlock::Thinking(_) => "agent_thinking"@,
        MessageContentBlock::RedactedThinking => "agent_thinking"@,
        MessageContentBlock::Image(_) => "prompt"@,
        MessageContentBlock::ToolRequest(_) => "tool_call"@,
        MessageContentBlock::ToolResponse(_) => "tool_result"@,
        MessageContentBlock::ToolConfirmationRequest(_) => "permission_request"@,
        MessageContentBlock::ActionRequired(_) => "permission_request"@,
        MessageContentBlock::FrontendToolRequest(_) => "tool_call"@,
        MessageContentBlock::SystemNotification(_) => "system_notification"@,
        MessageContentBlock::Error(_) => "agent_error"@,
    }
}

/// What the payload says of the block itself.
pub open spec fn block_entries(block: MessageContentBlock) -> Entries {
    let none = Entries::empty();
    match block {
        MessageContentBlock::Text(text) => none.insert("content"@, capped(text@)),
        MessageContentBlock::Thinking(thinking) => none.insert("content"@, capped(thinking@)),
        MessageContentBlock::RedactedThinking => none.insert("redacted"@, Json::Bool(true)),
        MessageContentBlock::Image(mime_type) => none.insert("mime_type"@, Json::Text(mime_type@)),
        MessageContentBlock::ToolRequest(request) => {
            let base = none.insert("id"@, Json::Text(request.id@)).insert(
                "external"@,
                Json::Bool(request.external),
            );
            match request.tool_call {
                Ok(call) => base.insert("tool_name"@, Json::Text(call.name@)).insert(
                    "arguments"@,
                    capped_value(arguments_json(call.arguments)),
                ),
                Err(error) => base.insert("invalid"@, Json::Text(error@)),
            }
        },
        MessageContentBlock::ToolResponse(response) => {
            let base = none.insert("id"@, Json::Text(response.id@));
            match response.tool_result {
                Ok(output) => base.insert("ok"@, Json::Bool(output.is_error != Some(true))).insert(
                    "content"@,
                    capped_value(json_or_null(output.content)),
                ),
                Err(error) => base.insert("ok"@, Json::Bool(false)).insert(
                    "error"@,
                    Json::Text(error@),
                ),
            }
        },
        MessageContentBlock::ToolConfirmationRequest(request) => none.insert(
            "id"@,
            Json::Text(request.id@),
        ).insert("tool_name"@, Json::Text(request.tool_name@)).insert(
            "arguments"@,
            capped_value(arguments_json(request.arguments)),
        ),
        MessageContentBlock::ActionRequired(data) => none.insert(
            "action"@,
            capped_value(json_or_null(data)),
        ),
        MessageContentBlock::FrontendToolRequest(request) => {
            let base = none.insert("id"@, Json::Text(request.id@));
            let named = match request.tool_call {
                Ok(call) => base.insert("tool_name"@, Json::Text(call.name@)),
                Err(_) => base,
            };
            named.insert("frontend"@, Json::Bool(true))
        },
        MessageContentBlock::SystemNotification(notice) => none.insert(
            "notification"@,
            capped_value(json_or_null(notice)),
        ),
        MessageContentBlock::Error(error) => none.insert(
            "error"@,
            capped_value(json_or_null(error)),
        ),
    }
}

/// A payload together with what it says of the message around it.
pub open spec fn with_message(message: Message, payload: Entries) -> Entries {
    let who = payload.insert("role"@, Json::Text(role_text(message.role)));
    let named = match message.id {
        Some(id) => who.insert("message_id"@, Json::Text(id@)),
        None => who,
    };
    let dated = named.insert("created"@, Json::Int(message.created as int));
    let agent = if message.agent_visible {
        dated
    } else {
        dated.insert("agent_visible"@, Json::Bool(false))
    };
    if message.user_visible {
        agent
    } else {
        agent.insert("user_visible"@, Json::Bool(false))
    }
}

/// The payload of the event that a block of a message gives rise to.
pub open spec fn block_payload(message: Message, block: MessageContentBlock) -> Json {
    Json::Object(with_message(message, block_entries(block)))
}

/// The payload field of a text.
pub fn cap(s: &str) -> (field: serde_json::Value)
    ensures
        json(field) == capped(s@),
{
    let mut object = object_new();
    let count: usize = s.unicode_len();
    if count > TEXT_CAP {
        object_insert(&mut object, "text", json_text(s.substring_char(0, TEXT_CAP)));
        object_insert(&mut object, "truncated", json_bool(true));
        object_insert(&mut object, "original_chars", json_usize(count));
    } else {
        object_insert(&mut object, "text", json_text(s));
    }
    json_object(object)
}

/// The payload field of a JSON value, given the value's compact text.
pub fn cap_raw(v: &serde_json::Value, raw: &str) -> (field: serde_json::Value)
    ensures
        json(field) == capped_raw(json(*v), raw@),
{
    let count: usize = raw.unicode_len();
    if count > TEXT_CAP {
        let mut object = object_new();
        object_insert(&mut object, "json_truncated", json_text(raw.substring_char(0, TEXT_CAP)));
        object_insert(&mut object, "truncated", json_bool(true));
        object_insert(&mut object, "original_chars", json_usize(count));
        json_object(object)
    } else {
        json_clone(v)
    }
}

/// The payload field of a JSON value.
pub fn cap_value(v: &serde_json::Value) -> (field: serde_json::Value)
    ensures
        json(field) == capped_value(json(*v)),
{
    let raw = json_compact(v);
    cap_raw(v, raw.as_str())
}

/// The payload field of something in its JSON form, `null` where it has none.
fn cap_optional(v: &Option<serde_json::Value>) -> (field: serde_json::Value)
    ensures
        json(field) == capped_value(json_or_null(*v)),
{
    match v {
        Some(v) => cap_value(v),
        None => cap_value(&json_null()),
    }
}

/// The payload field of tool arguments.
fn cap_arguments(arguments: &Option<Object>) -> (field: serde_json::Value)
    ensures
        json(field) == capped_value(arguments_json(*arguments)),
{
    cap_optional(&arguments_to_value(arguments))
}

/// How a role is written.
pub fn role_str(role: &Role) -> (out: &'static str)
    ensures
        out@ == role_text(*role),
{
    match role {
        Role::User => "user",
        Role::Assistant => "assistant",
    }
}

/// The kind of event that a block gives rise to.
fn kind_of(role: Role, block: &MessageContentBlock) -> (kind: &'static str)
    ensures
        kind@ == block_kind(role, *block),
{
    match block {
        MessageContentBlock::Text(_) => if role == Role::User {
            "prompt"
        } else {
            "agent_message"
        },
        MessageContentBlock::Thinking(_) => "agent_thinking",
        MessageContentBlock::RedactedThinking => "agent_thinking",
        MessageContentBlock::Image(_) => "prompt",
        MessageContentBlock::ToolRequest(_) => "tool_call",
        MessageContentBlock::ToolResponse(_) => "tool_result",
        MessageContentBlock::ToolConfirmationRequest(_) => "permission_request",
        MessageContentBlock::ActionRequired(_) => "permission_request",
        MessageContentBlock::FrontendToolRequest(_) => "tool_call",
        MessageContentBlock::SystemNotification(_) => "system_notification",
        MessageContentBlock::Error(_) => "agent_error",
    }
}

/// What the payload says of the block itself.
fn payload_of(block: &MessageContentBlock) -> (payload: Object)
    ensures
        entries(payload) == block_entries(*block),
{
    let mut m = object_new();
    match block {
        MessageContentBlock::Text(text) => {
            object_insert(&mut m, "content", cap(text.as_str()));
        },
        MessageContentBlock::Thinking(thinking) => {
            object_insert(&mut m, "content", cap(thinking.as_str()));
        },
        MessageContentBlock::RedactedThinking => {
            object_insert(&mut m, "redacted", json_bool(true));
        },
        MessageContentBlock::Image(mime_type) => {
            object_insert(&mut m, "mime_type", json_text(mime_type.as_str()));
        },
        MessageContentBlock::ToolRequest(request) => {
            object_insert(&mut m, "id", json_text(request.id.as_str()));
            object_insert(&mut m, "external", json_bool(request.external));
            match &request.tool_call {
                Ok(call) => {
                    object_insert(&mut m, "tool_name", json_text(call.name.as_str()));
                    object_insert(&mut m, "arguments", cap_arguments(&call.arguments));
                },
                Err(error) => {
                    object_insert(&mut m, "invalid", json_text(error.as_str()));
                },
            }
        },
        MessageContentBlock::ToolResponse(response) => {
            object_insert(&mut m, "id", json_text(response.id.as_str()));
            match &response.tool_result {
                Ok(output) => {
                    let ok: bool = match output.is_error {
                        Some(failed) => !failed,
                        None => true,
                    };
                    object_insert(&mut m, "ok", json_bool(ok));
                    object_insert(&mut m, "content", cap_optional(&output.content));
                },
                Err(error) => {
                    object_insert(&mut m, "ok", json_bool(false));
                    object_insert(&mut m, "error", json_text(error.as_str()));
                },
            }
        },
        MessageContentBlock::ToolConfirmationRequest(request) => {
            object_insert(&mut m, "id", json_text(request.id.as_str()));
            object_insert(&mut m, "tool_name", json_text(request.tool_name.as_str()));
            object_insert(&mut m, "arguments", cap_arguments(&request.arguments));
        },
        MessageContentBlock::ActionRequired(data) => {
            object_insert(&mut m, "action", cap_optional(data));
        },
        MessageContentBlock::FrontendToolRequest(request) => {
            object_insert(&mut m, "id", json_text(request.id.as_str()));
            if let Ok(call) = &request.tool_call {
                object_insert(&mut m, "tool_name", json_text(call.name.as_str()));
            }
            object_insert(&mut m, "frontend", json_bool(true));
        },
        MessageContentBlock::SystemNotification(notice) => {
            object_insert(&mut m, "notification", cap_optional(notice));
        },
        MessageContentBlock::Error(error) => {
            object_insert(&mut m, "error", cap_optional(error));
        },
    }
    m
}

/// Adds to a payload what it says of the message around it.
fn add_message(message: &Message, payload: &mut Object)
    ensures
        entries(*final(payload)) == with_message(*message, entries(*old(payload))),
{
    object_insert(payload, "role", json_text(role_str(&message.role)));
    if let Some(id) = &message.id {
        object_insert(payload, "message_id", json_text(id.as_str()));
    }
    object_insert(payload, "created", json_i64(message.created));
    if !message.agent_visible {
        object_insert(payload, "agent_visible", json_bool(false));
    }
    if !message.user_visible {
        object_insert(payload, "user_visible", json_bool(false));
    }
}

/// The kind and the payload of the event of each block of a message, in order.
pub fn events_for_message(message: &Message) -> (out: Vec<(String, serde_json::Value)>)
    ensures
        out@.len() == message.content@.len(),
        forall|i: int|
            0 <= i < out@.len() ==> (#[trigger] out@[i]).0@ == block_kind(
                message.role,
                message.content@[i],
            ),
        forall|i: int|
            0 <= i < out@.len() ==> json((#[trigger] out@[i]).1) == block_payload(
                *message,
                message.content@[i],
            ),
{
    let mut out: Vec<(String, serde_json::Value)> = Vec::new();
    let mut i: usize = 0;
    while i < message.content.len()
        invariant
            i <= message.content@.len(),
            out@.len() == i,
            forall|j: int|
                0 <= j < i ==> (#[trigger] out@[j]).0@ == block_kind(
                    message.role,
                    message.content@[j],
                ),
            forall|j: int|
                0 <= j < i ==> json((#[trigger] out@[j]).1) == block_payload(
                    *message,
                    message.content@[j],
                ),
        decreases message.content@.len() - i,
    {
        let block = &message.content[i];
        let kind = kind_of(message.role, block);
        let mut payload = payload_of(block);
        add_message(message, &mut payload);
        out.push((kind.to_owned(), json_object(payload)));
        i += 1;
    }
    out
}

/// An event never holds more than the cap of a text, what it holds is the start
/// of the text, and it says so exactly when that is not all of it.
pub proof fn lemma_capped_is_bounded(s: Seq<char>)
    ensures
        ({
            &&& capped(s) matches Json::Object(field)
            &&& field.contains_key("text"@)
            &&& field["text"@] matches Json::Text(kept)
            &&& kept.len() <= TEXT_CAP
            &&& kept.is_prefix_of(s)
            &&& field.contains_key("truncated"@) <==> kept != s
        }),
{
    reveal_strlit("text");
    reveal_strlit("truncated");
    reveal_strlit("original_chars");
    assert("text"@.len() == 4 && "truncated"@.len() == 9 && "original_chars"@.len() == 14);
    assert(s.subrange(0, s.len() as int) =~= s);
    if s.len() > TEXT_CAP {
        assert(s.take(TEXT_CAP as int).len() == TEXT_CAP);
    }
}

/// An event holds a JSON value as it is where the value's text is within the
/// cap, and otherwise as much of that text as the cap allows.
pub proof fn lemma_capped_value_is_bounded(v: Json)
    ensures
        compact(v).len() <= TEXT_CAP ==> capped_value(v) == v,
        compact(v).len() > TEXT_CAP ==> {
            &&& capped_value(v) matches Json::Object(field)
            &&& field.contains_key("json_truncated"@)
            &&& field["json_truncated"@] matches Json::Text(kept)
            &&& kept.len() == TEXT_CAP
            &&& kept.is_prefix_of(compact(v))
        },
{
    reveal_strlit("json_truncated");
    reveal_strlit("truncated");
    reveal_strlit("original_chars");
    assert("json_truncated"@[0] != "original_chars"@[0]);
}

/// A prompt is a text or an image, and a text is one exactly when it is the
/// user's.
pub proof fn lemma_prompts(role: Role, block: MessageContentBlock)
    ensures
        block_kind(role, block) == "prompt"@ <==> block is Image || (block is Text && role
            == Role::User),
{
    reveal_strlit("prompt");
    reveal_strlit("agent_message");
    reveal_strlit("agent_thinking");
    reveal_strlit("tool_call");
    reveal_strlit("tool_result");
    reveal_strlit("permission_request");
    reveal_strlit("system_notification");
    reveal_strlit("agent_error");
    assert("prompt"@.len() == 6 && "agent_message"@.len() == 13 && "agent_thinking"@.len() == 14);
    assert("tool_call"@.len() == 9 && "tool_result"@.len() == 11 && "agent_error"@.len() == 11);
    assert("permission_request"@.len() == 18 && "system_notification"@.len() == 19);
}

/// The keys of payloads differ from one another.
proof fn lemma_payload_keys()
    ensures
        "content"@.len() == 7,
        "redacted"@.len() == 8,
        "mime_type"@.len() == 9,
        "id"@.len() == 2,
        "external"@.len() == 8,
        "tool_name"@.len() == 9,
        "arguments"@.len() == 9,
        "invalid"@.len() == 7,
        "ok"@.len() == 2,
        "error"@.len() == 5,
        "action"@.len() == 6,
        "frontend"@.len() == 8,
        "notification"@.len() == 12,
        "role"@.len() == 4,
        "message_id"@.len() == 10,
        "created"@.len() == 7,
        "agent_visible"@.len() == 13,
        "user_visible"@.len() == 12,
        "content"@ != "invalid"@,
        "content"@ != "created"@,
        "invalid"@ != "created"@,
        "redacted"@ != "external"@,
        "redacted"@ != "frontend"@,
        "external"@ != "frontend"@,
        "mime_type"@ != "tool_name"@,
        "mime_type"@ != "arguments"@,
        "tool_name"@ != "arguments"@,
        "id"@ != "ok"@,
        "notification"@ != "user_visible"@,
{
    reveal_strlit("content");
    reveal_strlit("redacted");
    reveal_strlit("mime_type");
    reveal_strlit("id");
    reveal_strlit("external");
    reveal_strlit("tool_name");
    reveal_strlit("arguments");
    reveal_strlit("invalid");
    reveal_strlit("ok");
    reveal_strlit("error");
    reveal_strlit("action");
    reveal_strlit("frontend");
    reveal_strlit("notification");
    reveal_strlit("role");
    reveal_strlit("message_id");
    reveal_strlit("created");
    reveal_strlit("agent_visible");
    reveal_strlit("user_visible");
    assert("content"@[0] != "invalid"@[0]);
    assert("content"@[1] != "created"@[1]);
    assert("invalid"@[0] != "created"@[0]);
    assert("redacted"@[0] != "external"@[0]);
    assert("redacted"@[0] != "frontend"@[0]);
    assert("external"@[0] != "frontend"@[0]);
    assert("mime_type"@[0] != "tool_name"@[0]);
    assert("mime_type"@[0] != "arguments"@[0]);
    assert("tool_name"@[0] != "arguments"@[0]);
    assert("id"@[0] != "ok"@[0]);
    assert("notification"@[0] != "user_visible"@[0]);
}

/// A key that says something of the message around a block.
pub open spec fn of_message(key: Seq<char>) -> bool {
    key == "role"@ || key == "message_id"@ || key == "created"@ || key == "agent_visible"@ || key
        == "user_visible"@
}

/// What the events of a message say of the message: who it is from, which one
/// it is if that is known, when it was made, and to whom it is not shown. There
/// is one event for each block.
pub proof fn lemma_events_describe_message(
    message: Message,
    out: Vec<(String, serde_json::Value)>,
    i: int,
)
    requires
        call_ensures(events_for_message, (&message,), out),
        0 <= i < message.content@.len(),
    ensures
        out@.len() == message.content@.len(),
        json(out@[i].1) matches Json::Object(payload) && {
            &&& payload.contains_key("role"@)
            &&& message.role == Role::User ==> payload["role"@] == Json::Text("user"@)
            &&& message.role == Role::Assistant ==> payload["role"@] == Json::Text("assistant"@)
            &&& payload.contains_key("message_id"@) <==> message.id is Some
            &&& message.id matches Some(id) ==> payload["message_id"@] == Json::Text(id@)
            &&& payload.contains_key("created"@)
            &&& payload["created"@] == Json::Int(message.created as int)
            &&& payload.contains_key("agent_visible"@) <==> !message.agent_visible
            &&& !message.agent_visible ==> payload["agent_visible"@] == Json::Bool(false)
            &&& payload.contains_key("user_visible"@) <==> !message.user_visible
            &&& !message.user_visible ==> payload["user_visible"@] == Json::Bool(false)
        },
{
    lemma_payload_keys();
    assert(out@[i].0@ == block_kind(message.role, message.content@[i]));
    assert(json(out@[i].1) == block_payload(message, message.content@[i]));
    let block = message.content@[i];
    assert forall|k: Seq<char>| #[trigger] block_entries(block).contains_key(k) implies !of_message(
        k,
    ) by {}
}

/// A text gives a prompt if it is the user's and a message of the agent
/// otherwise, a thought gives a thought, and either holds the text as far as
/// the cap allows. A withheld thought says so and no more.
pub proof fn lemma_events_of_texts(
    message: Message,
    out: Vec<(String, serde_json::Value)>,
    i: int,
)
    requires
        call_ensures(events_for_message, (&message,), out),
        0 <= i < message.content@.len(),
    ensures
        message.content@[i] matches MessageContentBlock::Text(text) ==> {
            &&& message.role == Role::User ==> out@[i].0@ == "prompt"@
            &&& message.role == Role::Assistant ==> out@[i].0@ == "agent_message"@
            &&& json(out@[i].1) matches Json::Object(payload)
            &&& payload.contains_key("content"@) && payload["content"@] == capped(text@)
            &&& forall|k: Seq<char>|
                payload.contains_key(k) ==> k == "content"@ || #[trigger] of_message(k)
        },
        message.content@[i] matches MessageContentBlock::Thinking(text) ==> {
            &&& out@[i].0@ == "agent_thinking"@
            &&& json(out@[i].1) matches Json::Object(payload)
            &&& payload.contains_key("content"@) && payload["content"@] == capped(text@)
            &&& forall|k: Seq<char>|
                payload.contains_key(k) ==> k == "content"@ || #[trigger] of_message(k)
        },
        message.content@[i] is RedactedThinking ==> {
            &&& out@[i].0@ == "agent_thinking"@
            &&& json(out@[i].1) matches Json::Object(payload)
            &&& payload.contains_key("redacted"@) && payload["redacted"@] == Json::Bool(true)
            &&& forall|k: Seq<char>|
                payload.contains_key(k) ==> k == "redacted"@ || #[trigger] of_message(k)
        },
        message.content@[i] matches MessageContentBlock::Image(mime_type) ==> {
            &&& out@[i].0@ == "prompt"@
            &&& json(out@[i].1) matches Json::Object(payload)
            &&& payload.contains_key("mime_type"@)
            &&& payload["mime_type"@] == Json::Text(mime_type@)
            &&& forall|k: Seq<char>|
                payload.contains_key(k) ==> k == "mime_type"@ || #[trigger] of_message(k)
        },
{
    lemma_payload_keys();
    assert(out@[i].0@ == block_kind(message.role, message.content@[i]));
    assert(json(out@[i].1) == block_payload(message, message.content@[i]));
}

/// A tool request names the tool and gives the arguments of the call, whoever
/// executed it: the JSON form of the arguments as far as the cap allows, `null`
/// where there are none. A call that could not be understood gives the reason
/// instead.
pub proof fn lemma_events_of_tool_requests(
    message: Message,
    out: Vec<(String, serde_json::Value)>,
    i: int,
)
    requires
        call_ensures(events_for_message, (&message,), out),
        0 <= i < message.content@.len(),
    ensures
        message.content@[i] matches MessageContentBlock::ToolRequest(request) ==> {
            &&& out@[i].0@ == "tool_call"@
            &&& json(out@[i].1) matches Json::Object(payload)
            &&& payload.contains_key("id"@) && payload["id"@] == Json::Text(request.id@)
            &&& payload.contains_key("external"@)
            &&& payload["external"@] == Json::Bool(request.external)
            &&& request.tool_call matches Ok(call) ==> {
                &&& payload.contains_key("tool_name"@)
                &&& payload["tool_name"@] == Json::Text(call.name@)
                &&& payload.contains_key("arguments"@)
                &&& call.arguments matches Some(arguments) ==> payload["arguments"@]
                    == capped_value(Json::Object(entries(arguments)))
                &&& call.arguments is None ==> payload["arguments"@] == capped_value(Json::Null)
                &&& forall|k: Seq<char>|
                    payload.contains_key(k) ==> k == "id"@ || k == "external"@ || k
                        == "tool_name"@ || k == "arguments"@ || #[trigger] of_message(k)
            }
            &&& request.tool_call matches Err(reason) ==> {
                &&& payload.contains_key("invalid"@)
                &&& payload["invalid"@] == Json::Text(reason@)
                &&& forall|k: Seq<char>|
                    payload.contains_key(k) ==> k == "id"@ || k == "external"@ || k == "invalid"@
                        || #[trigger] of_message(k)
            }
        },
{
    lemma_payload_keys();
    assert(out@[i].0@ == block_kind(message.role, message.content@[i]));
    assert(json(out@[i].1) == block_payload(message, message.content@[i]));
}

/// A tool response is well exactly when the tool could run and does not say
/// that it failed; it holds what the tool returned, or why it could not run.
pub proof fn lemma_events_of_tool_responses(
    message: Message,
    out: Vec<(String, serde_json::Value)>,
    i: int,
)
    requires
        call_ensures(events_for_message, (&message,), out),
        0 <= i < message.content@.len(),
    ensures
        message.content@[i] matches MessageContentBlock::ToolResponse(response) ==> {
            &&& out@[i].0@ == "tool_result"@
            &&& json(out@[i].1) matches Json::Object(payload)
            &&& payload.contains_key("id"@) && payload["id"@] == Json::Text(response.id@)
            &&& payload.contains_key("ok"@)
            &&& response.tool_result matches Ok(output) ==> {
                &&& output.is_error is None ==> payload["ok"@] == Json::Bool(true)
                &&& output.is_error matches Some(failed) ==> payload["ok"@] == Json::Bool(!failed)
                &&& payload.contains_key("content"@)
                &&& output.content matches Some(content) ==> payload["content"@] == capped_value(
                    json(content),
                )
                &&& output.content is None ==> payload["content"@] == capped_value(Json::Null)
                &&& forall|k: Seq<char>|
                    payload.contains_key(k) ==> k == "id"@ || k == "ok"@ || k == "content"@
                        || #[trigger] of_message(k)
            }
            &&& response.tool_result matches Err(reason) ==> {
                &&& payload["ok"@] == Json::Bool(false)
                &&& payload.contains_key("error"@) && payload["error"@] == Json::Text(reason@)
                &&& forall|k: Seq<char>|
                    payload.contains_key(k) ==> k == "id"@ || k == "ok"@ || k == "error"@
                        || #[trigger] of_message(k)
            }
        },
{
    lemma_payload_keys();
    assert(out@[i].0@ == block_kind(message.role, message.content@[i]));
    assert(json(out@[i].1) == block_payload(message, message.content@[i]));
}

/// What needs the user's permission gives a permission request, with the tool
/// and its arguments or with what is to be done.
pub proof fn lemma_events_of_permission_requests(
    message: Message,
    out: Vec<(String, serde_json::Value)>,
    i: int,
)
    requires
        call_ensures(events_for_message, (&message,), out),
        0 <= i < message.content@.len(),
    ensures
        message.content@[i] matches MessageContentBlock::ToolConfirmationRequest(request) ==> {
            &&& out@[i].0@ == "permission_request"@
            &&& json(out@[i].1) matches Json::Object(payload)
            &&& payload.contains_key("id"@) && payload["id"@] == Json::Text(request.id@)
            &&& payload.contains_key("tool_name"@)
            &&& payload["tool_name"@] == Json::Text(request.tool_name@)
            &&& payload.contains_key("arguments"@)
            &&& request.arguments matches Some(arguments) ==> payload["arguments"@]
                == capped_value(Json::Object(entries(arguments)))
            &&& request.arguments is None ==> payload["arguments"@] == capped_value(Json::Null)
            &&& forall|k: Seq<char>|
                payload.contains_key(k) ==> k == "id"@ || k == "tool_name"@ || k == "arguments"@
                    || #[trigger] of_message(k)
        },
        message.content@[i] matches MessageContentBlock::ActionRequired(data) ==> {
            &&& out@[i].0@ == "permission_request"@
            &&& json(out@[i].1) matches Json::Object(payload)
            &&& payload.contains_key("action"@)
            &&& data matches Some(data) ==> payload["action"@] == capped_value(json(data))
            &&& data is None ==> payload["action"@] == capped_value(Json::Null)
            &&& forall|k: Seq<char>|
                payload.contains_key(k) ==> k == "action"@ || #[trigger] of_message(k)
        },
{
    lemma_payload_keys();
    assert(out@[i].0@ == block_kind(message.role, message.content@[i]));
    assert(json(out@[i].1) == block_payload(message, message.content@[i]));
}

/// A call that the frontend executes is a tool call that says so and names the
/// tool if it could be understood; notices and failures hold what they say.
pub proof fn lemma_events_of_other_blocks(
    message: Message,
    out: Vec<(String, serde_json::Value)>,
    i: int,
)
    requires
        call_ensures(events_for_message, (&message,), out),
        0 <= i < message.content@.len(),
    ensures
        message.content@[i] matches MessageContentBlock::FrontendToolRequest(request) ==> {
            &&& out@[i].0@ == "tool_call"@
            &&& json(out@[i].1) matches Json::Object(payload)
            &&& payload.contains_key("id"@) && payload["id"@] == Json::Text(request.id@)
            &&& payload.contains_key("frontend"@) && payload["frontend"@] == Json::Bool(true)
            &&& payload.contains_key("tool_name"@) <==> request.tool_call is Ok
            &&& request.tool_call matches Ok(call) ==> payload["tool_name"@] == Json::Text(
                call.name@,
            )
            &&& forall|k: Seq<char>|
                payload.contains_key(k) ==> k == "id"@ || k == "frontend"@ || k == "tool_name"@
                    || #[trigger] of_message(k)
        },
        message.content@[i] matches MessageContentBlock::SystemNotification(notice) ==> {
            &&& out@[i].0@ == "system_notification"@
            &&& json(out@[i].1) matches Json::Object(payload)
            &&& payload.contains_key("notification"@)
            &&& notice matches Some(notice) ==> payload["notification"@] == capped_value(
                json(notice),
            )
            &&& notice is None ==> payload["notification"@] == capped_value(Json::Null)
            &&& forall|k: Seq<char>|
                payload.contains_key(k) ==> k == "notification"@ || #[trigger] of_message(k)
        },
        message.content@[i] matches MessageContentBlock::Error(error) ==> {
            &&& out@[i].0@ == "agent_error"@
            &&& json(out@[i].1) matches Json::Object(payload)
            &&& payload.contains_key("error"@)
            &&& error matches Some(error) ==> payload["error"@] == capped_value(json(error))
            &&& error is None ==> payload["error"@] == capped_value(Json::Null)
            &&& forall|k: Seq<char>|
                payload.contains_key(k) ==> k == "error"@ || #[trigger] of_message(k)
        },
{
    lemma_payload_keys();
    assert(out@[i].0@ == block_kind(message.role, message.content@[i]));
    assert(json(out@[i].1) == block_payload(message, message.content@[i]));
}

/// A text within the cap is held as it is and nothing is said of it; of a
/// longer one as much as the cap allows is held, with the length of the whole.
pub proof fn lemma_capped_holds_start(s: Seq<char>)
    ensures
        capped(s) matches Json::Object(field) && {
            &&& field.contains_key("text"@)
            &&& s.len() <= 200_000 ==> {
                &&& field["text"@] == Json::Text(s)
                &&& forall|k: Seq<char>| #[trigger] field.contains_key(k) ==> k == "text"@
            }
            &&& s.len() > 200_000 ==> {
                &&& field["text"@] == Json::Text(s.subrange(0, 200_000))
                &&& field.contains_key("truncated"@) && field["truncated"@] == Json::Bool(true)
                &&& field.contains_key("original_chars"@)
                &&& field["original_chars"@] == Json::Int(s.len() as int)
                &&& forall|k: Seq<char>| #[trigger]
                    field.contains_key(k) ==> k == "text"@ || k == "truncated"@ || k
                        == "original_chars"@
            }
        },
{
    reveal_strlit("text");
    reveal_strlit("truncated");
    reveal_strlit("original_chars");
    assert("text"@.len() == 4 && "truncated"@.len() == 9 && "original_chars"@.len() == 14);
    if s.len() > 200_000 {
        assert(s.take(TEXT_CAP as int) =~= s.subrange(0, 200_000));
    }
}

/// A value whose text is within the cap is held as it is; of a longer one as
/// much of the text as the cap allows is held, with the length of the whole.
pub proof fn lemma_capped_value_holds_start(v: Json, raw: Seq<char>)
    ensures
        capped_value(v) == capped_raw(v, compact(v)),
        raw.len() <= 200_000 ==> capped_raw(v, raw) == v,
        raw.len() > 200_000 ==> {
            &&& capped_raw(v, raw) matches Json::Object(field)
            &&& field.contains_key("json_truncated"@)
            &&& field["json_truncated"@] == Json::Text(raw.subrange(0, 200_000))
            &&& field.contains_key("truncated"@) && field["truncated"@] == Json::Bool(true)
            &&& field.contains_key("original_chars"@)
            &&& field["original_chars"@] == Json::Int(raw.len() as int)
            &&& forall|k: Seq<char>| #[trigger]
                field.contains_key(k) ==> k == "json_truncated"@ || k == "truncated"@ || k
                    == "original_chars"@
        },
{
    reveal_strlit("json_truncated");
    reveal_strlit("truncated");
    reveal_strlit("original_chars");
    assert("json_truncated"@[0] != "original_chars"@[0]);
    assert("truncated"@.len() == 9 && "json_truncated"@.len() == 14);
    if raw.len() > 200_000 {
        assert(raw.take(TEXT_CAP as int) =~= raw.subrange(0, 200_000));
    }
}

/// What the capping functions give is what is held of a text or of a value, and
/// the name of a role is that of the role.
pub proof fn lemma_cap_answers(
    s: &str,
    field: serde_json::Value,
    v: serde_json::Value,
    value_field: serde_json::Value,
    raw: &str,
    raw_field: serde_json::Value,
    role: Role,
    name: &'static str,
)
    requires
        call_ensures(cap, (s,), field),
        call_ensures(cap_value, (&v,), value_field),
        call_ensures(cap_raw, (&v, raw), raw_field),
        call_ensures(role_str, (&role,), name),
    ensures
        json(field) == capped(s@),
        json(value_field) == capped_value(json(v)),
        compact(json(v)).len() <= 200_000 ==> json(value_field) == json(v),
        raw@.len() <= 200_000 ==> json(raw_field) == json(v),
        raw@.len() > 200_000 ==> json(raw_field) == capped_raw(json(v), raw@),
        role == Role::User ==> name@ == "user"@,
        role == Role::Assistant ==> name@ == "assistant"@,
{
}

/// A copy of an event says the same in every field.
pub proof fn lemma_event_copies(event: HarnessEvent, copy: HarnessEvent)
    requires
        call_ensures(<HarnessEvent as Clone>::clone, (&event,), copy),
    ensures
        copy.v == event.v,
        copy.harness_session_id@ == event.harness_session_id@,
        text_of(copy.principal) == text_of(event.principal),
        text_of(copy.profile_id) == text_of(event.profile_id),
        text_of(copy.goose_session_id) == text_of(event.goose_session_id),
        copy.seq == event.seq,
        copy.ts@ == event.ts@,
        copy.kind@ == event.kind@,
        json(copy.payload) == json(event.payload),
{
}

} // verus!
