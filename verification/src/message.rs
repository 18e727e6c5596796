//! Conversation messages, as far as events are derived from them.

use crate::json::Object;
use vstd::prelude::*;

verus! {

/// Who a message is from.
#[derive(Debug, Clone, Copy, PartialEq, Eq, Structural)]
pub enum Role {
    /// The human.
    User,
    /// The agent.
    Assistant,
}

/// One message of a conversation.
pub struct Message {
    /// Identifier, once the message has been stored.
    pub id: Option<String>,
    /// Who the message is from.
    pub role: Role,
    /// Creation time in seconds since the Unix epoch.
    pub created: i64,
    /// What the message consists of, in order.
    pub content: Vec<MessageContentBlock>,
    /// Whether the message is part of the agent's context.
    pub agent_visible: bool,
    /// Whether the message is shown to the user.
    pub user_visible: bool,
}

/// A call that names a tool.
pub struct ToolCall {
    /// Full name of the tool.
    pub name: String,
    /// Arguments of the call.
    pub arguments: Option<Object>,
}

/// A request to run a tool.
pub struct ToolRequest {
    /// Identifier that the response repeats.
    pub id: String,
    /// Whether an external agent has already executed the tool.
    pub external: bool,
    /// The call, or why it could not be understood.
    pub tool_call: Result<ToolCall, String>,
}

/// What a tool returned.
pub struct ToolOutput {
    /// Whether the tool says that it failed.
    pub is_error: Option<bool>,
    /// JSON form of the whole result, if it has one.
    pub content: Option<serde_json::Value>,
}

/// The answer to a [`ToolRequest`].
pub struct ToolResponse {
    /// Identifier of the request.
    pub id: String,
    /// What the tool returned, or why it could not run.
    pub tool_result: Result<ToolOutput, String>,
}

/// A request that the user confirm a tool call.
pub struct ToolConfirmationRequest {
    /// Identifier of the request.
    pub id: String,
    /// Full name of the tool.
    pub tool_name: String,
    /// Arguments of the call.
    pub arguments: Option<Object>,
}

/// A tool call that the frontend executes.
pub struct FrontendToolRequest {
    /// Identifier that the response repeats.
    pub id: String,
    /// The call, or why it could not be understood.
    pub tool_call: Result<ToolCall, String>,
}

/// One block of a message.
pub enum MessageContentBlock {
    /// Plain text.
    Text(String),
    /// What the agent thought.
    Thinking(String),
    /// A thought whose text is withheld.
    RedactedThinking,
    /// An image of the given MIME type.
    Image(String),
    /// A request to run a tool.
    ToolRequest(ToolRequest),
    /// The answer to a tool request.
    ToolResponse(ToolResponse),
    /// A request that the user confirm a tool call.
    ToolConfirmationRequest(ToolConfirmationRequest),
    /// Something the user has to do, in its JSON form if it has one.
    ActionRequired(Option<serde_json::Value>),
    /// A tool call that the frontend executes.
    FrontendToolRequest(FrontendToolRequest),
    /// A notice of the system, in its JSON form if it has one.
    SystemNotification(Option<serde_json::Value>),
    /// A failure of the agent, in its JSON form if it has one.
    Error(Option<serde_json::Value>),
}

} // verus!
