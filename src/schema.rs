//! The protocol's data as this library reads it: content blocks, tool-call
//! content, permission requests and session updates.
use vstd::prelude::*;

use crate::permission::ToolCallStatus;

verus! {

/// The JSON value in which an agent passes a tool call's raw input; carried
/// through unread but for whether it is an object.
#[verifier::external_type_specification]
#[verifier::external_body]
pub struct ExJsonValue(serde_json::Value);

/// Whether a JSON value is an object.
pub uninterp spec fn json_is_object(v: serde_json::Value) -> bool;

/// Relies on serde_json's `Value::is_object`: true for the object variant,
/// which depends on the value alone.
pub assume_specification[ serde_json::Value::is_object ](v: &serde_json::Value) -> (r: bool)
    ensures
        r == json_is_object(*v),
;

/// Relies on serde_json's derived `Clone` for `Value`: the copy equals the
/// value copied.
pub assume_specification[ <serde_json::Value as Clone>::clone ](v: &serde_json::Value) -> (r:
    serde_json::Value)
    ensures
        r == *v,
;

/// A block of content; the library reads and writes text only.
#[derive(Clone, Debug)]
pub enum ContentBlock {
    Text(String),
    Other,
}

/// What a tool call carries: a content block, or something else (a diff, a
/// terminal) that is not read here.
#[derive(Clone, Debug)]
pub enum ToolCallContent {
    Content(ContentBlock),
    Other,
}

impl ToolCallContent {
    /// The text of the block, where the content is a text block.
    pub open spec fn text_of(self) -> Option<Seq<char>> {
        match self {
            ToolCallContent::Content(ContentBlock::Text(t)) => Some(t@),
            _ => None,
        }
    }
}

/// The kind of an answer that the agent offers to a permission request.
#[derive(Clone, Copy, Debug, PartialEq, Eq, Structural)]
pub enum PermissionOptionKind {
    AllowOnce,
    AllowAlways,
    RejectOnce,
    RejectAlways,
}

/// An answer that the agent offers to a permission request.
#[derive(Clone, Debug)]
pub struct PermissionOption {
    pub option_id: String,
    pub kind: PermissionOptionKind,
}

/// The agent's question whether a tool call may run.
#[derive(Debug)]
pub struct PermissionRequest {
    pub tool_call_id: String,
    pub title: Option<String>,
    pub raw_input: Option<serde_json::Value>,
    pub content: Option<Vec<ToolCallContent>>,
    pub options: Vec<PermissionOption>,
}

/// The answer sent back to the agent's permission request.
#[derive(Clone, Debug)]
pub enum PermissionOutcome {
    Selected(String),
    Cancelled,
}

impl PermissionOutcome {
    pub open spec fn view_id(self) -> Option<Seq<char>> {
        match self {
            PermissionOutcome::Selected(id) => Some(id@),
            PermissionOutcome::Cancelled => None,
        }
    }
}

/// Why the agent ended a prompt.
#[derive(Clone, Copy, Debug, PartialEq, Eq, Structural)]
pub enum StopReason {
    EndTurn,
    MaxTokens,
    MaxTurnRequests,
    Refusal,
    Cancelled,
}

/// A `session/update` notification, as far as the library reads it.
#[derive(Debug)]
pub enum SessionUpdate {
    AgentMessageChunk(ContentBlock),
    AgentThoughtChunk(ContentBlock),
    ToolCall { id: String, title: String, raw_input: Option<serde_json::Value> },
    ToolCallUpdate {
        id: String,
        status: Option<ToolCallStatus>,
        content: Option<Vec<ToolCallContent>>,
    },
    Other,
}

} // verus!
