//! The conversation that a sampling request carries, and what comes back.
use crate::json::Json;
use vstd::prelude::*;

verus! {

/// One piece of a user message.
pub enum ContentPart {
    Text { text: String },
    /// An image, by its location.
    Image { url: String },
}

/// A tool invocation asked for by the model. `arguments` is JSON text.
pub struct ToolCall {
    pub id: String,
    pub name: String,
    pub arguments: String,
}

pub struct SystemItem {
    pub content: String,
}

pub struct UserItem {
    pub content: Vec<ContentPart>,
}

pub struct AssistantItem {
    pub content: String,
    pub tool_calls: Vec<ToolCall>,
    pub model_id: Option<String>,
}

pub struct ToolResultItem {
    pub tool_call_id: String,
    pub content: String,
}

/// One entry of a conversation.
pub enum ConversationItem {
    System(SystemItem),
    User(UserItem),
    Assistant(AssistantItem),
    ToolResult(ToolResultItem),
    /// The model's reasoning text.
    Reasoning(String),
    /// A tool run by the provider itself.
    BackendToolCall(String),
}

/// A tool the model may call. `parameters` is its JSON schema.
pub struct ToolSpec {
    pub name: String,
    pub description: Option<String>,
    pub parameters: Json,
}

/// What is asked of a provider. The sampling parameters that are fractions are held as the JSON
/// values they are sent as.
pub struct ConversationRequest {
    pub items: Vec<ConversationItem>,
    pub tools: Vec<ToolSpec>,
    pub model: Option<String>,
    pub temperature: Option<Json>,
    pub top_p: Option<Json>,
    pub max_output_tokens: Option<u32>,
}

impl Default for ConversationRequest {
    fn default() -> (r: Self)
        ensures
            r.items@.len() == 0,
            r.tools@.len() == 0,
            r.model is None,
            r.temperature is None,
            r.top_p is None,
            r.max_output_tokens is None,
    {
        ConversationRequest {
            items: Vec::new(),
            tools: Vec::new(),
            model: None,
            temperature: None,
            top_p: None,
            max_output_tokens: None,
        }
    }
}

} // verus!
