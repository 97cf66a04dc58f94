//! Answers of the inspector's own tools.
use vstd::prelude::*;
use crate::models::json::JsonValue;

verus! {

/// A tool of a server.
pub struct ToolInfo {
    pub name: String,
    pub description: Option<String>,
    pub input_schema: Option<JsonValue>,
}

/// The tools of a server.
pub struct ToolsListResponse {
    pub server: String,
    pub tools: Vec<ToolInfo>,
}

/// What a tool call returned.
pub struct ToolCallResponse {
    pub server: String,
    pub tool_name: String,
    pub result: JsonValue,
}

/// A resource of a server.
pub struct ResourceInfo {
    pub uri: String,
    pub name: Option<String>,
    pub description: Option<String>,
    pub mime_type: Option<String>,
}

/// The resources of a server.
pub struct ResourcesListResponse {
    pub server: String,
    pub resources: Vec<ResourceInfo>,
}

/// Content of a resource: text or a base64 blob.
pub struct ResourceContent {
    pub uri: String,
    pub mime_type: Option<String>,
    pub text: Option<String>,
    pub blob: Option<String>,
}

/// What reading a resource returned.
pub struct ResourceReadResponse {
    pub server: String,
    pub uri: String,
    pub contents: Vec<ResourceContent>,
}

/// An argument of a prompt.
pub struct PromptArgument {
    pub name: String,
    pub description: Option<String>,
    pub required: bool,
}

/// A prompt of a server.
pub struct PromptInfo {
    pub name: String,
    pub description: Option<String>,
    pub arguments: Vec<PromptArgument>,
}

/// The prompts of a server.
pub struct PromptsListResponse {
    pub server: String,
    pub prompts: Vec<PromptInfo>,
}

/// A message of a prompt.
pub struct PromptMessage {
    pub role: String,
    pub content: JsonValue,
}

/// What getting a prompt returned.
pub struct PromptGetResponse {
    pub server: String,
    pub name: String,
    pub messages: Vec<PromptMessage>,
}

} // verus!
