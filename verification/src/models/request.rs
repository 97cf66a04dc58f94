//! Requests that the inspector's own tools accept.
use vstd::prelude::*;
use std::collections::HashMap;
use crate::models::json::JsonValue;

verus! {

/// List the tools of a server.
pub struct ToolsListRequest {
    pub server: String,
}

/// Call a tool of a server.
pub struct ToolCallRequest {
    pub server: String,
    pub tool_name: String,
    pub arguments: JsonValue,
}

/// List the resources of a server.
pub struct ResourcesListRequest {
    pub server: String,
}

/// Read a resource of a server.
pub struct ResourceReadRequest {
    pub server: String,
    pub uri: String,
}

/// List the prompts of a server.
pub struct PromptsListRequest {
    pub server: String,
}

/// Get a prompt of a server.
pub struct PromptGetRequest {
    pub server: String,
    pub name: String,
    pub arguments: HashMap<String, String>,
}

/// Read the sampling log of a server.
pub struct SamplingLogsRequest {
    pub server: String,
    /// At most this many entries (100 when not given).
    pub limit: usize,
    /// `all`, `success` or `failed` (`all` when not given).
    pub status: String,
}

impl SamplingLogsRequest {
    /// A request with the defaults: 100 entries, every status.
    pub fn with_defaults(server: String) -> (r: SamplingLogsRequest)
        ensures
            r.server == server,
            r.limit == 100,
            r.status@ == "all"@,
    {
        SamplingLogsRequest { server, limit: 100, status: String::from_str("all") }
    }
}

} // verus!
