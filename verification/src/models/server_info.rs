//! What a server says about itself at initialization.
use vstd::prelude::*;

verus! {

/// Inspect a server.
pub struct ServerInspectRequest {
    pub server: String,
}

/// What is known of a server.
pub struct ServerInspectResponse {
    pub server_name: String,
    pub implementation: ServerImplementation,
    pub capabilities: ServerCapabilitiesInfo,
    pub connection_status: ConnectionStatus,
    pub protocol_version: Option<String>,
    pub instructions: Option<String>,
}

/// Name and version of a server's implementation.
pub struct ServerImplementation {
    pub name: String,
    pub title: Option<String>,
    pub version: String,
    pub website_url: Option<String>,
}

/// The capabilities a server declares.
#[derive(PartialEq, Eq, Structural, Clone, Copy, Debug)]
pub struct ServerCapabilitiesInfo {
    pub logging: bool,
    pub experimental: bool,
    pub completions: bool,
    pub prompts: PromptCapabilityInfo,
    pub resources: ResourceCapabilityInfo,
    pub tools: ToolCapabilityInfo,
}

/// Prompt capability.
#[derive(PartialEq, Eq, Structural, Clone, Copy, Debug)]
pub struct PromptCapabilityInfo {
    pub supported: bool,
    pub list_changed: bool,
}

/// Resource capability.
#[derive(PartialEq, Eq, Structural, Clone, Copy, Debug)]
pub struct ResourceCapabilityInfo {
    pub supported: bool,
    pub subscribe: bool,
    pub list_changed: bool,
}

/// Tool capability.
#[derive(PartialEq, Eq, Structural, Clone, Copy, Debug)]
pub struct ToolCapabilityInfo {
    pub supported: bool,
    pub list_changed: bool,
}

/// State of the connection to a server.
#[derive(PartialEq, Eq, Structural, Clone, Copy, Debug)]
pub enum ConnectionStatus {
    Connected,
    Disconnected,
    Error,
}

/// No capability at all.
pub open spec fn no_capabilities() -> ServerCapabilitiesInfo {
    ServerCapabilitiesInfo {
        logging: false,
        experimental: false,
        completions: false,
        prompts: PromptCapabilityInfo { supported: false, list_changed: false },
        resources: ResourceCapabilityInfo { supported: false, subscribe: false, list_changed: false },
        tools: ToolCapabilityInfo { supported: false, list_changed: false },
    }
}

impl Default for ServerCapabilitiesInfo {
    /// No capability at all.
    fn default() -> (r: ServerCapabilitiesInfo)
        ensures
            r == no_capabilities(),
    {
        ServerCapabilitiesInfo {
            logging: false,
            experimental: false,
            completions: false,
            prompts: PromptCapabilityInfo { supported: false, list_changed: false },
            resources: ResourceCapabilityInfo { supported: false, subscribe: false, list_changed: false },
            tools: ToolCapabilityInfo { supported: false, list_changed: false },
        }
    }
}

/// A capability that may announce changes of its list.
#[derive(PartialEq, Eq, Structural, Clone, Copy, Debug)]
pub struct ListCapability {
    pub list_changed: Option<bool>,
}

/// The resource capability as declared.
#[derive(PartialEq, Eq, Structural, Clone, Copy, Debug)]
pub struct ResourceCapability {
    pub subscribe: Option<bool>,
    pub list_changed: Option<bool>,
}

/// The capabilities a server declares at initialization, as sent: which are
/// present, and their flags where given.
#[derive(PartialEq, Eq, Structural, Clone, Copy, Debug)]
pub struct DeclaredCapabilities {
    pub logging: bool,
    pub experimental: bool,
    pub completions: bool,
    pub prompts: Option<ListCapability>,
    pub resources: Option<ResourceCapability>,
    pub tools: Option<ListCapability>,
}

} // verus!
