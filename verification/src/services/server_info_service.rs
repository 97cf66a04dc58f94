//! What the inspector reports about a server.
use vstd::prelude::*;
use crate::models::server_info::{
    no_capabilities, ConnectionStatus, DeclaredCapabilities, PromptCapabilityInfo, ResourceCapabilityInfo,
    ServerCapabilitiesInfo, ServerImplementation, ServerInspectResponse, ToolCapabilityInfo,
};

verus! {

/// The flag `f` when given, `false` otherwise.
pub open spec fn flag_or_false(f: Option<bool>) -> bool {
    match f {
        Some(b) => b,
        None => false,
    }
}

/// The capabilities as reported: which are declared, with their flags (absent
/// flags read as `false`).
pub open spec fn capabilities_info(c: DeclaredCapabilities) -> ServerCapabilitiesInfo {
    ServerCapabilitiesInfo {
        logging: c.logging,
        experimental: c.experimental,
        completions: c.completions,
        prompts: PromptCapabilityInfo {
            supported: c.prompts is Some,
            list_changed: match c.prompts { Some(p) => flag_or_false(p.list_changed), None => false },
        },
        resources: ResourceCapabilityInfo {
            supported: c.resources is Some,
            subscribe: match c.resources { Some(r) => flag_or_false(r.subscribe), None => false },
            list_changed: match c.resources { Some(r) => flag_or_false(r.list_changed), None => false },
        },
        tools: ToolCapabilityInfo {
            supported: c.tools is Some,
            list_changed: match c.tools { Some(t) => flag_or_false(t.list_changed), None => false },
        },
    }
}

/// Each reported capability follows its own declaration: prompts, resources
/// and tools are supported exactly when declared, and a flag of one is set
/// exactly when that capability is declared with the flag given as `true`.
/// What is reported of one capability depends on its declaration alone.
pub proof fn lemma_capabilities_follow_declarations(c: DeclaredCapabilities, d: DeclaredCapabilities)
    ensures
        capabilities_info(c).prompts.supported <==> c.prompts is Some,
        capabilities_info(c).resources.supported <==> c.resources is Some,
        capabilities_info(c).tools.supported <==> c.tools is Some,
        capabilities_info(c).prompts.list_changed <==> (c.prompts matches Some(p) && p.list_changed == Some(true)),
        capabilities_info(c).resources.subscribe <==> (c.resources matches Some(r) && r.subscribe == Some(true)),
        capabilities_info(c).resources.list_changed <==> (c.resources matches Some(r) && r.list_changed == Some(true)),
        capabilities_info(c).tools.list_changed <==> (c.tools matches Some(t) && t.list_changed == Some(true)),
        capabilities_info(c).logging == c.logging,
        capabilities_info(c).experimental == c.experimental,
        capabilities_info(c).completions == c.completions,
        c.prompts == d.prompts ==> capabilities_info(c).prompts == capabilities_info(d).prompts,
        c.resources == d.resources ==> capabilities_info(c).resources == capabilities_info(d).resources,
        c.tools == d.tools ==> capabilities_info(c).tools == capabilities_info(d).tools,
{
}

fn flag(f: Option<bool>) -> (r: bool)
    ensures
        r == flag_or_false(f),
{
    match f {
        Some(b) => b,
        None => false,
    }
}

/// Builds the reports on servers.
pub struct ServerInfoService;

impl ServerInfoService {
    /// The capabilities as reported.
    pub fn parse_capabilities(caps: &DeclaredCapabilities) -> (r: ServerCapabilitiesInfo)
        ensures
            r == capabilities_info(*caps),
    {
        ServerCapabilitiesInfo {
            logging: caps.logging,
            experimental: caps.experimental,
            completions: caps.completions,
            prompts: PromptCapabilityInfo {
                supported: caps.prompts.is_some(),
                list_changed: match caps.prompts { Some(p) => flag(p.list_changed), None => false },
            },
            resources: ResourceCapabilityInfo {
                supported: caps.resources.is_some(),
                subscribe: match caps.resources { Some(r) => flag(r.subscribe), None => false },
                list_changed: match caps.resources { Some(r) => flag(r.list_changed), None => false },
            },
            tools: ToolCapabilityInfo {
                supported: caps.tools.is_some(),
                list_changed: match caps.tools { Some(t) => flag(t.list_changed), None => false },
            },
        }
    }

    /// The report on a server that is not connected: unknown implementation,
    /// no capability.
    pub fn disconnected_info(server_name: String) -> (r: ServerInspectResponse)
        ensures
            r.server_name == server_name,
            r.implementation.name@ == "Unknown"@,
            r.implementation.version@ == "Unknown"@,
            r.implementation.title is None,
            r.implementation.website_url is None,
            r.capabilities == no_capabilities(),
            r.connection_status == ConnectionStatus::Disconnected,
            r.protocol_version is None,
            r.instructions is None,
    {
        ServerInspectResponse {
            server_name,
            implementation: ServerImplementation {
                name: String::from_str("Unknown"),
                title: None,
                version: String::from_str("Unknown"),
                website_url: None,
            },
            capabilities: ServerCapabilitiesInfo::default(),
            connection_status: ConnectionStatus::Disconnected,
            protocol_version: None,
            instructions: None,
        }
    }

    /// The report on a connected server from what it sent at initialization.
    pub fn connected_info(
        server_name: String,
        implementation: ServerImplementation,
        capabilities: &DeclaredCapabilities,
        protocol_version: String,
        instructions: Option<String>,
    ) -> (r: ServerInspectResponse)
        ensures
            r.server_name == server_name,
            r.implementation == implementation,
            r.capabilities == capabilities_info(*capabilities),
            r.connection_status == ConnectionStatus::Connected,
            r.protocol_version == Some(protocol_version),
            r.instructions == instructions,
    {
        ServerInspectResponse {
            server_name,
            implementation,
            capabilities: Self::parse_capabilities(capabilities),
            connection_status: ConnectionStatus::Connected,
            protocol_version: Some(protocol_version),
            instructions,
        }
    }
}

} // verus!
