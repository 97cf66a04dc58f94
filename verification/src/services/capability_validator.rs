//! Checks of an operation against the capabilities a server declared.
use vstd::prelude::*;
use crate::models::server_info::DeclaredCapabilities;
use crate::text::concat3;

verus! {

/// The outcome of checking an operation against declared capabilities.
#[derive(Debug)]
pub enum CapabilityValidationResult {
    /// The capability is declared.
    Valid,
    /// The capability is not declared; the operation is attempted anyway.
    Warning { message: String },
    /// Nothing is known of the server's capabilities.
    Unavailable,
}

/// Checks operations against the capabilities of one server.
pub struct CapabilityValidator {
    pub capabilities: Option<DeclaredCapabilities>,
}

/// Whether `r` is the outcome of checking a capability that is `declared`
/// (when known), warning with `warning` when it is not.
pub open spec fn validation_outcome(r: CapabilityValidationResult, declared: Option<bool>, warning: Seq<char>) -> bool {
    match declared {
        None => r is Unavailable,
        Some(true) => r is Valid,
        Some(false) => r matches CapabilityValidationResult::Warning { message } && message@ == warning,
    }
}

impl CapabilityValidator {
    /// A validator for the capabilities `capabilities`, when known.
    pub fn new(capabilities: Option<DeclaredCapabilities>) -> (r: CapabilityValidator)
        ensures
            r.capabilities == capabilities,
    {
        CapabilityValidator { capabilities }
    }

    /// Whether calling the tool `tool_name` is backed by a declared tools capability.
    pub fn validate_tools_call(&self, tool_name: &str) -> (r: CapabilityValidationResult)
        ensures
            validation_outcome(r, match self.capabilities { Some(c) => Some(c.tools is Some), None => None },
                "Warning: Server does not declare tools capability, but attempting to call tool '"@ + tool_name@ + "'"@),
    {
        match &self.capabilities {
            None => CapabilityValidationResult::Unavailable,
            Some(caps) => if caps.tools.is_some() {
                CapabilityValidationResult::Valid
            } else {
                CapabilityValidationResult::Warning {
                    message: concat3("Warning: Server does not declare tools capability, but attempting to call tool '", tool_name, "'"),
                }
            },
        }
    }

    /// Whether reading the resource `uri` is backed by a declared resources capability.
    pub fn validate_resources_read(&self, uri: &str) -> (r: CapabilityValidationResult)
        ensures
            validation_outcome(r, match self.capabilities { Some(c) => Some(c.resources is Some), None => None },
                "Warning: Server does not declare resources capability, but attempting to read resource '"@ + uri@ + "'"@),
    {
        match &self.capabilities {
            None => CapabilityValidationResult::Unavailable,
            Some(caps) => if caps.resources.is_some() {
                CapabilityValidationResult::Valid
            } else {
                CapabilityValidationResult::Warning {
                    message: concat3("Warning: Server does not declare resources capability, but attempting to read resource '", uri, "'"),
                }
            },
        }
    }

    /// Whether getting the prompt `prompt_name` is backed by a declared prompts capability.
    pub fn validate_prompts_get(&self, prompt_name: &str) -> (r: CapabilityValidationResult)
        ensures
            validation_outcome(r, match self.capabilities { Some(c) => Some(c.prompts is Some), None => None },
                "Warning: Server does not declare prompts capability, but attempting to get prompt '"@ + prompt_name@ + "'"@),
    {
        match &self.capabilities {
            None => CapabilityValidationResult::Unavailable,
            Some(caps) => if caps.prompts.is_some() {
                CapabilityValidationResult::Valid
            } else {
                CapabilityValidationResult::Warning {
                    message: concat3("Warning: Server does not declare prompts capability, but attempting to get prompt '", prompt_name, "'"),
                }
            },
        }
    }
}

} // verus!
