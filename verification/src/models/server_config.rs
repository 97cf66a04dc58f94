//! How to reach a target server.
use vstd::prelude::*;
use std::collections::HashMap;
use crate::models::logging_config::LoggingConfig;

verus! {

/// Transport to a target server.
#[derive(PartialEq, Eq, Structural, Clone, Copy, Debug)]
pub enum TransportType {
    /// A child process spoken to over standard input and output.
    Stdio,
}

/// The command that starts a server.
#[derive(Clone, Debug)]
pub struct ConnectionParams {
    pub command: String,
    pub args: Vec<String>,
    pub env: HashMap<String, String>,
}

/// One target server.
#[derive(Clone, Debug)]
pub struct ServerConfig {
    pub name: String,
    pub transport: TransportType,
    pub params: ConnectionParams,
}

/// The inspector's configuration file.
pub struct InspectorConfig {
    pub servers: Vec<ServerConfig>,
    pub logging: LoggingConfig,
}

impl ServerConfig {
    /// A server started as a child process by `command` with `args` and `env`.
    pub fn new_stdio(name: String, command: String, args: Vec<String>, env: HashMap<String, String>) -> (r: ServerConfig)
        ensures
            r.name == name,
            r.transport == TransportType::Stdio,
            r.params.command == command,
            r.params.args == args,
            r.params.env == env,
    {
        ServerConfig { name, transport: TransportType::Stdio, params: ConnectionParams { command, args, env } }
    }
}

} // verus!
