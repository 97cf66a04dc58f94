//! The project configuration: target servers, sampling log settings and
//! execution settings.
use vstd::prelude::*;
use std::collections::HashMap;
use crate::models::execution_config::{default_execution_config, ExecutionConfig};
use crate::models::logging_config::{LoggingBackend, LoggingConfig};
use crate::models::server_config::{ConnectionParams, ServerConfig, TransportType};
use crate::error::InspectorError;
use crate::text::{concat2, str_eq};

verus! {

/// The project configuration file.
pub struct ProjectConfig {
    pub servers: Vec<ServerEntry>,
    pub logging: LoggingSettings,
    pub execution_config: ExecutionConfig,
}

/// One target server of the project.
#[derive(Clone, Debug)]
pub struct ServerEntry {
    pub name: String,
    /// Transport type; only `stdio` is supported.
    pub transport: String,
    pub command: String,
    pub args: Vec<String>,
    pub env: HashMap<String, String>,
}

/// Where the sampling log is kept.
#[derive(Clone, Debug)]
pub struct LoggingSettings {
    /// `memory` or `persistent`.
    pub backend: String,
    pub db_path: String,
    pub max_logs: usize,
}

/// Whether `l` holds the default sampling log settings: in memory, database
/// `./data/logs.db`, 10000 entries.
pub open spec fn default_logging_settings(l: LoggingSettings) -> bool {
    &&& l.backend@ == "memory"@
    &&& l.db_path@ == "./data/logs.db"@
    &&& l.max_logs == 10000
}

impl Default for LoggingSettings {
    fn default() -> (r: LoggingSettings)
        ensures
            default_logging_settings(r),
    {
        LoggingSettings {
            backend: String::from_str("memory"),
            db_path: String::from_str("./data/logs.db"),
            max_logs: 10000,
        }
    }
}

impl Default for ProjectConfig {
    /// No servers, default sampling log and execution settings.
    fn default() -> (r: ProjectConfig)
        ensures
            r.servers@.len() == 0,
            default_logging_settings(r.logging),
            r.execution_config == default_execution_config(),
    {
        ProjectConfig {
            servers: Vec::new(),
            logging: LoggingSettings::default(),
            execution_config: ExecutionConfig::default(),
        }
    }
}

impl ServerEntry {
    /// An entry with the given fields.
    pub fn new(
        name: String,
        transport: String,
        command: String,
        args: Vec<String>,
        env: HashMap<String, String>,
    ) -> (r: ServerEntry)
        ensures
            r.name == name,
            r.transport == transport,
            r.command == command,
            r.args == args,
            r.env == env,
    {
        ServerEntry { name, transport, command, args, env }
    }
}

/// The first entry, from position `j` on, whose transport is not `stdio`.
pub open spec fn first_unsupported(s: Seq<ServerEntry>, j: int) -> Option<int>
    decreases s.len() - j,
{
    if j < 0 || j >= s.len() {
        None
    } else if s[j].transport@ != "stdio"@ {
        Some(j)
    } else {
        first_unsupported(s, j + 1)
    }
}

/// Whether `c` is the server configuration of the entry `e`.
pub open spec fn config_of_entry(c: ServerConfig, e: ServerEntry) -> bool {
    &&& c.name@ == e.name@
    &&& c.transport == TransportType::Stdio
    &&& c.params.command@ == e.command@
    &&& c.params.args@.len() == e.args@.len()
    &&& forall|i: int| 0 <= i < e.args@.len() ==> (#[trigger] c.params.args@[i])@ == e.args@[i]@
    &&& c.params.env@ == e.env@
}

/// The server configurations of the project's entries; an error at the first
/// entry whose transport is not `stdio`.
pub fn convert_server_entries(entries: &Vec<ServerEntry>) -> (r: Result<Vec<ServerConfig>, InspectorError>)
    ensures
        match first_unsupported(entries@, 0) {
            Some(j) => r matches Err(InspectorError::Config(m)) && m@ == "Unsupported transport type: "@ + entries@[j].transport@,
            None => r matches Ok(cs) && cs@.len() == entries@.len()
                && forall|i: int| 0 <= i < cs@.len() ==> config_of_entry(#[trigger] cs@[i], entries@[i]),
        },
{
    let mut out: Vec<ServerConfig> = Vec::new();
    let mut j: usize = 0;
    while j < entries.len()
        invariant
            j <= entries@.len(),
            first_unsupported(entries@, 0) == first_unsupported(entries@, j as int),
            out@.len() == j,
            forall|i: int| 0 <= i < j ==> config_of_entry(#[trigger] out@[i], entries@[i]),
        decreases entries@.len() - j,
    {
        let e = &entries[j];
        if !str_eq(e.transport.as_str(), "stdio") {
            return Err(InspectorError::Config(concat2("Unsupported transport type: ", e.transport.as_str())));
        }
        let mut args: Vec<String> = Vec::new();
        let mut k: usize = 0;
        while k < e.args.len()
            invariant
                k <= e.args@.len(),
                args@.len() == k,
                forall|i: int| 0 <= i < k ==> (#[trigger] args@[i])@ == e.args@[i]@,
            decreases e.args@.len() - k,
        {
            args.push(e.args[k].clone());
            k = k + 1;
        }
        out.push(ServerConfig {
            name: e.name.clone(),
            transport: TransportType::Stdio,
            params: ConnectionParams { command: e.command.clone(), args, env: e.env.clone() },
        });
        j = j + 1;
    }
    Ok(out)
}

/// The sampling log configuration of the project's settings: persistent
/// (with its database path) when the backend is `persistent`, in memory
/// otherwise.
pub fn convert_logging_settings(settings: &LoggingSettings) -> (r: LoggingConfig)
    ensures
        r.backend == (if settings.backend@ == "persistent"@ { LoggingBackend::Persistent } else { LoggingBackend::Memory }),
        match r.db_path {
            Some(p) => settings.backend@ == "persistent"@ && p@ == settings.db_path@,
            None => settings.backend@ != "persistent"@,
        },
        r.max_logs == settings.max_logs,
{
    let persistent = str_eq(settings.backend.as_str(), "persistent");
    LoggingConfig {
        backend: if persistent { LoggingBackend::Persistent } else { LoggingBackend::Memory },
        db_path: if persistent { Some(settings.db_path.clone()) } else { None },
        max_logs: settings.max_logs,
    }
}

} // verus!
