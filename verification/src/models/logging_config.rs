//! Where sampling logs are kept.
use vstd::prelude::*;

verus! {

/// The storage of sampling logs.
#[derive(PartialEq, Eq, Structural, Clone, Copy, Debug)]
pub enum LoggingBackend {
    /// In memory; lost when the process ends.
    Memory,
    /// In a database on disk.
    Persistent,
}

impl Default for LoggingBackend {
    fn default() -> (r: LoggingBackend)
        ensures
            r == LoggingBackend::Memory,
    {
        LoggingBackend::Memory
    }
}

/// Configuration of the sampling log.
#[derive(Clone, Debug)]
pub struct LoggingConfig {
    pub backend: LoggingBackend,
    /// Database path, needed by the persistent backend.
    pub db_path: Option<String>,
    /// How many entries are kept.
    pub max_logs: usize,
}

/// The message of a persistent configuration without a database path.
pub open spec fn missing_db_path_message() -> Seq<char> {
    "db_path is required when backend = \"persistent\""@
}

impl Default for LoggingConfig {
    /// In memory, 10000 entries.
    fn default() -> (r: LoggingConfig)
        ensures
            r.backend == LoggingBackend::Memory,
            r.db_path is None,
            r.max_logs == 10000,
    {
        LoggingConfig { backend: LoggingBackend::Memory, db_path: None, max_logs: 10000 }
    }
}

impl LoggingConfig {
    /// A persistent backend needs a database path.
    pub fn validate(&self) -> (r: Result<(), String>)
        ensures
            r is Err <==> (self.backend == LoggingBackend::Persistent && self.db_path is None),
            r matches Err(m) ==> m@ == missing_db_path_message(),
    {
        if self.backend == LoggingBackend::Persistent && self.db_path.is_none() {
            return Err(String::from_str("db_path is required when backend = \"persistent\""));
        }
        Ok(())
    }
}

} // verus!
