//! Choice of the sampling log backend from the configuration.
use vstd::prelude::*;
use crate::models::logging_config::{missing_db_path_message, LoggingBackend, LoggingConfig};
use crate::services::logger_backend::LoggerBackend;
use crate::services::memory_logger::MemoryLogger;
use crate::models::sampling::SamplingLogEntryView;
use crate::text::{concat2, copy_string};

verus! {

/// The backend that a configuration asks for.
pub enum LoggerChoice {
    /// An empty memory logger.
    Memory(MemoryLogger),
    /// A database at `db_path` keeping `max_logs` entries per server; opening
    /// it is left to the caller.
    Persistent { db_path: String, max_logs: usize },
}

/// The backend for `config`: a memory logger of its capacity, or the database
/// to open; an error when a persistent backend has no database path.
pub fn create_logger(config: &LoggingConfig) -> (r: Result<LoggerChoice, String>)
    ensures
        r is Err <==> (config.backend == LoggingBackend::Persistent && config.db_path is None),
        r matches Err(m) ==> m@ == "Invalid logging configuration: "@ + missing_db_path_message(),
        r matches Ok(LoggerChoice::Memory(l)) ==> (config.backend == LoggingBackend::Memory
            && l.stored() == Seq::<SamplingLogEntryView>::empty() && l.capacity() == config.max_logs),
        r matches Ok(LoggerChoice::Persistent { db_path, max_logs }) ==> (config.backend == LoggingBackend::Persistent
            && config.db_path is Some && db_path@ == config.db_path->Some_0@ && max_logs == config.max_logs),
        config.backend == LoggingBackend::Memory ==> r matches Ok(LoggerChoice::Memory(_)),
{
    match config.validate() {
        Err(e) => {
            return Err(concat2("Invalid logging configuration: ", e.as_str()));
        },
        Ok(()) => {},
    }
    match config.backend {
        LoggingBackend::Memory => Ok(LoggerChoice::Memory(MemoryLogger::new(config.max_logs))),
        LoggingBackend::Persistent => match &config.db_path {
            Some(p) => Ok(LoggerChoice::Persistent { db_path: copy_string(p), max_logs: config.max_logs }),
            None => Err(String::from_str("db_path required for persistent backend")),
        },
    }
}

} // verus!
