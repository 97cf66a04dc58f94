//! The sampling log as the server uses it: a backend whose failures read as
//! "nothing logged".
use vstd::prelude::*;
use crate::models::sampling::{entries_view, SamplingLogEntry};
use crate::services::logger_backend::{count_for, log_query, LoggerBackend};

verus! {

/// Logs sampling requests and responses through a backend. A failed write is
/// dropped; a failed read answers with nothing.
pub struct SamplingLogger<B: LoggerBackend> {
    backend: B,
}

impl<B: LoggerBackend> SamplingLogger<B> {
    /// The backend the logger writes to.
    pub closed spec fn backend(&self) -> B {
        self.backend
    }

    /// A logger writing to `backend`.
    pub fn new(backend: B) -> (r: Self)
        ensures
            r.backend() == backend,
    {
        SamplingLogger { backend }
    }

    /// Adds an entry; an error of the backend is dropped.
    pub fn add_log(&mut self, entry: SamplingLogEntry)
        ensures
            final(self).backend().never_fails() == old(self).backend().never_fails(),
            old(self).backend().never_fails() ==> final(self).backend().stored() == old(self).backend().after_add(entry@),
    {
        let _ = self.backend.add_log(entry);
    }

    /// At most `limit` entries of `server_name` that pass the status filter,
    /// newest first; nothing when the backend fails.
    pub fn get_logs(&self, server_name: &str, limit: usize, status: &str) -> (r: Vec<SamplingLogEntry>)
        ensures
            entries_view(r@) == log_query(self.backend().stored(), server_name@, limit as nat, status@)
                || (!self.backend().never_fails() && r@.len() == 0),
            self.backend().never_fails() ==> entries_view(r@) == log_query(self.backend().stored(), server_name@, limit as nat, status@),
    {
        match self.backend.get_logs(server_name, limit, status) {
            Ok(v) => v,
            Err(_) => Vec::new(),
        }
    }

    /// How many entries of `server_name` are held; 0 when the backend fails.
    pub fn count_logs(&self, server_name: &str) -> (r: usize)
        ensures
            r == count_for(self.backend().stored(), server_name@)
                || (!self.backend().never_fails() && r == 0),
            self.backend().never_fails() ==> r == count_for(self.backend().stored(), server_name@),
    {
        match self.backend.count_logs(server_name) {
            Ok(n) => n,
            Err(_) => 0,
        }
    }
}

} // verus!
