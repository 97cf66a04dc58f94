//! The configured servers and the choice between reusing a pooled connection
//! and opening a new one. Connecting is left to the caller.
use vstd::prelude::*;
use crate::error::InspectorError;
use crate::models::server_config::ServerConfig;
use crate::services::config_import_export::names_not_in;
use crate::services::metrics_collector::distinct_strings;
use crate::text::{copy_string, str_eq, views_of_strings};

verus! {

/// The position of the configuration of `name`: the last one so named.
pub open spec fn config_index(cs: Seq<ServerConfig>, name: Seq<char>) -> Option<int>
    decreases cs.len(),
{
    if cs.len() == 0 {
        None
    } else if cs.last().name@ == name {
        Some(cs.len() - 1)
    } else {
        config_index(cs.drop_last(), name)
    }
}

/// The servers that can be reached, by name.
pub struct ClientManager {
    configs: Vec<ServerConfig>,
}

/// What to do to obtain a client of a server.
pub enum ConnectionPlan<'a> {
    /// Use the pooled client, which is connected.
    Reuse,
    /// Open a connection with this configuration.
    Connect(&'a ServerConfig),
}

impl ClientManager {
    /// The configurations held, in order.
    pub closed spec fn configs(&self) -> Seq<ServerConfig> {
        self.configs@
    }

    /// A manager of the servers `configs`; of two configurations with one
    /// name, the later one counts.
    pub fn new(configs: Vec<ServerConfig>) -> (r: ClientManager)
        ensures
            r.configs() == configs@,
    {
        ClientManager { configs }
    }

    /// The configuration of `server_name`.
    pub fn get_config(&self, server_name: &str) -> (r: Option<&ServerConfig>)
        ensures
            match config_index(self.configs(), server_name@) {
                Some(i) => r == Some(&self.configs()[i]),
                None => r is None,
            },
    {
        let mut i: usize = self.configs.len();
        assert(self.configs@.take(i as int) =~= self.configs@);
        while i > 0
            invariant
                i <= self.configs@.len(),
                config_index(self.configs@, server_name@) == config_index(self.configs@.take(i as int), server_name@),
            decreases i,
        {
            let ghost t = self.configs@.take(i as int);
            assert(t.drop_last() =~= self.configs@.take(i - 1));
            assert(t.last() == self.configs@[i - 1]);
            if str_eq(self.configs[i - 1].name.as_str(), server_name) {
                proof {
                    assert(config_index(t, server_name@) == Some(i - 1));
                }
                return Some(&self.configs[i - 1]);
            }
            i = i - 1;
        }
        None
    }

    /// The names of the servers, each once, in the order they first appear.
    pub fn list_servers(&self) -> (r: Vec<String>)
        ensures
            views_of_strings(r@) == names_not_in(Seq::empty(), Seq::new(self.configs().len(), |i: int| self.configs()[i].name@)),
    {
        let mut names: Vec<String> = Vec::new();
        let mut i: usize = 0;
        while i < self.configs.len()
            invariant
                i <= self.configs@.len(),
                names@.len() == i,
                forall|k: int| 0 <= k < i ==> (#[trigger] names@[k])@ == self.configs@[k].name@,
            decreases self.configs@.len() - i,
        {
            names.push(copy_string(&self.configs[i].name));
            i = i + 1;
        }
        assert(views_of_strings(names@) =~= Seq::new(self.configs@.len(), |i: int| self.configs@[i].name@));
        distinct_strings(&names)
    }

    /// Whether to reuse the pooled client of `server_name` (when one is
    /// connected) or connect with its configuration; an error when the server
    /// is not configured.
    pub fn connection_plan(&self, server_name: &str, pooled_connected: bool) -> (r: Result<ConnectionPlan, InspectorError>)
        ensures
            pooled_connected ==> r matches Ok(ConnectionPlan::Reuse),
            !pooled_connected ==> match config_index(self.configs(), server_name@) {
                Some(i) => r matches Ok(ConnectionPlan::Connect(c)) && *c == self.configs()[i],
                None => r matches Err(InspectorError::ServerNotFound(n)) && n@ == server_name@,
            },
    {
        if pooled_connected {
            return Ok(ConnectionPlan::Reuse);
        }
        match self.get_config(server_name) {
            Some(c) => Ok(ConnectionPlan::Connect(c)),
            None => Err(InspectorError::ServerNotFound(String::from_str(server_name))),
        }
    }
}

} // verus!
