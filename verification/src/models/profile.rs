//! Configuration profiles (dev, staging, prod, ...) and their validation.
use vstd::prelude::*;
use std::collections::HashMap;
use crate::models::execution_config::{default_execution_config, ExecutionConfig};
use crate::models::json::JsonValue;
use crate::error::InspectorError;
use crate::models::project_config::{default_logging_settings, LoggingSettings, ServerEntry};
use crate::models::test_definition::outcome_matches;
use crate::text::{concat2, copy_string, first_repeat, first_repeated_string, push_str, repeats_earlier, str_eq, views_of_strings};

verus! {

/// A named configuration profile.
#[derive(Debug)]
pub struct ProfileConfig {
    pub servers: Vec<ServerEntry>,
    pub logging: LoggingSettings,
    pub execution_config: ExecutionConfig,
    pub metadata: ProfileMetadata,
}

/// Descriptive data of a profile.
#[derive(Debug)]
pub struct ProfileMetadata {
    pub description: Option<String>,
    pub tags: Vec<String>,
    pub created_at: Option<String>,
    pub updated_at: Option<String>,
    /// Any further fields of the profile file.
    pub extra: HashMap<String, JsonValue>,
}

/// A profile as listed to the user.
#[derive(Debug)]
pub struct ProfileInfo {
    pub name: String,
    pub config_path: String,
    pub exists: bool,
    pub description: Option<String>,
    pub tags: Vec<String>,
}

impl Default for ProfileMetadata {
    fn default() -> (r: ProfileMetadata)
        ensures
            r.description is None,
            r.tags@.len() == 0,
            r.created_at is None,
            r.updated_at is None,
            r.extra@ == Map::<String, JsonValue>::empty(),
    {
        ProfileMetadata {
            description: None,
            tags: Vec::new(),
            created_at: None,
            updated_at: None,
            extra: HashMap::new(),
        }
    }
}

/// The names of the servers, in order.
pub open spec fn server_names(s: Seq<ServerEntry>) -> Seq<Seq<char>> {
    Seq::new(s.len(), |i: int| s[i].name@)
}

/// A server entry that cannot be run: a transport other than `stdio`, or no
/// command.
pub open spec fn bad_server(e: ServerEntry) -> bool {
    e.transport@ != "stdio"@ || e.command@.len() == 0
}

/// The first server entry, from position `j` on, that cannot be run.
pub open spec fn first_bad_server(s: Seq<ServerEntry>, j: int) -> Option<int>
    decreases s.len() - j,
{
    if j < 0 || j >= s.len() {
        None
    } else if bad_server(s[j]) {
        Some(j)
    } else {
        first_bad_server(s, j + 1)
    }
}

/// The message for a server entry that cannot be run.
pub open spec fn bad_server_message(e: ServerEntry) -> Seq<char> {
    if e.transport@ != "stdio"@ {
        "Unsupported transport type '"@ + e.transport@ + "' for server '"@ + e.name@ + "'"@
    } else {
        "Empty command for server '"@ + e.name@ + "'"@
    }
}

/// The outcome of validating a profile: distinct server names, runnable
/// servers, a known logging backend, a positive log capacity and positive
/// timeouts, checked in that order.
pub open spec fn profile_check(p: ProfileConfig) -> Result<(), Seq<char>> {
    match first_repeat(server_names(p.servers@), 0) {
        Some(j) => Err("Duplicate server name: "@ + p.servers@[j].name@),
        None => match first_bad_server(p.servers@, 0) {
            Some(j) => Err(bad_server_message(p.servers@[j])),
            None => if p.logging.backend@ != "memory"@ && p.logging.backend@ != "persistent"@ {
                Err("Invalid logging backend: "@ + p.logging.backend@)
            } else if p.logging.max_logs == 0 {
                Err("max_logs must be greater than 0"@)
            } else if p.execution_config.tool_timeout_ms == 0 {
                Err("tool_timeout_ms must be greater than 0"@)
            } else if p.execution_config.connection_timeout_ms == 0 {
                Err("connection_timeout_ms must be greater than 0"@)
            } else {
                Ok(())
            },
        },
    }
}

proof fn lemma_no_repeat_from(names: Seq<Seq<char>>, j: int)
    requires
        0 <= j <= names.len(),
    ensures
        first_repeat(names, j) is None <==> forall|k: int| j <= k < names.len() ==> !#[trigger] repeats_earlier(names, k),
    decreases names.len() - j,
{
    if j < names.len() {
        lemma_no_repeat_from(names, j + 1);
    }
}

proof fn lemma_no_bad_server_from(s: Seq<ServerEntry>, j: int)
    requires
        0 <= j <= s.len(),
    ensures
        first_bad_server(s, j) is None <==> forall|k: int| j <= k < s.len() ==> !bad_server(#[trigger] s[k]),
    decreases s.len() - j,
{
    if j < s.len() {
        lemma_no_bad_server_from(s, j + 1);
    }
}

/// A profile is valid exactly when its server names are all different, every
/// server runs over `stdio` with a command, the logging backend is `memory` or
/// `persistent`, the log capacity is positive and both timeouts are positive.
pub proof fn lemma_profile_valid_exactly(p: ProfileConfig)
    ensures
        profile_check(p) is Ok <==> (
            (forall|i: int, k: int| 0 <= i < k < p.servers@.len() ==> (#[trigger] p.servers@[i]).name@ != (#[trigger] p.servers@[k]).name@)
            && (forall|i: int| 0 <= i < p.servers@.len() ==> (#[trigger] p.servers@[i]).transport@ == "stdio"@ && p.servers@[i].command@.len() > 0)
            && (p.logging.backend@ == "memory"@ || p.logging.backend@ == "persistent"@)
            && p.logging.max_logs > 0
            && p.execution_config.tool_timeout_ms > 0
            && p.execution_config.connection_timeout_ms > 0),
{
    let names = server_names(p.servers@);
    lemma_no_repeat_from(names, 0);
    lemma_no_bad_server_from(p.servers@, 0);
    let distinct = forall|i: int, k: int| 0 <= i < k < p.servers@.len() ==> (#[trigger] p.servers@[i]).name@ != (#[trigger] p.servers@[k]).name@;
    if distinct {
        assert forall|k: int| 0 <= k < names.len() implies !#[trigger] repeats_earlier(names, k) by {
            if repeats_earlier(names, k) {
                let i = choose|i: int| 0 <= i < k && names[i] == names[k];
                assert(p.servers@[i].name@ == p.servers@[k].name@);
            }
        }
    } else {
        let (i, k) = choose|i: int, k: int| 0 <= i < k < p.servers@.len() && (#[trigger] p.servers@[i]).name@ == (#[trigger] p.servers@[k]).name@;
        assert(names[i] == names[k]);
        assert(repeats_earlier(names, k));
    }
}

/// `s` holds exactly `a` and `b`.
pub open spec fn tags_are(s: Seq<String>, a: Seq<char>, b: Seq<char>) -> bool {
    s.len() == 2 && s[0]@ == a && s[1]@ == b
}

fn two_tags(a: &str, b: &str) -> (r: Vec<String>)
    ensures
        tags_are(r@, a@, b@),
{
    let mut v: Vec<String> = Vec::new();
    v.push(String::from_str(a));
    v.push(String::from_str(b));
    v
}

impl ProfileConfig {
    /// No servers and default settings.
    pub fn default_profile() -> (r: ProfileConfig)
        ensures
            r.servers@.len() == 0,
            default_logging_settings(r.logging),
            r.execution_config == default_execution_config(),
            r.metadata.description is None,
            r.metadata.tags@.len() == 0,
            r.metadata.created_at is None,
            r.metadata.updated_at is None,
            r.metadata.extra@ == Map::<String, JsonValue>::empty(),
            profile_check(r) is Ok,
    {
        let r = ProfileConfig {
            servers: Vec::new(),
            logging: LoggingSettings::default(),
            execution_config: ExecutionConfig::default(),
            metadata: ProfileMetadata::default(),
        };
        assert(server_names(r.servers@) =~= Seq::<Seq<char>>::empty());
        r
    }

    /// Development: verbose, 10 s timeouts.
    pub fn dev_profile() -> (r: ProfileConfig)
        ensures
            r.servers@.len() == 0,
            default_logging_settings(r.logging),
            r.execution_config == (ExecutionConfig {
                tool_timeout_ms: 10000,
                connection_timeout_ms: 10000,
                verbose: true,
                ..default_execution_config()
            }),
            opt_text(r.metadata.description) == Some("Development environment configuration"@),
            tags_are(r.metadata.tags@, "dev"@, "development"@),
            profile_check(r) is Ok,
    {
        let mut config = Self::default_profile();
        config.execution_config.verbose = true;
        config.execution_config.tool_timeout_ms = 10000;
        config.execution_config.connection_timeout_ms = 10000;
        config.metadata.description = Some(String::from_str("Development environment configuration"));
        config.metadata.tags = two_tags("dev", "development");
        config
    }

    /// Staging: quiet, 8 s timeouts, two retries.
    pub fn staging_profile() -> (r: ProfileConfig)
        ensures
            r.servers@.len() == 0,
            default_logging_settings(r.logging),
            r.execution_config == (ExecutionConfig {
                tool_timeout_ms: 8000,
                connection_timeout_ms: 8000,
                retry_count: 2,
                ..default_execution_config()
            }),
            opt_text(r.metadata.description) == Some("Staging environment configuration"@),
            tags_are(r.metadata.tags@, "staging"@, "pre-production"@),
            profile_check(r) is Ok,
    {
        let mut config = Self::default_profile();
        config.execution_config.verbose = false;
        config.execution_config.tool_timeout_ms = 8000;
        config.execution_config.connection_timeout_ms = 8000;
        config.execution_config.retry_count = 2;
        config.metadata.description = Some(String::from_str("Staging environment configuration"));
        config.metadata.tags = two_tags("staging", "pre-production");
        config
    }

    /// Production: quiet, 5 s timeouts, three retries also on timeout, sampling
    /// log on disk.
    pub fn prod_profile() -> (r: ProfileConfig)
        ensures
            r.servers@.len() == 0,
            r.logging.backend@ == "persistent"@,
            r.logging.db_path@ == "./data/logs.db"@,
            r.logging.max_logs == 10000,
            r.execution_config == (ExecutionConfig {
                tool_timeout_ms: 5000,
                connection_timeout_ms: 5000,
                retry_count: 3,
                auto_retry_on_timeout: true,
                verbose: false,
            }),
            opt_text(r.metadata.description) == Some("Production environment configuration"@),
            tags_are(r.metadata.tags@, "prod"@, "production"@),
            profile_check(r) is Ok,
    {
        let mut config = Self::default_profile();
        config.execution_config.verbose = false;
        config.execution_config.tool_timeout_ms = 5000;
        config.execution_config.connection_timeout_ms = 5000;
        config.execution_config.retry_count = 3;
        config.execution_config.auto_retry_on_timeout = true;
        config.logging.backend = String::from_str("persistent");
        config.metadata.description = Some(String::from_str("Production environment configuration"));
        config.metadata.tags = two_tags("prod", "production");
        config
    }

    /// Continuous integration: verbose, 15 s timeouts, one retry.
    pub fn ci_profile() -> (r: ProfileConfig)
        ensures
            r.servers@.len() == 0,
            default_logging_settings(r.logging),
            r.execution_config == (ExecutionConfig {
                tool_timeout_ms: 15000,
                connection_timeout_ms: 15000,
                retry_count: 1,
                auto_retry_on_timeout: false,
                verbose: true,
            }),
            opt_text(r.metadata.description) == Some("CI/CD environment configuration"@),
            tags_are(r.metadata.tags@, "ci"@, "continuous-integration"@),
            profile_check(r) is Ok,
    {
        let mut config = Self::default_profile();
        config.execution_config.verbose = true;
        config.execution_config.tool_timeout_ms = 15000;
        config.execution_config.connection_timeout_ms = 15000;
        config.execution_config.retry_count = 1;
        config.execution_config.auto_retry_on_timeout = false;
        config.metadata.description = Some(String::from_str("CI/CD environment configuration"));
        config.metadata.tags = two_tags("ci", "continuous-integration");
        config
    }

    /// The first server entry that cannot be run.
    fn first_bad_server_index(&self) -> (r: Option<usize>)
        ensures
            r matches Some(j) ==> first_bad_server(self.servers@, 0) == Some(j as int) && j < self.servers@.len(),
            r is None ==> first_bad_server(self.servers@, 0) is None,
    {
        let mut j: usize = 0;
        while j < self.servers.len()
            invariant
                j <= self.servers@.len(),
                first_bad_server(self.servers@, 0) == first_bad_server(self.servers@, j as int),
            decreases self.servers@.len() - j,
        {
            let e = &self.servers[j];
            if !str_eq(e.transport.as_str(), "stdio") || e.command.as_str().is_empty() {
                return Some(j);
            }
            j = j + 1;
        }
        None
    }

    /// Checks the profile: distinct server names, runnable servers, a known
    /// logging backend, a positive log capacity and positive timeouts.
    pub fn validate(&self) -> (r: Result<(), String>)
        ensures
            outcome_matches(r, profile_check(*self)),
    {
        let mut names: Vec<String> = Vec::new();
        let mut i: usize = 0;
        while i < self.servers.len()
            invariant
                i <= self.servers@.len(),
                names@.len() == i,
                forall|k: int| 0 <= k < i ==> (#[trigger] names@[k])@ == self.servers@[k].name@,
            decreases self.servers@.len() - i,
        {
            names.push(copy_string(&self.servers[i].name));
            i = i + 1;
        }
        assert(views_of_strings(names@) =~= server_names(self.servers@));
        if let Some(j) = first_repeated_string(&names) {
            return Err(concat2("Duplicate server name: ", self.servers[j].name.as_str()));
        }
        if let Some(j) = self.first_bad_server_index() {
            let e = &self.servers[j];
            if !str_eq(e.transport.as_str(), "stdio") {
                let mut m = String::from_str("Unsupported transport type '");
                push_str(&mut m, e.transport.as_str());
                push_str(&mut m, "' for server '");
                push_str(&mut m, e.name.as_str());
                push_str(&mut m, "'");
                return Err(m);
            }
            let mut m = String::from_str("Empty command for server '");
            push_str(&mut m, e.name.as_str());
            push_str(&mut m, "'");
            return Err(m);
        }
        if !str_eq(self.logging.backend.as_str(), "memory") && !str_eq(self.logging.backend.as_str(), "persistent") {
            return Err(concat2("Invalid logging backend: ", self.logging.backend.as_str()));
        }
        if self.logging.max_logs == 0 {
            return Err(String::from_str("max_logs must be greater than 0"));
        }
        if self.execution_config.tool_timeout_ms == 0 {
            return Err(String::from_str("tool_timeout_ms must be greater than 0"));
        }
        if self.execution_config.connection_timeout_ms == 0 {
            return Err(String::from_str("connection_timeout_ms must be greater than 0"));
        }
        Ok(())
    }
}

impl ProfileConfig {
    /// The profile itself when it passes [`ProfileConfig::validate`]; otherwise
    /// a configuration error whose message is `context` followed by the reason.
    pub fn checked(self, context: &str) -> (r: Result<ProfileConfig, InspectorError>)
        ensures
            match profile_check(self) {
                Ok(()) => r matches Ok(c) && c == self,
                Err(m) => r matches Err(InspectorError::Config(x)) && x@ == context@ + m,
            },
    {
        match self.validate() {
            Ok(()) => Ok(self),
            Err(m) => Err(InspectorError::Config(concat2(context, m.as_str()))),
        }
    }
}

/// The view of an optional string.
pub open spec fn opt_text(o: Option<String>) -> Option<Seq<char>> {
    match o {
        Some(s) => Some(s@),
        None => None,
    }
}

impl Default for ProfileConfig {
    fn default() -> (r: ProfileConfig)
        ensures
            r.servers@.len() == 0,
            default_logging_settings(r.logging),
            r.execution_config == default_execution_config(),
    {
        Self::default_profile()
    }
}

impl ProfileInfo {
    /// An entry with the given fields.
    pub fn new(name: String, config_path: String, exists: bool, description: Option<String>, tags: Vec<String>) -> (r: ProfileInfo)
        ensures
            r.name == name,
            r.config_path == config_path,
            r.exists == exists,
            r.description == description,
            r.tags == tags,
    {
        ProfileInfo { name, config_path, exists, description, tags }
    }
}

} // verus!
