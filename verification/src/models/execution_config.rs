//! How tools are executed: timeouts, retries and verbosity, from the
//! configuration file and from the environment.
use vstd::prelude::*;
use crate::text::{chars_of, opt_str, parse_u32, parse_u64, parse_unsigned, str_eq};

verus! {

/// Default time allowed for one tool call, in milliseconds.
pub const DEFAULT_TOOL_TIMEOUT_MS: u64 = 30000;

/// Default time allowed for connecting to a server, in milliseconds.
pub const DEFAULT_CONNECTION_TIMEOUT_MS: u64 = 5000;

/// Tool execution settings.
#[derive(PartialEq, Eq, Structural, Clone, Copy, Debug)]
pub struct ExecutionConfig {
    pub tool_timeout_ms: u64,
    pub connection_timeout_ms: u64,
    pub retry_count: u32,
    pub auto_retry_on_timeout: bool,
    pub verbose: bool,
}

/// The values of the environment variables `MCP_TOOL_TIMEOUT_MS`,
/// `MCP_CONNECTION_TIMEOUT_MS`, `MCP_RETRY_COUNT`, `MCP_AUTO_RETRY` and
/// `MCP_VERBOSE`, where set.
pub struct ExecutionEnv {
    pub tool_timeout_ms: Option<String>,
    pub connection_timeout_ms: Option<String>,
    pub retry_count: Option<String>,
    pub auto_retry: Option<String>,
    pub verbose: Option<String>,
}

/// The default settings: 30 s per tool call, 5 s to connect, no retry, quiet.
pub open spec fn default_execution_config() -> ExecutionConfig {
    ExecutionConfig {
        tool_timeout_ms: 30000,
        connection_timeout_ms: 5000,
        retry_count: 0,
        auto_retry_on_timeout: false,
        verbose: false,
    }
}

/// The number in `v` when it is set and parses as an unsigned integer no
/// larger than `max`; `default` otherwise.
pub open spec fn number_or(v: Option<Seq<char>>, max: nat, default: nat) -> nat {
    match v {
        Some(s) => match parse_unsigned(s, max) {
            Some(n) => n,
            None => default,
        },
        None => default,
    }
}

/// Whether `v` is set to `true` (any other value parses as no flag).
pub open spec fn flag_set(v: Option<Seq<char>>) -> bool {
    match v {
        Some(s) => s == "true"@,
        None => false,
    }
}

/// The settings that the environment `env` gives.
pub open spec fn env_execution_config(env: ExecutionEnv) -> ExecutionConfig {
    ExecutionConfig {
        tool_timeout_ms: number_or(opt_str(env.tool_timeout_ms), u64::MAX as nat, 30000) as u64,
        connection_timeout_ms: number_or(opt_str(env.connection_timeout_ms), u64::MAX as nat, 5000) as u64,
        retry_count: number_or(opt_str(env.retry_count), u32::MAX as nat, 0) as u32,
        auto_retry_on_timeout: flag_set(opt_str(env.auto_retry)),
        verbose: flag_set(opt_str(env.verbose)),
    }
}

/// `c` with every field left at its default taken from `env`; flags are set
/// when either side sets them.
pub open spec fn merged_execution_config(c: ExecutionConfig, env: ExecutionConfig) -> ExecutionConfig {
    ExecutionConfig {
        tool_timeout_ms: if c.tool_timeout_ms != 30000 { c.tool_timeout_ms } else { env.tool_timeout_ms },
        connection_timeout_ms: if c.connection_timeout_ms != 5000 {
            c.connection_timeout_ms
        } else {
            env.connection_timeout_ms
        },
        retry_count: if c.retry_count != 0 { c.retry_count } else { env.retry_count },
        auto_retry_on_timeout: c.auto_retry_on_timeout || env.auto_retry_on_timeout,
        verbose: c.verbose || env.verbose,
    }
}

fn env_u64(v: &Option<String>, default: u64) -> (r: u64)
    ensures
        r == number_or(opt_str(*v), u64::MAX as nat, default as nat),
{
    match v {
        Some(s) => {
            let cs = chars_of(s.as_str());
            match parse_u64(cs.as_slice()) {
                Some(n) => n,
                None => default,
            }
        },
        None => default,
    }
}

fn env_u32(v: &Option<String>, default: u32) -> (r: u32)
    ensures
        r == number_or(opt_str(*v), u32::MAX as nat, default as nat),
{
    match v {
        Some(s) => {
            let cs = chars_of(s.as_str());
            match parse_u32(cs.as_slice()) {
                Some(n) => n,
                None => default,
            }
        },
        None => default,
    }
}

fn env_flag(v: &Option<String>) -> (r: bool)
    ensures
        r == flag_set(opt_str(*v)),
{
    match v {
        Some(s) => str_eq(s.as_str(), "true"),
        None => false,
    }
}

impl Default for ExecutionConfig {
    fn default() -> (r: ExecutionConfig)
        ensures
            r == default_execution_config(),
    {
        ExecutionConfig {
            tool_timeout_ms: DEFAULT_TOOL_TIMEOUT_MS,
            connection_timeout_ms: DEFAULT_CONNECTION_TIMEOUT_MS,
            retry_count: 0,
            auto_retry_on_timeout: false,
            verbose: false,
        }
    }
}

impl ExecutionConfig {
    /// The settings given by the environment; an unset or unreadable variable
    /// leaves its default.
    pub fn from_env(env: &ExecutionEnv) -> (r: ExecutionConfig)
        ensures
            r == env_execution_config(*env),
    {
        ExecutionConfig {
            tool_timeout_ms: env_u64(&env.tool_timeout_ms, DEFAULT_TOOL_TIMEOUT_MS),
            connection_timeout_ms: env_u64(&env.connection_timeout_ms, DEFAULT_CONNECTION_TIMEOUT_MS),
            retry_count: env_u32(&env.retry_count, 0),
            auto_retry_on_timeout: env_flag(&env.auto_retry),
            verbose: env_flag(&env.verbose),
        }
    }

    /// These settings, with every field left at its default taken from the
    /// environment instead.
    pub fn merge_with_env(self, env: &ExecutionEnv) -> (r: ExecutionConfig)
        ensures
            r == merged_execution_config(self, env_execution_config(*env)),
    {
        let env_config = ExecutionConfig::from_env(env);
        ExecutionConfig {
            tool_timeout_ms: if self.tool_timeout_ms != DEFAULT_TOOL_TIMEOUT_MS {
                self.tool_timeout_ms
            } else {
                env_config.tool_timeout_ms
            },
            connection_timeout_ms: if self.connection_timeout_ms != DEFAULT_CONNECTION_TIMEOUT_MS {
                self.connection_timeout_ms
            } else {
                env_config.connection_timeout_ms
            },
            retry_count: if self.retry_count != 0 {
                self.retry_count
            } else {
                env_config.retry_count
            },
            auto_retry_on_timeout: self.auto_retry_on_timeout || env_config.auto_retry_on_timeout,
            verbose: self.verbose || env_config.verbose,
        }
    }
}

/// Merging with an environment that sets nothing changes no setting.
pub proof fn lemma_merge_with_empty_env(c: ExecutionConfig, env: ExecutionEnv)
    requires
        env.tool_timeout_ms is None,
        env.connection_timeout_ms is None,
        env.retry_count is None,
        env.auto_retry is None,
        env.verbose is None,
    ensures
        env_execution_config(env) == default_execution_config(),
        merged_execution_config(c, env_execution_config(env)) == c,
{
}

} // verus!
