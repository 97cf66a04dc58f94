//! Log messages that target servers send through MCP logging notifications.
use vstd::prelude::*;
use crate::text::{ascii_fold, folds_to, matches_keyword};

verus! {

/// Severity of an MCP log message (RFC 5424 levels), from the least to the
/// most severe.
#[derive(PartialEq, Eq, Structural, Clone, Copy, Debug, PartialOrd, Ord)]
pub enum LogLevel {
    Debug,
    Info,
    Notice,
    Warning,
    Error,
    Critical,
    Alert,
    Emergency,
}

/// The lowercase name of a level.
pub open spec fn level_name(l: LogLevel) -> Seq<char> {
    match l {
        LogLevel::Debug => "debug"@,
        LogLevel::Info => "info"@,
        LogLevel::Notice => "notice"@,
        LogLevel::Warning => "warning"@,
        LogLevel::Error => "error"@,
        LogLevel::Critical => "critical"@,
        LogLevel::Alert => "alert"@,
        LogLevel::Emergency => "emergency"@,
    }
}

/// The level that `s` names, letter case ignored; `warn` names `Warning` too.
pub open spec fn level_named(s: Seq<char>) -> Option<LogLevel> {
    if folds_to(s, "debug"@) {
        Some(LogLevel::Debug)
    } else if folds_to(s, "info"@) {
        Some(LogLevel::Info)
    } else if folds_to(s, "notice"@) {
        Some(LogLevel::Notice)
    } else if folds_to(s, "warning"@) || folds_to(s, "warn"@) {
        Some(LogLevel::Warning)
    } else if folds_to(s, "error"@) {
        Some(LogLevel::Error)
    } else if folds_to(s, "critical"@) {
        Some(LogLevel::Critical)
    } else if folds_to(s, "alert"@) {
        Some(LogLevel::Alert)
    } else if folds_to(s, "emergency"@) {
        Some(LogLevel::Emergency)
    } else {
        None
    }
}

impl LogLevel {
    /// The level that `s` names, letter case ignored; `None` for any other text.
    pub fn parse_level(s: &str) -> (r: Option<LogLevel>)
        ensures
            r == level_named(s@),
    {
        if matches_keyword(s, "debug") {
            Some(LogLevel::Debug)
        } else if matches_keyword(s, "info") {
            Some(LogLevel::Info)
        } else if matches_keyword(s, "notice") {
            Some(LogLevel::Notice)
        } else if matches_keyword(s, "warning") || matches_keyword(s, "warn") {
            Some(LogLevel::Warning)
        } else if matches_keyword(s, "error") {
            Some(LogLevel::Error)
        } else if matches_keyword(s, "critical") {
            Some(LogLevel::Critical)
        } else if matches_keyword(s, "alert") {
            Some(LogLevel::Alert)
        } else if matches_keyword(s, "emergency") {
            Some(LogLevel::Emergency)
        } else {
            None
        }
    }

    /// The lowercase name of the level.
    pub fn as_str(&self) -> (r: &'static str)
        ensures
            r@ == level_name(*self),
    {
        match self {
            LogLevel::Debug => "debug",
            LogLevel::Info => "info",
            LogLevel::Notice => "notice",
            LogLevel::Warning => "warning",
            LogLevel::Error => "error",
            LogLevel::Critical => "critical",
            LogLevel::Alert => "alert",
            LogLevel::Emergency => "emergency",
        }
    }
}

proof fn lemma_fold_fixed(s: Seq<char>)
    requires
        forall|i: int| 0 <= i < s.len() ==> (#[trigger] s[i] as u32) >= 97,
    ensures
        ascii_fold(s) == s,
{
    assert(ascii_fold(s) =~= s);
}

/// The name of every level reads back as that level.
pub proof fn lemma_level_name_round_trip(l: LogLevel)
    ensures
        level_named(level_name(l)) == Some(l),
{
    reveal_strlit("debug");
    reveal_strlit("info");
    reveal_strlit("notice");
    reveal_strlit("warning");
    reveal_strlit("warn");
    reveal_strlit("error");
    reveal_strlit("critical");
    reveal_strlit("alert");
    reveal_strlit("emergency");
    let n = level_name(l);
    assert(forall|i: int| 0 <= i < n.len() ==> (#[trigger] n[i] as u32) >= 97);
    lemma_fold_fixed(n);
    assert("debug"@[0] != "error"@[0]);
    assert("debug"@[0] != "alert"@[0]);
    assert("error"@[0] != "alert"@[0]);
    assert("info"@[0] != "warn"@[0]);
}

/// A level name in any letter case (upper case included) reads as that level,
/// `warn` reads as `Warning`, and a text that folds to none of the names (nor
/// to `warn`) reads as no level.
pub proof fn lemma_level_names_any_case(s: Seq<char>, l: LogLevel)
    ensures
        folds_to(s, level_name(l)) ==> level_named(s) == Some(l),
        folds_to(s, "warn"@) ==> level_named(s) == Some(LogLevel::Warning),
        (forall|m: LogLevel| !folds_to(s, #[trigger] level_name(m))) && !folds_to(s, "warn"@) ==> level_named(s) is None,
{
    lemma_level_name_round_trip(l);
    reveal_strlit("debug");
    reveal_strlit("info");
    reveal_strlit("notice");
    reveal_strlit("warning");
    reveal_strlit("warn");
    reveal_strlit("error");
    reveal_strlit("critical");
    reveal_strlit("alert");
    reveal_strlit("emergency");
    assert("debug"@[0] != "error"@[0]);
    assert("debug"@[0] != "alert"@[0]);
    assert("error"@[0] != "alert"@[0]);
    assert("info"@[0] != "warn"@[0]);
    if (forall|m: LogLevel| !folds_to(s, #[trigger] level_name(m))) && !folds_to(s, "warn"@) {
        assert(!folds_to(s, level_name(LogLevel::Debug)));
        assert(!folds_to(s, level_name(LogLevel::Info)));
        assert(!folds_to(s, level_name(LogLevel::Notice)));
        assert(!folds_to(s, level_name(LogLevel::Warning)));
        assert(!folds_to(s, level_name(LogLevel::Error)));
        assert(!folds_to(s, level_name(LogLevel::Critical)));
        assert(!folds_to(s, level_name(LogLevel::Alert)));
        assert(!folds_to(s, level_name(LogLevel::Emergency)));
    }
}

/// A request for the log messages of a server.
pub struct LoggingMessagesRequest {
    pub server: String,
    /// Lowest level to return.
    pub level: Option<String>,
    pub limit: usize,
    /// Only messages at or after this RFC 3339 time.
    pub since: Option<String>,
}

/// Log messages of a server.
pub struct LoggingMessagesResponse {
    pub server_name: String,
    pub messages: Vec<LogEntry>,
    pub total_count: usize,
}

/// One log message of a server.
pub struct LogEntry {
    pub timestamp: String,
    pub server_name: String,
    pub level: LogLevel,
    pub logger: Option<String>,
    pub message: String,
}

} // verus!
