//! Debug logging configuration: log level, file output, rotation and the
//! verbose switch.
use vstd::prelude::*;
use crate::text::{concat2, copy_string, folds_to, matches_keyword};

verus! {

#[verifier::external_type_specification]
#[verifier::external_body]
pub struct ExTracingLevel(tracing::Level);

#[verifier::external_type_specification]
#[verifier::external_body]
pub struct ExRotation(tracing_appender::rolling::Rotation);

/// `tracing::Level::TRACE`.
#[verifier::external_body]
fn tracing_trace() -> tracing::Level {
    tracing::Level::TRACE
}

/// `tracing::Level::DEBUG`.
#[verifier::external_body]
fn tracing_debug() -> tracing::Level {
    tracing::Level::DEBUG
}

/// `tracing::Level::INFO`.
#[verifier::external_body]
fn tracing_info() -> tracing::Level {
    tracing::Level::INFO
}

/// `tracing::Level::WARN`.
#[verifier::external_body]
fn tracing_warn() -> tracing::Level {
    tracing::Level::WARN
}

/// `tracing::Level::ERROR`.
#[verifier::external_body]
fn tracing_error() -> tracing::Level {
    tracing::Level::ERROR
}

/// `tracing_appender::rolling::Rotation::DAILY`.
#[verifier::external_body]
fn rotation_daily() -> tracing_appender::rolling::Rotation {
    tracing_appender::rolling::Rotation::DAILY
}

/// `tracing_appender::rolling::Rotation::HOURLY`.
#[verifier::external_body]
fn rotation_hourly() -> tracing_appender::rolling::Rotation {
    tracing_appender::rolling::Rotation::HOURLY
}

/// `tracing_appender::rolling::Rotation::NEVER`.
#[verifier::external_body]
fn rotation_never() -> tracing_appender::rolling::Rotation {
    tracing_appender::rolling::Rotation::NEVER
}

/// Log level of the inspector's own logging, from the most to the least verbose.
#[derive(PartialEq, Eq, Structural, Clone, Copy, Debug, PartialOrd, Ord)]
pub enum LogLevel {
    Trace,
    Debug,
    Info,
    Warn,
    Error,
}

/// The level named by `s`, letter case ignored.
pub open spec fn log_level_named(s: Seq<char>) -> Option<LogLevel> {
    if folds_to(s, "trace"@) {
        Some(LogLevel::Trace)
    } else if folds_to(s, "debug"@) {
        Some(LogLevel::Debug)
    } else if folds_to(s, "info"@) {
        Some(LogLevel::Info)
    } else if folds_to(s, "warn"@) {
        Some(LogLevel::Warn)
    } else if folds_to(s, "error"@) {
        Some(LogLevel::Error)
    } else {
        None
    }
}

impl LogLevel {
    /// The matching level of the `tracing` crate.
    pub fn to_tracing_level(&self) -> tracing::Level {
        match self {
            LogLevel::Trace => tracing_trace(),
            LogLevel::Debug => tracing_debug(),
            LogLevel::Info => tracing_info(),
            LogLevel::Warn => tracing_warn(),
            LogLevel::Error => tracing_error(),
        }
    }

    /// The level named by `s` (`trace`, `debug`, `info`, `warn` or `error`,
    /// letter case ignored), or the error `Invalid log level: <s>`.
    pub fn parse(s: &str) -> (r: Result<LogLevel, String>)
        ensures
            r matches Ok(l) ==> log_level_named(s@) == Some(l),
            r matches Err(m) ==> log_level_named(s@) is None && m@ == "Invalid log level: "@ + s@,
    {
        if matches_keyword(s, "trace") {
            Ok(LogLevel::Trace)
        } else if matches_keyword(s, "debug") {
            Ok(LogLevel::Debug)
        } else if matches_keyword(s, "info") {
            Ok(LogLevel::Info)
        } else if matches_keyword(s, "warn") {
            Ok(LogLevel::Warn)
        } else if matches_keyword(s, "error") {
            Ok(LogLevel::Error)
        } else {
            Err(concat2("Invalid log level: ", s))
        }
    }
}

impl std::str::FromStr for LogLevel {
    type Err = String;

    /// As [`LogLevel::parse`].
    fn from_str(s: &str) -> (r: Result<Self, Self::Err>)
        ensures
            r matches Ok(l) ==> log_level_named(s@) == Some(l),
            r matches Err(m) ==> log_level_named(s@) is None && m@ == "Invalid log level: "@ + s@,
    {
        LogLevel::parse(s)
    }
}

/// When the log file is rotated.
#[derive(PartialEq, Eq, Structural, Clone, Copy, Debug)]
pub enum RotationPolicy {
    Daily,
    Hourly,
    Never,
}

impl RotationPolicy {
    /// The matching rotation of `tracing_appender`.
    pub fn to_tracing_rotation(&self) -> tracing_appender::rolling::Rotation {
        match self {
            RotationPolicy::Daily => rotation_daily(),
            RotationPolicy::Hourly => rotation_hourly(),
            RotationPolicy::Never => rotation_never(),
        }
    }
}

/// Configuration of the inspector's own logging.
#[derive(Clone, Debug)]
pub struct LogConfig {
    pub level: LogLevel,
    pub output_to_file: bool,
    /// Directory of the log files.
    pub log_file_path: String,
    pub log_file_rotation: RotationPolicy,
}

pub struct LogConfigView {
    pub level: LogLevel,
    pub output_to_file: bool,
    pub log_file_path: Seq<char>,
    pub log_file_rotation: RotationPolicy,
}

impl View for LogConfig {
    type V = LogConfigView;

    open spec fn view(&self) -> LogConfigView {
        LogConfigView {
            level: self.level,
            output_to_file: self.output_to_file,
            log_file_path: self.log_file_path@,
            log_file_rotation: self.log_file_rotation,
        }
    }
}

/// The default logging configuration: level `Info`, console only, files under
/// `logs`, rotated daily.
pub open spec fn default_log_config() -> LogConfigView {
    LogConfigView {
        level: LogLevel::Info,
        output_to_file: false,
        log_file_path: "logs"@,
        log_file_rotation: RotationPolicy::Daily,
    }
}

impl Default for LogConfig {
    fn default() -> (r: LogConfig)
        ensures
            r@ == default_log_config(),
    {
        LogConfig {
            level: LogLevel::Info,
            output_to_file: false,
            log_file_path: String::from_str("logs"),
            log_file_rotation: RotationPolicy::Daily,
        }
    }
}

impl LogConfig {
    /// A copy of the configuration.
    pub fn duplicate(&self) -> (r: LogConfig)
        ensures
            r@ == self@,
    {
        LogConfig {
            level: self.level,
            output_to_file: self.output_to_file,
            log_file_path: copy_string(&self.log_file_path),
            log_file_rotation: self.log_file_rotation,
        }
    }
}

/// The process-wide debug settings: the verbose switch and the logging
/// configuration.
pub struct DebugSettings {
    pub verbose: bool,
    pub log_config: LogConfig,
}

impl DebugSettings {
    /// Verbose mode off, default logging configuration.
    pub fn new() -> (r: DebugSettings)
        ensures
            !r.verbose,
            r.log_config@ == default_log_config(),
    {
        DebugSettings { verbose: false, log_config: LogConfig::default() }
    }
}

/// Turns verbose mode on.
pub fn enable_verbose_mode(settings: &mut DebugSettings)
    ensures
        final(settings).verbose,
        final(settings).log_config@ == old(settings).log_config@,
{
    settings.verbose = true;
}

/// Turns verbose mode off.
pub fn disable_verbose_mode(settings: &mut DebugSettings)
    ensures
        !final(settings).verbose,
        final(settings).log_config@ == old(settings).log_config@,
{
    settings.verbose = false;
}

/// Whether verbose mode is on.
pub fn is_verbose_mode(settings: &DebugSettings) -> (r: bool)
    ensures
        r == settings.verbose,
{
    settings.verbose
}

/// A copy of the current logging configuration.
pub fn get_log_config(settings: &DebugSettings) -> (r: LogConfig)
    ensures
        r@ == settings.log_config@,
{
    settings.log_config.duplicate()
}

/// Replaces the logging configuration.
pub fn set_log_config(settings: &mut DebugSettings, config: LogConfig)
    ensures
        final(settings).log_config@ == config@,
        final(settings).verbose == old(settings).verbose,
{
    settings.log_config = config;
}

/// Sets the level to `Debug` and file output as asked; the rest stays.
pub fn configure_verbose_logging(settings: &mut DebugSettings, enable_file_output: bool)
    ensures
        final(settings).log_config@ == (LogConfigView {
            level: LogLevel::Debug,
            output_to_file: enable_file_output,
            ..old(settings).log_config@
        }),
        final(settings).verbose == old(settings).verbose,
{
    settings.log_config.level = LogLevel::Debug;
    settings.log_config.output_to_file = enable_file_output;
}

} // verus!
