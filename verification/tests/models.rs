use std::collections::HashMap;

use mcp_inspector_mcp::models::execution_config::{ExecutionConfig, ExecutionEnv};
use mcp_inspector_mcp::models::health::{determine_status, HealthCheckResult, HealthHistory, HealthStatus};
use mcp_inspector_mcp::models::logging_config::{LoggingBackend, LoggingConfig};
use mcp_inspector_mcp::models::logging_inspection::LogLevel as McpLogLevel;
use mcp_inspector_mcp::models::metrics::{MetricStatus, Metrics, TimeWindow};
use mcp_inspector_mcp::models::profile::{ProfileConfig, ProfileInfo};
use mcp_inspector_mcp::models::project_config::{ProjectConfig, ServerEntry};
use mcp_inspector_mcp::models::server_config::{ServerConfig, TransportType};

fn no_env() -> ExecutionEnv {
    ExecutionEnv { tool_timeout_ms: None, connection_timeout_ms: None, retry_count: None, auto_retry: None, verbose: None }
}

#[test]
fn test_default_values() {
    let config = ExecutionConfig::default();
    assert_eq!(config.tool_timeout_ms, 30000);
    assert_eq!(config.connection_timeout_ms, 5000);
    assert_eq!(config.retry_count, 0);
    assert!(!config.auto_retry_on_timeout);
    assert!(!config.verbose);
}

#[test]
fn test_from_env_with_no_env_vars() {
    let config = ExecutionConfig::from_env(&no_env());
    assert_eq!(config.tool_timeout_ms, 30000);
    assert_eq!(config.connection_timeout_ms, 5000);
    assert_eq!(config.retry_count, 0);
    assert!(!config.auto_retry_on_timeout);
    assert!(!config.verbose);
}

#[test]
fn test_merge_with_env() {
    let env = ExecutionEnv {
        tool_timeout_ms: Some("45000".to_string()),
        connection_timeout_ms: Some("8000".to_string()),
        retry_count: None,
        auto_retry: None,
        verbose: None,
    };
    let config = ExecutionConfig {
        tool_timeout_ms: 60000,
        connection_timeout_ms: 5000,
        retry_count: 0,
        auto_retry_on_timeout: false,
        verbose: false,
    };
    let merged = config.merge_with_env(&env);
    assert_eq!(merged.tool_timeout_ms, 60000);
    assert_eq!(merged.connection_timeout_ms, 8000);
}

#[test]
fn test_verbose_from_env() {
    let mut env = no_env();
    env.verbose = Some("true".to_string());
    assert!(ExecutionConfig::from_env(&env).verbose);
    env.verbose = Some("false".to_string());
    assert!(!ExecutionConfig::from_env(&env).verbose);
}

#[test]
fn test_verbose_merge_priority() {
    let mut env = no_env();
    env.verbose = Some("false".to_string());
    let config = ExecutionConfig { verbose: true, ..ExecutionConfig::default() };
    assert!(config.merge_with_env(&env).verbose);
    env.verbose = Some("true".to_string());
    let config = ExecutionConfig { verbose: false, ..ExecutionConfig::default() };
    assert!(config.merge_with_env(&env).verbose);
}

#[test]
fn merge_with_env_fills_defaults_from_env() {
    let env = ExecutionEnv {
        tool_timeout_ms: Some("45000".to_string()),
        connection_timeout_ms: None,
        retry_count: Some("2".to_string()),
        auto_retry: Some("true".to_string()),
        verbose: Some("yes".to_string()),
    };
    let merged = ExecutionConfig::default().merge_with_env(&env);
    assert_eq!(merged.tool_timeout_ms, 45000);
    assert_eq!(merged.connection_timeout_ms, 5000);
    assert_eq!(merged.retry_count, 2);
    assert!(merged.auto_retry_on_timeout);
    assert!(!merged.verbose);

    let own = ExecutionConfig { tool_timeout_ms: 1000, connection_timeout_ms: 5000, retry_count: 4, auto_retry_on_timeout: false, verbose: true };
    let merged = own.merge_with_env(&env);
    assert_eq!(merged.tool_timeout_ms, 1000);
    assert_eq!(merged.retry_count, 4);
    assert!(merged.verbose);
}

#[test]
fn env_numbers_that_do_not_parse_keep_defaults() {
    let env = ExecutionEnv {
        tool_timeout_ms: Some("-1".to_string()),
        connection_timeout_ms: Some("+7000".to_string()),
        retry_count: Some("4294967296".to_string()),
        auto_retry: Some("TRUE".to_string()),
        verbose: Some("true".to_string()),
    };
    let config = ExecutionConfig::from_env(&env);
    assert_eq!(config.tool_timeout_ms, 30000);
    assert_eq!(config.connection_timeout_ms, 7000);
    assert_eq!(config.retry_count, 0);
    assert!(!config.auto_retry_on_timeout);
    assert!(config.verbose);
}

#[test]
fn merging_with_an_empty_environment_changes_nothing() {
    let own = ExecutionConfig { tool_timeout_ms: 123, connection_timeout_ms: 456, retry_count: 7, auto_retry_on_timeout: true, verbose: false };
    assert_eq!(own.merge_with_env(&no_env()), own);
}

#[test]
fn test_metric_status_display() {
    assert_eq!(MetricStatus::Success.to_string(), "Success");
    assert_eq!(MetricStatus::Error.to_string(), "Error");
}

#[test]
fn test_metrics_new() {
    let metrics = Metrics::new("test_server".to_string(), "test_tool".to_string(), 123, MetricStatus::Success, true, false);
    assert_eq!(metrics.server_name, "test_server");
    assert_eq!(metrics.tool_name, "test_tool");
    assert_eq!(metrics.response_time_ms, 123);
    assert_eq!(metrics.status, MetricStatus::Success);
    assert!(metrics.cache_hit);
    assert!(!metrics.connection_reused);
    assert!(metrics.is_success());
    assert!(!metrics.is_error());
}

#[test]
fn test_time_window_duration_secs() {
    assert_eq!(TimeWindow::LastHour.duration_secs(), 3600);
    assert_eq!(TimeWindow::Last24Hours.duration_secs(), 86400);
    assert_eq!(TimeWindow::Last7Days.duration_secs(), 604800);
    assert_eq!(TimeWindow::Custom(1800).duration_secs(), 1800);
}

#[test]
fn test_time_window_display() {
    assert_eq!(TimeWindow::LastHour.to_string(), "Last Hour");
    assert_eq!(TimeWindow::Last24Hours.to_string(), "Last 24 Hours");
    assert_eq!(TimeWindow::Last7Days.to_string(), "Last 7 Days");
    assert_eq!(TimeWindow::Custom(1800).to_string(), "Last 1800 seconds");
}

#[test]
fn test_profile_info_creation() {
    let info = ProfileInfo::new(
        "dev".to_string(),
        ".inspector/config.dev.json".to_string(),
        true,
        Some("Development profile".to_string()),
        vec!["dev".to_string()],
    );
    assert_eq!(info.name, "dev");
    assert!(info.exists);
    assert!(info.description.is_some());
}

#[test]
fn test_default_config() {
    let config = ProjectConfig::default();
    assert_eq!(config.servers.len(), 0);
    assert_eq!(config.logging.backend, "memory");
    assert_eq!(config.logging.max_logs, 10000);
}

#[test]
fn test_server_entry_creation() {
    let entry = ServerEntry::new(
        "test_server".to_string(),
        "stdio".to_string(),
        "/path/to/server".to_string(),
        vec![],
        HashMap::new(),
    );
    assert_eq!(entry.name, "test_server");
    assert_eq!(entry.transport, "stdio");
}

fn server(name: &str, transport: &str, command: &str) -> ServerEntry {
    ServerEntry::new(name.to_string(), transport.to_string(), command.to_string(), vec![], HashMap::new())
}

#[test]
fn every_preset_profile_validates() {
    for p in [
        ProfileConfig::default_profile(),
        ProfileConfig::dev_profile(),
        ProfileConfig::staging_profile(),
        ProfileConfig::prod_profile(),
        ProfileConfig::ci_profile(),
    ] {
        assert_eq!(p.validate(), Ok(()));
    }
    assert_eq!(ProfileConfig::prod_profile().logging.backend, "persistent");
    assert_eq!(ProfileConfig::dev_profile().metadata.tags, vec!["dev".to_string(), "development".to_string()]);
}

#[test]
fn profile_validation_errors_in_order() {
    let mut p = ProfileConfig::default_profile();
    p.servers.push(server("a", "stdio", "run"));
    p.servers.push(server("a", "http", ""));
    assert_eq!(p.validate(), Err("Duplicate server name: a".to_string()));

    let mut p = ProfileConfig::default_profile();
    p.servers.push(server("a", "http", "run"));
    assert_eq!(p.validate(), Err("Unsupported transport type 'http' for server 'a'".to_string()));

    let mut p = ProfileConfig::default_profile();
    p.servers.push(server("b", "stdio", ""));
    assert_eq!(p.validate(), Err("Empty command for server 'b'".to_string()));

    let mut p = ProfileConfig::default_profile();
    p.logging.backend = "disk".to_string();
    assert_eq!(p.validate(), Err("Invalid logging backend: disk".to_string()));

    let mut p = ProfileConfig::default_profile();
    p.logging.max_logs = 0;
    assert_eq!(p.validate(), Err("max_logs must be greater than 0".to_string()));

    let mut p = ProfileConfig::default_profile();
    p.execution_config.tool_timeout_ms = 0;
    assert_eq!(p.validate(), Err("tool_timeout_ms must be greater than 0".to_string()));

    let mut p = ProfileConfig::default_profile();
    p.execution_config.connection_timeout_ms = 0;
    assert_eq!(p.validate(), Err("connection_timeout_ms must be greater than 0".to_string()));
}

#[test]
fn logging_config_needs_a_path_when_persistent() {
    let c = LoggingConfig { backend: LoggingBackend::Persistent, db_path: None, max_logs: 5 };
    assert_eq!(c.validate(), Err("db_path is required when backend = \"persistent\"".to_string()));
    let c = LoggingConfig { backend: LoggingBackend::Persistent, db_path: Some("x".to_string()), max_logs: 5 };
    assert_eq!(c.validate(), Ok(()));
    let d = LoggingConfig::default();
    assert_eq!(d.backend, LoggingBackend::Memory);
    assert_eq!(d.max_logs, 10000);
}

#[test]
fn mcp_log_levels_read_back_from_their_names() {
    for l in [
        McpLogLevel::Debug, McpLogLevel::Info, McpLogLevel::Notice, McpLogLevel::Warning,
        McpLogLevel::Error, McpLogLevel::Critical, McpLogLevel::Alert, McpLogLevel::Emergency,
    ] {
        assert_eq!(McpLogLevel::parse_level(l.as_str()), Some(l));
    }
    assert_eq!(McpLogLevel::parse_level("WARN"), Some(McpLogLevel::Warning));
    assert_eq!(McpLogLevel::parse_level("fatal"), None);
}

#[test]
fn health_history_keeps_the_newest() {
    let mut h = HealthHistory::new("s".to_string(), 3);
    for i in 0..5u64 {
        if i % 2 == 0 {
            h.add_result(HealthCheckResult::success(i));
        } else {
            h.add_result(HealthCheckResult::failure(i, "down".to_string()));
        }
    }
    let times: Vec<u64> = h.recent_checks.iter().map(|c| c.response_time_ms).collect();
    assert_eq!(times, vec![2, 3, 4]);
    assert_eq!(h.error_count(), 1);
}

#[test]
fn health_status_thresholds() {
    assert_eq!(determine_status(100, 0, 10), HealthStatus::Healthy);
    assert_eq!(determine_status(500, 0, 10), HealthStatus::Degraded);
    assert_eq!(determine_status(2000, 0, 10), HealthStatus::Unhealthy);
    assert_eq!(determine_status(100, 1, 20), HealthStatus::Degraded);
    assert_eq!(determine_status(100, 1, 21), HealthStatus::Healthy);
    assert_eq!(determine_status(100, 1, 5), HealthStatus::Unhealthy);
    assert_eq!(determine_status(100, 0, 0), HealthStatus::Healthy);
    assert_eq!(HealthStatus::Degraded.to_string(), "degraded");
}

#[test]
fn stdio_server_config() {
    let c = ServerConfig::new_stdio("s".to_string(), "cmd".to_string(), vec!["-v".to_string()], HashMap::new());
    assert_eq!(c.name, "s");
    assert_eq!(c.transport, TransportType::Stdio);
    assert_eq!(c.params.command, "cmd");
    assert_eq!(c.params.args, vec!["-v".to_string()]);
}
