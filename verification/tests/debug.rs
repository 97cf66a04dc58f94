use mcp_inspector_mcp::services::bottleneck_detector::{generate_recommendation, BottleneckType};
use mcp_inspector_mcp::services::debug_logger::{DebugLogger, DebugLoggerConfig, DEFAULT_MAX_PAYLOAD_SIZE};

/// A JSON object built member by member, as serde_json's `json!` would.
fn object(members: Vec<(&str, serde_json::Value)>) -> serde_json::Value {
    let mut m = serde_json::Map::new();
    for (k, v) in members {
        m.insert(k.to_string(), v);
    }
    serde_json::Value::Object(m)
}

/// What the logger shows of a JSON payload: its pretty text, formatted.
fn format_json(logger: &DebugLogger, value: &serde_json::Value) -> String {
    logger.format_payload(&serde_json::to_string_pretty(value).unwrap())
}

#[test]
fn test_debug_logger_creation() {
    let logger = DebugLogger::with_defaults();
    assert!(logger.config.color_output);
    assert_eq!(logger.config.max_payload_size, DEFAULT_MAX_PAYLOAD_SIZE);
    assert!(logger.config.truncate_large_payloads);
}

#[test]
fn test_format_json() {
    let logger = DebugLogger::with_defaults();
    let value = object(vec![
        ("key", serde_json::Value::String("value".to_string())),
        ("nested", object(vec![("a", serde_json::Value::from(1)), ("b", serde_json::Value::from(2))])),
    ]);
    let formatted = format_json(&logger, &value);
    assert!(formatted.contains("key"));
    assert!(formatted.contains("value"));
    assert!(formatted.contains("nested"));
}

#[test]
fn test_custom_config() {
    let config = DebugLoggerConfig { color_output: false, max_payload_size: 1024, truncate_large_payloads: false };
    let logger = DebugLogger::new(config);
    assert!(!logger.config.color_output);
    assert_eq!(logger.config.max_payload_size, 1024);
    assert!(!logger.config.truncate_large_payloads);
}

#[test]
fn test_format_json_large_payload_with_truncation() {
    let config = DebugLoggerConfig { color_output: false, max_payload_size: 100, truncate_large_payloads: true };
    let logger = DebugLogger::new(config);
    let large_value = object(vec![("data", serde_json::Value::String("x".repeat(500)))]);
    let formatted = format_json(&logger, &large_value);
    assert!(formatted.len() <= 100);
    assert!(formatted.contains("(truncated)"));
}

#[test]
fn test_format_json_large_payload_without_truncation() {
    let config = DebugLoggerConfig { color_output: false, max_payload_size: 100, truncate_large_payloads: false };
    let logger = DebugLogger::new(config);
    let large_value = object(vec![("data", serde_json::Value::String("x".repeat(500)))]);
    let formatted = format_json(&logger, &large_value);
    assert!(formatted.len() > 100);
    assert!(!formatted.contains("(truncated)"));
}

#[test]
fn test_colorized_output_enabled() {
    let logger = DebugLogger::with_defaults();
    assert!(logger.config.color_output);
}

#[test]
fn test_colorized_output_disabled() {
    let config = DebugLoggerConfig {
        color_output: false,
        max_payload_size: DEFAULT_MAX_PAYLOAD_SIZE,
        truncate_large_payloads: true,
    };
    let logger = DebugLogger::new(config);
    assert!(!logger.config.color_output);
}

#[test]
fn test_generate_recommendation() {
    assert!(generate_recommendation(BottleneckType::HighResponseTime).contains("Check server logs"));
    assert!(generate_recommendation(BottleneckType::HighErrorRate).contains("Review error logs"));
    assert!(generate_recommendation(BottleneckType::LowThroughput).contains("parallel processing"));
    assert!(generate_recommendation(BottleneckType::HighMemoryUsage).contains("memory leaks"));
}
