use mcp_inspector_mcp::models::metrics::{MetricStatus, TimeWindow};
use mcp_inspector_mcp::services::debug_logger::{DebugLogger, DebugLoggerConfig};
use mcp_inspector_mcp::services::metrics_collector::MetricsCollector;
use mcp_inspector_mcp::services::report_service::{
    html_escape, html_report, parse_report_format, parse_time_window, HtmlServerGroup, HtmlToolTable, ReportFormat,
};

#[test]
fn test_report_format_equality() {
    assert_eq!(ReportFormat::Console, ReportFormat::Console);
    assert_eq!(ReportFormat::Json, ReportFormat::Json);
    assert_eq!(ReportFormat::Html, ReportFormat::Html);
    assert_ne!(ReportFormat::Console, ReportFormat::Json);
}

#[test]
fn test_html_escape() {
    assert_eq!(html_escape("normal"), "normal");
    assert_eq!(html_escape("<script>"), "&lt;script&gt;");
    assert_eq!(html_escape("a&b"), "a&amp;b");
    assert_eq!(html_escape("\"quote\""), "&quot;quote&quot;");
    assert_eq!(html_escape("'single'"), "&#x27;single&#x27;");
    assert_eq!(
        html_escape("<script>alert('XSS')</script>"),
        "&lt;script&gt;alert(&#x27;XSS&#x27;)&lt;/script&gt;"
    );
}

#[test]
fn parse_command_line_names() {
    assert_eq!(parse_time_window("1H"), Ok(TimeWindow::LastHour));
    assert_eq!(parse_time_window("24h"), Ok(TimeWindow::Last24Hours));
    assert_eq!(parse_time_window("7d"), Ok(TimeWindow::Last7Days));
    assert_eq!(parse_time_window("2d"), Err("Invalid time window: 2d. Valid values: 1h, 24h, 7d".to_string()));
    assert_eq!(parse_report_format("HTML"), Ok(ReportFormat::Html));
    assert_eq!(
        parse_report_format("pdf"),
        Err("Invalid report format: pdf. Valid values: console, json, html".to_string())
    );
}

#[test]
fn test_truncate_small_text() {
    let logger = DebugLogger::with_defaults();
    let text = "Hello, World!";
    assert_eq!(logger.truncate(text, 100), text);
}

#[test]
fn test_truncate_large_text() {
    let logger = DebugLogger::with_defaults();
    let text = "a".repeat(1000);
    let truncated = logger.truncate(&text, 50);
    assert!(truncated.len() <= 50);
    assert!(truncated.contains("(truncated)"));
    assert_eq!(truncated, format!("{}\n... (truncated)", "a".repeat(34)));
}

#[test]
fn test_truncate_utf8_boundary() {
    let logger = DebugLogger::with_defaults();
    let text = "こんにちは世界".repeat(20);
    let truncated = logger.truncate(&text, 50);
    assert!(truncated.len() <= 50);
    assert!(truncated.contains("(truncated)"));
    assert_eq!(truncated, format!("{}\n... (truncated)", "こんにちは世界こんにち"));
}

#[test]
fn test_make_separator() {
    let logger = DebugLogger::new(DebugLoggerConfig { color_output: false, max_payload_size: 1024, truncate_large_payloads: false });
    let separator = logger.make_separator();
    assert_eq!(separator.chars().count(), 70);
    assert!(separator.chars().all(|c| c == '━'));
    assert!(!logger.config.color_output);
    assert_eq!(logger.config.max_payload_size, 1024);
    assert!(!logger.config.truncate_large_payloads);
    assert_eq!(logger.format_payload(&"x".repeat(2000)).len(), 2000);
}

#[test]
fn metrics_summary_counts() {
    let mut c = MetricsCollector::new();
    c.record_metric("s".to_string(), "t1".to_string(), 100, MetricStatus::Success, true, false);
    c.record_metric("s".to_string(), "t2".to_string(), 300, MetricStatus::Error, false, true);
    c.record_metric("other".to_string(), "t1".to_string(), 50, MetricStatus::Success, false, false);
    assert_eq!(c.total_metrics(), 3);
    let s = c.aggregate_metrics("s", None, TimeWindow::LastHour);
    assert_eq!(s.total_requests, 2);
    assert_eq!(s.successful_requests, 1);
    assert_eq!(s.failed_requests, 1);
    assert_eq!(s.cache_hits, 1);
    assert_eq!(s.connection_reuses, 1);
    assert_eq!(s.min_ms, 100);
    assert_eq!(s.max_ms, 300);
    assert_eq!(s.sum_ms, 400);
    assert_eq!(s.response_times, vec![100, 300]);
    let t = c.aggregate_metrics("s", Some("t1"), TimeWindow::LastHour);
    assert_eq!(t.total_requests, 1);
    let none = c.aggregate_metrics("nobody", None, TimeWindow::LastHour);
    assert_eq!(none.total_requests, 0);
    assert_eq!(none.min_ms, 0);
    let now = mcp_inspector_mcp::time::now_millis();
    assert_eq!(c.servers_in_window(TimeWindow::LastHour, now), vec!["s", "other"]);
    assert_eq!(c.tools_in_window("s", TimeWindow::LastHour, now), vec!["t1", "t2"]);
    assert_eq!(c.metrics_in_window(TimeWindow::Custom(1), now + 10_000).len(), 0);
}

#[test]
fn names_are_sorted_lexicographically() {
    let v = vec!["tool_b".to_string(), "Tool".to_string(), "tool_a".to_string(), "tool".to_string()];
    assert_eq!(
        mcp_inspector_mcp::order::sort_names(v),
        vec!["Tool".to_string(), "tool".to_string(), "tool_a".to_string(), "tool_b".to_string()]
    );
}

#[test]
fn html_report_without_metrics_says_so() {
    let r = html_report("Last <1h>", "body{}\n", &Vec::new(), "2024-01-01 00:00:00 UTC");
    assert!(r.starts_with("<!DOCTYPE html>\n<html lang=\"en\">\n"));
    assert!(r.contains("  <title>Performance Report - Last &lt;1h&gt;</title>\n"));
    assert!(r.contains("  <style>\nbody{}\n  </style>\n"));
    assert!(r.contains("  <p>No metrics available for the specified time window.</p>\n"));
    assert!(r.ends_with("  <footer>Generated at: 2024-01-01 00:00:00 UTC</footer>\n</body>\n</html>\n"));
}

#[test]
fn html_report_escapes_server_and_tool_names() {
    let groups = vec![
        HtmlServerGroup {
            server_name: "a&b".to_string(),
            tool_name: None,
            table: "<table>S</table>\n".to_string(),
            tools: vec![HtmlToolTable { tool_name: "<t>".to_string(), table: "<table>T</table>\n".to_string() }],
        },
        HtmlServerGroup {
            server_name: "c".to_string(),
            tool_name: Some("x\"y".to_string()),
            table: "<table>X</table>\n".to_string(),
            tools: Vec::new(),
        },
    ];
    let r = html_report("L", "", &groups, "now");
    let body = "  <h2>Server: a&amp;b</h2>\n  <h3>Server Overview</h3>\n<table>S</table>\n  <h3>Tool Metrics</h3>\n  <h4>&lt;t&gt;</h4>\n<table>T</table>\n  <h2>Server: c</h2>\n  <h3>Tool Metrics</h3>\n  <h4>x&quot;y</h4>\n<table>X</table>\n  <footer>";
    assert!(r.contains(body));
    assert!(!r.contains("No metrics available"));
}
