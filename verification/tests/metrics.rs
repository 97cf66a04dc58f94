use mcp_inspector_mcp::models::metrics::{MetricStatus, Metrics, TimeWindow};
use mcp_inspector_mcp::services::capability_validator::{CapabilityValidationResult, CapabilityValidator};
use mcp_inspector_mcp::models::server_info::{DeclaredCapabilities, ListCapability};
use mcp_inspector_mcp::services::metrics_collector::{MetricsCollector, MAX_METRICS_BUFFER_SIZE};
use mcp_inspector_mcp::services::report_service::{format_time_window_label, html_report, HtmlServerGroup, HtmlToolTable};
use mcp_inspector_mcp::services::timing_tracker::TimingTracker;
use mcp_inspector_mcp::time::now_millis;

// Rates are checked as counts over the number of requests.

#[test]
fn test_metrics_is_success() {
    let m = Metrics::new("server".to_string(), "tool".to_string(), 100, MetricStatus::Success, false, false);
    assert!(m.is_success());
    assert!(!m.is_error());
}

#[test]
fn test_metrics_is_error() {
    let m = Metrics::new("server".to_string(), "tool".to_string(), 100, MetricStatus::Error, false, false);
    assert!(m.is_error());
    assert!(!m.is_success());
}

#[test]
fn test_metrics_collector_new() {
    let collector = MetricsCollector::new();
    assert_eq!(collector.total_metrics(), 0);
}

#[test]
fn test_record_metric() {
    let mut collector = MetricsCollector::new();
    collector.record_metric("test_server".to_string(), "test_tool".to_string(), 100, MetricStatus::Success, false, false);
    assert_eq!(collector.total_metrics(), 1);
}

#[test]
fn test_record_multiple_metrics() {
    let mut collector = MetricsCollector::new();
    for i in 0..10 {
        collector.record_metric("server".to_string(), "tool".to_string(), 100 + i, MetricStatus::Success, false, false);
    }
    assert_eq!(collector.total_metrics(), 10);
}

#[test]
fn test_circular_buffer_limit() {
    let mut collector = MetricsCollector::new();
    for i in 0..MAX_METRICS_BUFFER_SIZE + 100 {
        collector.record_metric("server".to_string(), "tool".to_string(), i as u64, MetricStatus::Success, false, false);
    }
    assert_eq!(collector.total_metrics(), MAX_METRICS_BUFFER_SIZE);
}

#[test]
fn test_get_metrics_empty() {
    let collector = MetricsCollector::new();
    assert_eq!(collector.get_metrics(TimeWindow::LastHour).len(), 0);
}

#[test]
fn test_get_metrics_within_window() {
    let mut collector = MetricsCollector::new();
    collector.record_metric("server".to_string(), "tool".to_string(), 100, MetricStatus::Success, false, false);
    assert_eq!(collector.get_metrics(TimeWindow::LastHour).len(), 1);
}

#[test]
fn test_aggregate_metrics_empty() {
    let collector = MetricsCollector::new();
    let aggregated = collector.aggregate_metrics("server", None, TimeWindow::LastHour);
    assert_eq!(aggregated.total_requests, 0);
}

#[test]
fn test_aggregate_metrics_single() {
    let mut collector = MetricsCollector::new();
    collector.record_metric("server".to_string(), "tool".to_string(), 100, MetricStatus::Success, true, false);
    let aggregated = collector.aggregate_metrics("server", None, TimeWindow::LastHour);
    assert_eq!(aggregated.total_requests, 1);
    assert_eq!(aggregated.successful_requests, 1);
    assert_eq!(aggregated.failed_requests, 0);
    assert_eq!(aggregated.min_ms, 100);
    assert_eq!(aggregated.max_ms, 100);
    // average 100.0
    assert_eq!(aggregated.sum_ms, 100 * aggregated.total_requests as u128);
}

#[test]
fn test_aggregate_metrics_multiple() {
    let mut collector = MetricsCollector::new();
    collector.record_metric("server".to_string(), "tool".to_string(), 100, MetricStatus::Success, true, false);
    collector.record_metric("server".to_string(), "tool".to_string(), 200, MetricStatus::Success, false, true);
    collector.record_metric("server".to_string(), "tool".to_string(), 300, MetricStatus::Error, false, false);
    let aggregated = collector.aggregate_metrics("server", None, TimeWindow::LastHour);
    assert_eq!(aggregated.total_requests, 3);
    assert_eq!(aggregated.successful_requests, 2);
    assert_eq!(aggregated.failed_requests, 1);
    assert_eq!(aggregated.min_ms, 100);
    assert_eq!(aggregated.max_ms, 300);
    // average 200.0
    assert_eq!(aggregated.sum_ms, 200 * aggregated.total_requests as u128);
    // error rate 33.33%: one failure in three
    assert_eq!((aggregated.failed_requests, aggregated.total_requests), (1, 3));
    // cache hit rate 33.33%: one hit in three
    assert_eq!((aggregated.cache_hits, aggregated.total_requests), (1, 3));
}

#[test]
fn test_aggregate_metrics_filter_by_tool() {
    let mut collector = MetricsCollector::new();
    collector.record_metric("server".to_string(), "tool1".to_string(), 100, MetricStatus::Success, false, false);
    collector.record_metric("server".to_string(), "tool2".to_string(), 200, MetricStatus::Success, false, false);
    let aggregated = collector.aggregate_metrics("server", Some("tool1"), TimeWindow::LastHour);
    assert_eq!(aggregated.total_requests, 1);
    assert_eq!(aggregated.min_ms, 100);
}

#[test]
fn test_aggregate_by_server() {
    let mut collector = MetricsCollector::new();
    collector.record_metric("server1".to_string(), "tool".to_string(), 100, MetricStatus::Success, false, false);
    collector.record_metric("server2".to_string(), "tool".to_string(), 200, MetricStatus::Success, false, false);
    let servers = collector.servers_in_window(TimeWindow::LastHour, now_millis());
    assert_eq!(servers.len(), 2);
    assert!(servers.contains(&"server1".to_string()));
    assert!(servers.contains(&"server2".to_string()));
}

#[test]
fn test_aggregate_by_tool() {
    let mut collector = MetricsCollector::new();
    collector.record_metric("server".to_string(), "tool1".to_string(), 100, MetricStatus::Success, false, false);
    collector.record_metric("server".to_string(), "tool2".to_string(), 200, MetricStatus::Success, false, false);
    let tools = collector.tools_in_window("server", TimeWindow::LastHour, now_millis());
    assert_eq!(tools.len(), 2);
    assert!(tools.contains(&"tool1".to_string()));
    assert!(tools.contains(&"tool2".to_string()));
}

fn with_tools() -> DeclaredCapabilities {
    DeclaredCapabilities {
        logging: false,
        experimental: false,
        completions: false,
        prompts: None,
        resources: None,
        tools: Some(ListCapability { list_changed: Some(false) }),
    }
}

fn without_tools() -> DeclaredCapabilities {
    DeclaredCapabilities { logging: false, experimental: false, completions: false, prompts: None, resources: None, tools: None }
}

#[test]
fn test_validate_tools_call_with_capability() {
    let validator = CapabilityValidator::new(Some(with_tools()));
    match validator.validate_tools_call("test_tool") {
        CapabilityValidationResult::Valid => {}
        _ => panic!("Expected Valid result"),
    }
}

#[test]
fn test_validate_tools_call_without_capability() {
    let validator = CapabilityValidator::new(Some(without_tools()));
    match validator.validate_tools_call("test_tool") {
        CapabilityValidationResult::Warning { message } => {
            assert!(message.contains("test_tool"));
            assert!(message.contains("does not declare tools capability"));
        }
        _ => panic!("Expected Warning result"),
    }
}

#[test]
fn test_validate_tools_call_unavailable() {
    let validator = CapabilityValidator::new(None);
    match validator.validate_tools_call("test_tool") {
        CapabilityValidationResult::Unavailable => {}
        _ => panic!("Expected Unavailable result"),
    }
}

// The timing tracker takes the clock readings as arguments: a reading 10 ms
// after the start stands for the original's 10 ms sleep.

#[test]
fn test_timing_tracker_creation() {
    let tracker = TimingTracker::new();
    assert!(tracker.get_elapsed("non-existent", 0).is_none());
}

#[test]
fn test_start_timer() {
    let mut tracker = TimingTracker::new();
    let start_time = tracker.start_timer("req-123", "2025-01-15 12:00:00.000".to_string(), 1000);
    assert!(tracker.get_elapsed("req-123", 1000).is_some());
    let timing_info = tracker.get_timing_info("req-123").unwrap();
    assert_eq!(timing_info.start_time, start_time);
    assert!(timing_info.end_time.is_none());
    assert!(timing_info.elapsed_ms.is_none());
}

#[test]
fn test_stop_timer() {
    let mut tracker = TimingTracker::new();
    tracker.start_timer("req-123", "2025-01-15 12:00:00.000".to_string(), 1000);
    let result = tracker.stop_timer("req-123", "2025-01-15 12:00:00.010".to_string(), 1010);
    assert!(result.is_some());
    let (elapsed_ms, _end_time) = result.unwrap();
    assert!(elapsed_ms >= 10);
    let timing_info = tracker.get_timing_info("req-123").unwrap();
    assert!(timing_info.end_time.is_some());
    assert_eq!(timing_info.elapsed_ms, Some(elapsed_ms));
}

#[test]
fn test_stop_nonexistent_timer() {
    let mut tracker = TimingTracker::new();
    assert!(tracker.stop_timer("non-existent", "2025-01-15 12:00:00.000".to_string(), 0).is_none());
}

#[test]
fn test_get_elapsed_running() {
    let mut tracker = TimingTracker::new();
    tracker.start_timer("req-123", "2025-01-15 12:00:00.000".to_string(), 1000);
    let elapsed_ms = tracker.get_elapsed("req-123", 1010).unwrap();
    assert!(elapsed_ms >= 10);
}

#[test]
fn test_get_elapsed_stopped() {
    let mut tracker = TimingTracker::new();
    tracker.start_timer("req-123", "2025-01-15 12:00:00.000".to_string(), 1000);
    let (stopped_elapsed, _) = tracker.stop_timer("req-123", "2025-01-15 12:00:00.010".to_string(), 1010).unwrap();
    let elapsed_ms = tracker.get_elapsed("req-123", 5000).unwrap();
    assert_eq!(elapsed_ms, stopped_elapsed);
}

#[test]
fn test_clear() {
    let mut tracker = TimingTracker::new();
    tracker.start_timer("req-123", "t".to_string(), 0);
    assert!(tracker.get_elapsed("req-123", 0).is_some());
    tracker.clear("req-123");
    assert!(tracker.get_elapsed("req-123", 0).is_none());
}

#[test]
fn test_clear_all() {
    let mut tracker = TimingTracker::new();
    tracker.start_timer("req-1", "t".to_string(), 0);
    tracker.start_timer("req-2", "t".to_string(), 0);
    tracker.start_timer("req-3", "t".to_string(), 0);
    assert!(tracker.get_elapsed("req-1", 0).is_some());
    assert!(tracker.get_elapsed("req-2", 0).is_some());
    assert!(tracker.get_elapsed("req-3", 0).is_some());
    tracker.clear_all();
    assert!(tracker.get_elapsed("req-1", 0).is_none());
    assert!(tracker.get_elapsed("req-2", 0).is_none());
    assert!(tracker.get_elapsed("req-3", 0).is_none());
}

#[test]
fn test_format_time_window_label() {
    assert_eq!(format_time_window_label(TimeWindow::LastHour), "Last Hour");
    assert_eq!(format_time_window_label(TimeWindow::Last24Hours), "Last 24 Hours");
    assert_eq!(format_time_window_label(TimeWindow::Last7Days), "Last 7 Days");
}

/// The HTML report of what `collector` holds in the last hour; the metrics
/// tables (floating-point figures) are left empty.
fn html_of(collector: &MetricsCollector) -> String {
    let now = now_millis();
    let groups: Vec<HtmlServerGroup> = collector
        .servers_in_window(TimeWindow::LastHour, now)
        .into_iter()
        .map(|server| HtmlServerGroup {
            tools: collector
                .tools_in_window(&server, TimeWindow::LastHour, now)
                .into_iter()
                .map(|t| HtmlToolTable { tool_name: t, table: String::new() })
                .collect(),
            server_name: server,
            tool_name: None,
            table: String::new(),
        })
        .collect();
    html_report(&format_time_window_label(TimeWindow::LastHour), "", &groups, "2025-01-15 12:00:00 UTC")
}

#[test]
fn test_generate_html_report_empty() {
    let report = html_of(&MetricsCollector::new());
    assert!(report.contains("<!DOCTYPE html>"));
    assert!(report.contains("<html"));
    assert!(report.contains("Performance Report"));
    assert!(report.contains("No metrics available"));
    assert!(report.contains("</html>"));
}

#[test]
fn test_html_report_xss_protection() {
    let mut collector = MetricsCollector::new();
    collector.record_metric(
        "<script>alert('xss')</script>".to_string(),
        "<img src=x>".to_string(),
        100,
        MetricStatus::Success,
        false,
        false,
    );
    let report = html_of(&collector);
    assert!(!report.contains("<script>"));
    assert!(!report.contains("<img"));
    assert!(report.contains("&lt;script&gt;"));
    assert!(report.contains("&lt;img"));
}
