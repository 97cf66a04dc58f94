use mcp_inspector_mcp::models::health::{determine_status, HealthCheckResult, HealthHistory, HealthStatus};

// Error rates are given as failed pings over pings.

#[test]
fn test_determine_status_healthy() {
    // Response time < 500ms, error rate < 5%
    assert_eq!(determine_status(400, 4, 100), HealthStatus::Healthy);
    // Edge case: just below the thresholds
    assert_eq!(determine_status(499, 49, 1000), HealthStatus::Healthy);
}

#[test]
fn test_determine_status_degraded() {
    // Response time between 500ms and 2000ms
    assert_eq!(determine_status(1000, 4, 100), HealthStatus::Degraded);
    // Error rate between 5% and 20%
    assert_eq!(determine_status(400, 10, 100), HealthStatus::Degraded);
    // Edge case: exactly at the degraded thresholds
    assert_eq!(determine_status(500, 5, 100), HealthStatus::Degraded);
}

#[test]
fn test_determine_status_unhealthy() {
    // Response time >= 2000ms
    assert_eq!(determine_status(2000, 0, 100), HealthStatus::Unhealthy);
    // Error rate >= 20%
    assert_eq!(determine_status(100, 20, 100), HealthStatus::Unhealthy);
    // Both conditions met
    assert_eq!(determine_status(3000, 50, 100), HealthStatus::Unhealthy);
}

#[test]
fn test_health_history_circular_buffer() {
    let mut history = HealthHistory::new("test-server".to_string(), 3);
    for i in 0..5 {
        history.add_result(HealthCheckResult::success(100 + i));
    }
    assert_eq!(history.recent_checks.len(), 3);
    assert_eq!(history.recent_checks[0].response_time_ms, 102);
    assert_eq!(history.recent_checks[1].response_time_ms, 103);
    assert_eq!(history.recent_checks[2].response_time_ms, 104);
}

#[test]
fn test_health_history_error_stats() {
    let mut history = HealthHistory::new("test-server".to_string(), 10);
    history.add_result(HealthCheckResult::success(100));
    history.add_result(HealthCheckResult::failure(200, "error 1".to_string()));
    history.add_result(HealthCheckResult::success(100));
    history.add_result(HealthCheckResult::success(100));
    history.add_result(HealthCheckResult::failure(200, "error 2".to_string()));
    history.add_result(HealthCheckResult::success(100));
    history.add_result(HealthCheckResult::success(100));
    history.add_result(HealthCheckResult::failure(200, "error 3".to_string()));
    history.add_result(HealthCheckResult::success(100));
    history.add_result(HealthCheckResult::success(100));
    let error_count = history.error_count();
    assert_eq!(error_count, 3);
    // 3/10 = 0.3
    assert_eq!((error_count, history.recent_checks.len()), (3, 10));
}

#[test]
fn test_health_history_empty() {
    let history = HealthHistory::new("test-server".to_string(), 10);
    assert_eq!(history.error_count(), 0);
    assert_eq!(history.recent_checks.len(), 0);
}
