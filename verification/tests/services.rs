use mcp_inspector_mcp::client::manager::{ClientManager, ConnectionPlan};
use mcp_inspector_mcp::client::monitoring_transport::{
    is_logging_notification, is_sampling_notification, log_entry, sampling_entry,
};
use mcp_inspector_mcp::error::{classify_call_error, timeout_error, InspectorError, ToolExecutionError};
use mcp_inspector_mcp::models::health::HealthCheckResult;
use mcp_inspector_mcp::models::health::HealthStatus;
use mcp_inspector_mcp::models::json::{json_to_string, JsonMember, JsonNumber, JsonValue};
use mcp_inspector_mcp::models::logging_inspection::LogLevel;
use mcp_inspector_mcp::models::sampling::SamplingStatus;
use mcp_inspector_mcp::models::server_config::ServerConfig;
use mcp_inspector_mcp::models::server_info::{DeclaredCapabilities, ListCapability, ResourceCapability};
use mcp_inspector_mcp::models::test_definition::{Assertion, TestCase};
use mcp_inspector_mcp::services::bottleneck_detector::{generate_recommendation, BottleneckType};
use mcp_inspector_mcp::services::capability_validator::{CapabilityValidationResult, CapabilityValidator};
use mcp_inspector_mcp::services::health_checker::HealthChecker;
use mcp_inspector_mcp::services::response_cache::TtlCache;
use mcp_inspector_mcp::services::server_info_service::ServerInfoService;
use mcp_inspector_mcp::services::test_executor::{
    error_value, retry_after, stop_after, test_result, ExecutionOutcome, MockToolExecutor,
};
use mcp_inspector_mcp::services::timing_tracker::TimingTracker;
use std::collections::HashMap;

fn s(x: &str) -> JsonValue {
    JsonValue::String(x.to_string())
}

fn obj(members: Vec<(&str, JsonValue)>) -> JsonValue {
    JsonValue::Object(members.into_iter().map(|(k, v)| JsonMember { key: k.to_string(), value: v }).collect())
}

fn case(tool: &str, arguments: JsonValue, expect_error: bool, assertions: Vec<Assertion>) -> TestCase {
    TestCase {
        name: "t".to_string(),
        description: None,
        tool: tool.to_string(),
        server: "srv".to_string(),
        arguments,
        expect_error,
        assertions,
    }
}

#[test]
fn user_messages() {
    let e = timeout_error("calc", 5000, 3000, false);
    assert_eq!(
        e.user_message(),
        "Tool 'calc' timed out after 5000ms (configured timeout: 3000ms)\nServer process has terminated unexpectedly.\nSuggestion: Try increasing timeout with environment variable: MCP_TOOL_TIMEOUT_MS=6000"
    );
    let c = classify_call_error("calc", "connection reset");
    assert!(matches!(c, ToolExecutionError::CommunicationError { .. }));
    let c = classify_call_error("calc", "failed to parse");
    assert!(matches!(c, ToolExecutionError::InvalidResponse { .. }));
    assert_eq!(c.user_message(), "Tool 'calc' returned invalid response: failed to parse");
    let c = classify_call_error("calc", "boom");
    assert_eq!(c.user_message(), "Server error in tool 'calc': boom");
    assert_eq!(InspectorError::ServerNotFound("x".to_string()).message(), "Server 'x' not found in configuration");
}

#[test]
fn mock_executor_answers() {
    let mock = MockToolExecutor;
    let health = mock.response(&case("health_check", JsonValue::Null, false, vec![])).unwrap();
    assert_eq!(
        json_to_string(&health),
        "{\"error_rate\":0.01,\"server\":\"srv\",\"status\":\"healthy\",\"uptime_seconds\":3600}"
    );
    let err = mock.response(&case("tools_call", obj(vec![("name", s("error_tool"))]), false, vec![])).unwrap_err();
    assert_eq!(err, "Tool execution failed");
    let ok = mock.response(&case("tools_call", obj(vec![("name", s("add"))]), false, vec![])).unwrap();
    assert_eq!(
        json_to_string(&ok),
        "{\"output\":\"Tool executed successfully\",\"result\":{\"content\":[{\"text\":\"{\\\"value\\\":42}\"}]}}"
    );
    assert_eq!(mock.response(&case("nope", JsonValue::Null, false, vec![])).unwrap_err(), "Unknown tool: nope");
    let prompt = mock.response(&case("prompt_get", JsonValue::Null, false, vec![])).unwrap();
    assert_eq!(
        json_to_string(&prompt),
        "{\"messages\":[{\"content\":{\"text\":\"Prompt content\",\"type\":\"text\"},\"role\":\"user\"}]}"
    );
}

#[test]
fn test_results_by_outcome() {
    let t = case("health_check", JsonValue::Null, false, vec![Assertion::Status { expected: "healthy".to_string() }]);
    let r = test_result(&t, 1000, ExecutionOutcome::Response(obj(vec![("status", s("healthy"))])), 12, vec![]);
    assert!(r.passed);
    assert_eq!(r.assertions.len(), 1);
    assert_eq!(r.duration_ms, 12);

    let r = test_result(&t, 1000, ExecutionOutcome::Response(obj(vec![("status", s("down"))])), 12, vec![]);
    assert!(!r.passed);

    let r = test_result(&t, 1500, ExecutionOutcome::TimedOut, 1500, vec![]);
    assert!(!r.passed);
    assert_eq!(r.error, Some("Test timed out after 1500ms".to_string()));

    let r = test_result(&t, 1000, ExecutionOutcome::Failed("bad".to_string()), 3, vec![]);
    assert!(!r.passed);
    assert!(r.assertions.is_empty());
    assert_eq!(r.error, Some("bad".to_string()));

    let e = case("tools_call", JsonValue::Null, true, vec![Assertion::FieldExists { field: "error".to_string() }]);
    let r = test_result(&e, 1000, ExecutionOutcome::Failed("bad".to_string()), 3, vec![]);
    assert!(r.passed);
    assert_eq!(json_to_string(&error_value("bad")), "{\"error\":\"bad\"}");

    assert!(retry_after(&test_result(&t, 1000, ExecutionOutcome::TimedOut, 1, vec![]), 0, 2));
    assert!(!retry_after(&test_result(&t, 1000, ExecutionOutcome::TimedOut, 1, vec![]), 2, 2));
    assert!(stop_after(&test_result(&t, 1000, ExecutionOutcome::TimedOut, 1, vec![]), true));
    assert!(!stop_after(&test_result(&t, 1000, ExecutionOutcome::TimedOut, 1, vec![]), false));
}

#[test]
fn sampling_requests_become_log_entries() {
    let msg = obj(vec![
        ("content", obj(vec![("text", s("hi")), ("type", s("text"))])),
        ("role", s("user")),
    ]);
    let bad = obj(vec![("role", s("user"))]);
    let v = obj(vec![
        ("method", s("sampling/createMessage")),
        (
            "params",
            obj(vec![
                ("maxTokens", JsonValue::Number(JsonNumber::PosInt(4294967297))),
                ("messages", JsonValue::Array(vec![msg, bad])),
                ("modelPreferences", obj(vec![("costPriority", JsonValue::Number(JsonNumber::PosInt(1)))])),
                ("systemPrompt", s("be brief")),
            ]),
        ),
    ]);
    assert!(is_sampling_notification(&v));
    assert!(!is_logging_notification(&v));
    let e = sampling_entry("srv", &v, "2025-01-01T00:00:00Z".to_string());
    assert_eq!(e.id, "srv:2025-01-01T00:00:00Z");
    assert_eq!(e.status, SamplingStatus::Pending);
    assert_eq!(e.messages.len(), 1);
    assert_eq!(e.messages[0].role, "user");
    assert_eq!(e.messages[0].content.text, Some("hi".to_string()));
    assert_eq!(e.max_tokens, Some(1));
    assert_eq!(e.system_prompt, Some("be brief".to_string()));
    assert!(e.model_preferences.is_some());
}

#[test]
fn logging_notifications_become_log_entries() {
    let v = obj(vec![
        ("method", s("notifications/message")),
        ("params", obj(vec![("data", obj(vec![("n", JsonValue::Number(JsonNumber::PosInt(1)))])), ("level", s("warning")), ("logger", s("app"))])),
    ]);
    assert!(is_logging_notification(&v));
    let e = log_entry("srv", &v, "t".to_string()).unwrap();
    assert_eq!(e.level, LogLevel::Warning);
    assert_eq!(e.logger, Some("app".to_string()));
    assert_eq!(e.message, "{\"n\":1}");
    let unknown_level = obj(vec![("params", obj(vec![("data", s("x")), ("level", s("loud"))]))]);
    assert!(log_entry("srv", &unknown_level, "t".to_string()).is_none());
    let no_data = obj(vec![("params", obj(vec![("level", s("info"))]))]);
    assert!(log_entry("srv", &no_data, "t".to_string()).is_none());
}

#[test]
fn capabilities_checked_and_reported() {
    let caps = DeclaredCapabilities {
        logging: true,
        experimental: false,
        completions: false,
        prompts: None,
        resources: Some(ResourceCapability { subscribe: Some(true), list_changed: None }),
        tools: Some(ListCapability { list_changed: Some(true) }),
    };
    let v = CapabilityValidator::new(Some(caps));
    assert!(matches!(v.validate_tools_call("x"), CapabilityValidationResult::Valid));
    match v.validate_prompts_get("p") {
        CapabilityValidationResult::Warning { message } => assert_eq!(
            message,
            "Warning: Server does not declare prompts capability, but attempting to get prompt 'p'"
        ),
        _ => panic!("warning expected"),
    }
    assert!(matches!(CapabilityValidator::new(None).validate_resources_read("u"), CapabilityValidationResult::Unavailable));
    let info = ServerInfoService::parse_capabilities(&caps);
    assert!(info.logging);
    assert!(info.tools.supported && info.tools.list_changed);
    assert!(info.resources.subscribe && !info.resources.list_changed);
    assert!(!info.prompts.supported);
    let d = ServerInfoService::disconnected_info("srv".to_string());
    assert_eq!(d.implementation.name, "Unknown");
    assert!(!d.capabilities.tools.supported);
}

#[test]
fn cache_answers_while_fresh() {
    let mut c: TtlCache<u32> = TtlCache::new();
    c.set("a".to_string(), 1, 100, 1000);
    assert_eq!(c.get("a", 1050), Some(&1));
    assert_eq!(c.get("a", 1100), None);
    c.set("a".to_string(), 2, 100, 2000);
    assert_eq!(c.len(), 1);
    assert_eq!(c.get("a", 2000), Some(&2));
    c.set("b".to_string(), 3, 100, 2000);
    c.invalidate("a");
    assert_eq!(c.get("a", 2000), None);
    assert_eq!(c.len(), 1);
    c.invalidate_all();
    assert_eq!(c.len(), 0);
}

#[test]
fn timings_by_request() {
    let mut t = TimingTracker::new();
    assert_eq!(t.start_timer("r1", "10:00".to_string(), 100), "10:00");
    assert_eq!(t.get_elapsed("r1", 150), Some(50));
    assert_eq!(t.stop_timer("r1", "10:01".to_string(), 400), Some((300, "10:01".to_string())));
    assert_eq!(t.get_elapsed("r1", 900), Some(300));
    assert_eq!(t.stop_timer("nope", "x".to_string(), 1), None);
    t.clear("r1");
    assert!(t.get_timing_info("r1").is_none());
}

#[test]
fn health_history_per_server() {
    let mut h = HealthChecker::new();
    let r = h.record("a", HealthCheckResult::success(100));
    assert_eq!(r.status, HealthStatus::Healthy);
    assert_eq!(r.check_count, 1);
    let r = h.record("a", HealthCheckResult::failure(100, "down".to_string()));
    assert_eq!(r.error_count, 1);
    assert_eq!(r.check_count, 2);
    assert_eq!(r.status, HealthStatus::Unhealthy);
    assert_eq!(r.details, Some("down".to_string()));
    let r = h.record("b", HealthCheckResult::success(600));
    assert_eq!(r.status, HealthStatus::Degraded);
    assert_eq!(r.check_count, 1);
}

#[test]
fn pool_decisions() {
    let c1 = ServerConfig::new_stdio("a".to_string(), "one".to_string(), vec![], HashMap::new());
    let c2 = ServerConfig::new_stdio("a".to_string(), "two".to_string(), vec![], HashMap::new());
    let m = ClientManager::new(vec![c1, c2]);
    assert_eq!(m.get_config("a").unwrap().params.command, "two");
    assert_eq!(m.list_servers(), vec!["a"]);
    assert!(matches!(m.connection_plan("a", true), Ok(ConnectionPlan::Reuse)));
    assert!(matches!(m.connection_plan("a", false), Ok(ConnectionPlan::Connect(c)) if c.params.command == "two"));
    assert!(matches!(m.connection_plan("zz", false), Err(InspectorError::ServerNotFound(n)) if n == "zz"));
}

#[test]
fn recommendations() {
    assert!(generate_recommendation(BottleneckType::LowThroughput).starts_with("- Consider parallel processing"));
}

#[test]
fn sampling_model_preferences_are_kept() {
    let v = obj(vec![
        ("method", s("sampling/createMessage")),
        (
            "params",
            obj(vec![(
                "modelPreferences",
                obj(vec![
                    ("costPriority", JsonValue::Number(JsonNumber::PosInt(1))),
                    ("hints", JsonValue::Array(vec![obj(vec![("name", s("small-model"))]), obj(vec![])])),
                ]),
            )]),
        ),
    ]);
    let e = sampling_entry("srv", &v, "t".to_string());
    let p = e.model_preferences.unwrap();
    let hints: Vec<Option<String>> = p.hints.unwrap().into_iter().map(|h| h.name).collect();
    assert_eq!(hints, vec![Some("small-model".to_string()), None]);
    assert!(matches!(p.cost_priority, Some(JsonNumber::PosInt(1))));
    assert!(p.speed_priority.is_none());
    assert!(p.intelligence_priority.is_none());
}
