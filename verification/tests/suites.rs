use mcp_inspector_mcp::models::json::{JsonMember, JsonValue};
use mcp_inspector_mcp::models::test_definition::{
    default_retry_count, default_timeout, Assertion, TestCase, TestConfig, TestSuite,
};

fn config(timeout_ms: u64) -> TestConfig {
    TestConfig { timeout_ms, retry_count: default_retry_count(), fail_fast: false, parallel: false }
}

fn suite_case(name: &str, tool: &str, assertions: Vec<Assertion>) -> TestCase {
    TestCase {
        name: name.to_string(),
        description: None,
        tool: tool.to_string(),
        server: "test_server".to_string(),
        arguments: JsonValue::Object(Vec::<JsonMember>::new()),
        expect_error: false,
        assertions,
    }
}

fn suite(name: &str, config: TestConfig, tests: Vec<TestCase>) -> TestSuite {
    TestSuite { name: name.to_string(), version: "1.0".to_string(), description: None, config, tests }
}

#[test]
fn test_definition_test_validate_success() {
    let s = suite(
        "Valid Suite",
        config(5000),
        vec![suite_case("Test 1", "health_check", vec![Assertion::Status { expected: "healthy".to_string() }])],
    );
    assert!(s.validate().is_ok());
}

#[test]
fn test_validate_duplicate_test_names() {
    let s = suite(
        "Invalid Suite",
        config(default_timeout()),
        vec![suite_case("Test 1", "health_check", vec![]), suite_case("Test 1", "health_check", vec![])],
    );
    assert!(s.validate().is_err());
}

#[test]
fn test_validate_invalid_timeout() {
    let s = suite("Invalid Suite", config(0), vec![suite_case("Test 1", "health_check", vec![])]);
    assert!(s.validate().is_err());
}

#[test]
fn test_validate_invalid_tool_name() {
    let s = suite("Invalid Suite", config(default_timeout()), vec![suite_case("Test 1", "invalid_tool", vec![])]);
    assert!(s.validate().is_err());
}

#[test]
fn test_validate_invalid_operator() {
    let s = suite(
        "Invalid Suite",
        config(default_timeout()),
        vec![suite_case(
            "Test 1",
            "health_check",
            vec![Assertion::ResponseTime { operator: "invalid".to_string(), expected: 1000 }],
        )],
    );
    assert!(s.validate().is_err());
}
