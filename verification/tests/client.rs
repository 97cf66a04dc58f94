use mcp_inspector_mcp::client::stdio_client::tool_arguments;
use mcp_inspector_mcp::models::json::{json_to_string, JsonMember, JsonNumber, JsonValue};

#[test]
fn tool_arguments_object_is_sent_as_is() {
    let v = JsonValue::Object(vec![JsonMember { key: "a".to_string(), value: JsonValue::Number(JsonNumber::PosInt(1)) }]);
    let r = tool_arguments(v).expect("an object is sent");
    assert_eq!(r.len(), 1);
    assert_eq!(r[0].key, "a");
    assert_eq!(json_to_string(&r[0].value), "1");
}

#[test]
fn tool_arguments_null_sends_none() {
    assert!(tool_arguments(JsonValue::Null).is_none());
}

#[test]
fn tool_arguments_wraps_other_values() {
    let r = tool_arguments(JsonValue::String("hi".to_string())).expect("a wrapped value");
    assert_eq!(r.len(), 1);
    assert_eq!(r[0].key, "value");
    assert_eq!(json_to_string(&r[0].value), "\"hi\"");
    let r = tool_arguments(JsonValue::Array(vec![JsonValue::Bool(true)])).expect("a wrapped value");
    assert_eq!(r[0].key, "value");
    assert_eq!(json_to_string(&r[0].value), "[true]");
}
