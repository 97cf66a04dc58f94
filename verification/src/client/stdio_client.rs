//! The arguments of a tool call as the protocol carries them: an object of
//! named arguments, or none.
use vstd::prelude::*;
use crate::models::json::{JsonMember, JsonValue};

verus! {

/// The named arguments sent with a tool call: an object is sent as it is,
/// `null` sends no arguments, and any other value is wrapped in an object
/// under the key `value`.
pub fn tool_arguments(arguments: JsonValue) -> (r: Option<Vec<JsonMember>>)
    ensures
        match arguments {
            JsonValue::Null => r is None,
            JsonValue::Object(ms) => r == Some(ms),
            _ => r matches Some(v) && v@.len() == 1 && v@[0].key@ == "value"@ && v@[0].value == arguments,
        },
{
    match arguments {
        JsonValue::Null => None,
        JsonValue::Object(ms) => Some(ms),
        other => {
            let key = String::from_str("value");
            proof {
                reveal_strlit("value");
            }
            let mut v: Vec<JsonMember> = Vec::new();
            v.push(JsonMember { key, value: other });
            Some(v)
        },
    }
}

} // verus!
