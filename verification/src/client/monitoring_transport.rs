//! What the monitoring transport reads from the JSON-RPC messages sent to a
//! server: sampling requests and logging notifications, turned into log
//! entries.
use vstd::prelude::*;
use crate::models::json::{find_member, json_text, json_to_string, lookup_member, opt_val, JsonValue};
use crate::models::logging_inspection::{LogEntry, LogLevel};
use crate::models::sampling::{
    copy_number, f64_view, hints_view, ModelHint, ModelPreferences, ModelPreferencesView, SamplingContent,
    SamplingLogEntry, SamplingMessage, SamplingMessageView, SamplingStatus,
};
use crate::text::{chars_of, concat3, opt_str, str_eq};
use crate::time::now_rfc3339;

verus! {

/// The member `key` of `v`, when `v` is an object (`Value::get` with a key).
pub open spec fn member_of(v: JsonValue, key: Seq<char>) -> Option<JsonValue> {
    match v {
        JsonValue::Object(ms) => find_member(ms@, key),
        _ => None,
    }
}

/// The text of the member `key` of `v`, when it is a string.
pub open spec fn text_member(v: JsonValue, key: Seq<char>) -> Option<Seq<char>> {
    match member_of(v, key) {
        Some(JsonValue::String(s)) => Some(s@),
        _ => None,
    }
}

/// Whether `v` is a request or notification with method `method`.
pub open spec fn has_method(v: JsonValue, method: Seq<char>) -> bool {
    text_member(v, "method"@) == Some(method)
}

/// The `params` of a message, `null` when it has none.
pub open spec fn params_of(v: JsonValue) -> JsonValue {
    match member_of(v, "params"@) {
        Some(p) => p,
        None => JsonValue::Null,
    }
}

/// A message of a sampling request: one with a string `role` and a content
/// with a string `type`; its text when the content has one.
pub open spec fn sampling_message_of(msg: JsonValue) -> Option<SamplingMessageView> {
    match text_member(msg, "role"@) {
        Some(role) => match member_of(msg, "content"@) {
            Some(c) => match text_member(c, "type"@) {
                Some(t) => Some(SamplingMessageView { role, content_type: t, text: text_member(c, "text"@) }),
                None => None,
            },
            None => None,
        },
        None => None,
    }
}

/// The messages of a sampling request that have a role and a content type.
pub open spec fn sampling_messages_of(msgs: Seq<JsonValue>) -> Seq<SamplingMessageView>
    decreases msgs.len(),
{
    if msgs.len() == 0 {
        Seq::empty()
    } else {
        let prev = sampling_messages_of(msgs.drop_last());
        match sampling_message_of(msgs.last()) {
            Some(m) => prev.push(m),
            None => prev,
        }
    }
}

/// The messages of the sampling params `p`.
pub open spec fn params_messages(p: JsonValue) -> Seq<SamplingMessageView> {
    match member_of(p, "messages"@) {
        Some(JsonValue::Array(xs)) => sampling_messages_of(xs@),
        _ => Seq::empty(),
    }
}

/// `maxTokens` of the sampling params, when it is a non-negative integer,
/// truncated to 32 bits.
pub open spec fn params_max_tokens(p: JsonValue) -> Option<u32> {
    match member_of(p, "maxTokens"@) {
        Some(JsonValue::Number(crate::models::json::JsonNumber::PosInt(t))) => Some(t as u32),
        _ => None,
    }
}

/// A number member, when it is a number.
pub open spec fn number_member(v: JsonValue, key: Seq<char>) -> Option<crate::models::json::JsonNumber> {
    match member_of(v, key) {
        Some(JsonValue::Number(n)) => Some(n),
        _ => None,
    }
}

/// The model preferences that the request parameters `p` give: the hint
/// names, and the priorities as the numbers the request holds.
pub open spec fn params_preferences(p: JsonValue) -> Option<ModelPreferencesView> {
    match member_of(p, "modelPreferences"@) {
        Some(prefs) => Some(ModelPreferencesView {
            hints: match member_of(prefs, "hints"@) {
                Some(JsonValue::Array(hs)) => Some(Seq::new(hs@.len(), |i: int| text_member(hs@[i], "name"@))),
                _ => None,
            },
            cost_priority: f64_view(number_member(prefs, "costPriority"@)),
            speed_priority: f64_view(number_member(prefs, "speedPriority"@)),
            intelligence_priority: f64_view(number_member(prefs, "intelligencePriority"@)),
        }),
        None => None,
    }
}

fn get_member<'a>(v: &'a JsonValue, key: &str) -> (r: Option<&'a JsonValue>)
    ensures
        opt_val(r) == member_of(*v, key@),
{
    match v {
        JsonValue::Object(ms) => {
            let k = chars_of(key);
            lookup_member(ms, k.as_slice())
        },
        _ => None,
    }
}

fn get_text(v: &JsonValue, key: &str) -> (r: Option<String>)
    ensures
        match r {
            Some(s) => text_member(*v, key@) == Some(s@),
            None => text_member(*v, key@) is None,
        },
{
    match get_member(v, key) {
        Some(JsonValue::String(s)) => Some(s.clone()),
        _ => None,
    }
}

fn get_number(v: &JsonValue, key: &str) -> (r: Option<crate::models::json::JsonNumber>)
    ensures
        f64_view(r) == f64_view(number_member(*v, key@)),
{
    match get_member(v, key) {
        Some(JsonValue::Number(n)) => Some(copy_number(n)),
        _ => None,
    }
}

/// Whether `v` is a sampling request (`sampling/createMessage`).
pub fn is_sampling_notification(v: &JsonValue) -> (r: bool)
    ensures
        r == has_method(*v, "sampling/createMessage"@),
{
    match get_text(v, "method") {
        Some(m) => str_eq(m.as_str(), "sampling/createMessage"),
        None => false,
    }
}

/// Whether `v` is a logging notification (`notifications/message`).
pub fn is_logging_notification(v: &JsonValue) -> (r: bool)
    ensures
        r == has_method(*v, "notifications/message"@),
{
    match get_text(v, "method") {
        Some(m) => str_eq(m.as_str(), "notifications/message"),
        None => false,
    }
}

fn sampling_message(msg: &JsonValue) -> (r: Option<SamplingMessage>)
    ensures
        match r {
            Some(m) => sampling_message_of(*msg) == Some(m@),
            None => sampling_message_of(*msg) is None,
        },
{
    let role = match get_text(msg, "role") {
        Some(r) => r,
        None => {
            return None;
        },
    };
    let content = match get_member(msg, "content") {
        Some(c) => c,
        None => {
            return None;
        },
    };
    let content_type = match get_text(content, "type") {
        Some(t) => t,
        None => {
            return None;
        },
    };
    let text = get_text(content, "text");
    Some(SamplingMessage { role, content: SamplingContent { content_type, text } })
}

/// The sampling log entry of a sampling request `v` that `server_name` sent at
/// `timestamp`: pending, with the messages, token limit, system prompt and
/// model preferences that its params give.
pub fn sampling_entry(server_name: &str, v: &JsonValue, timestamp: String) -> (r: SamplingLogEntry)
    ensures
        r@.id == server_name@ + ":"@ + timestamp@,
        r@.timestamp == timestamp@,
        r@.status == SamplingStatus::Pending,
        r@.messages == params_messages(params_of(*v)),
        r@.max_tokens == params_max_tokens(params_of(*v)),
        r@.system_prompt == text_member(params_of(*v), "systemPrompt"@),
        r@.model_preferences == params_preferences(params_of(*v)),
        r@.error is None,
        r@.response is None,
{
    let null = JsonValue::Null;
    let params: &JsonValue = match get_member(v, "params") {
        Some(p) => p,
        None => &null,
    };
    let mut messages: Vec<SamplingMessage> = Vec::new();
    match get_member(params, "messages") {
        Some(JsonValue::Array(xs)) => {
            let mut i: usize = 0;
            while i < xs.len()
                invariant
                    i <= xs@.len(),
                    messages@.len() == sampling_messages_of(xs@.take(i as int)).len(),
                    forall|k: int| 0 <= k < messages@.len() ==> (#[trigger] messages@[k])@ == sampling_messages_of(xs@.take(i as int))[k],
                decreases xs@.len() - i,
            {
                proof {
                    assert(xs@.take(i + 1).drop_last() =~= xs@.take(i as int));
                    assert(xs@.take(i + 1).last() == xs@[i as int]);
                }
                match sampling_message(&xs[i]) {
                    Some(m) => {
                        messages.push(m);
                    },
                    None => {},
                }
                i = i + 1;
            }
            assert(xs@.take(xs@.len() as int) =~= xs@);
        },
        _ => {},
    }
    assert(Seq::new(messages@.len(), |i: int| messages@[i]@) =~= params_messages(params_of(*v)));
    let max_tokens = match get_member(params, "maxTokens") {
        Some(JsonValue::Number(crate::models::json::JsonNumber::PosInt(t))) => Some(*t as u32),
        _ => None,
    };
    let system_prompt = get_text(params, "systemPrompt");
    let model_preferences = match get_member(params, "modelPreferences") {
        Some(prefs) => {
            let hints = match get_member(prefs, "hints") {
                Some(JsonValue::Array(hs)) => {
                    let mut out: Vec<ModelHint> = Vec::new();
                    let mut i: usize = 0;
                    while i < hs.len()
                        invariant
                            i <= hs@.len(),
                            out@.len() == i,
                            forall|k: int| 0 <= k < i ==> opt_str((#[trigger] out@[k]).name) == text_member(hs@[k], "name"@),
                        decreases hs@.len() - i,
                    {
                        out.push(ModelHint { name: get_text(&hs[i], "name") });
                        i = i + 1;
                    }
                    assert(hints_view(Some(out)) == Some(Seq::new(hs@.len(), |k: int| text_member(hs@[k], "name"@))));
                    Some(out)
                },
                _ => None,
            };
            Some(ModelPreferences {
                hints,
                cost_priority: get_number(prefs, "costPriority"),
                speed_priority: get_number(prefs, "speedPriority"),
                intelligence_priority: get_number(prefs, "intelligencePriority"),
            })
        },
        None => None,
    };
    SamplingLogEntry {
        id: concat3(server_name, ":", timestamp.as_str()),
        timestamp,
        status: SamplingStatus::Pending,
        messages,
        model_preferences,
        system_prompt,
        max_tokens,
        error: None,
        response: None,
    }
}

/// The sampling log entry of a sampling request `v` sent now by `server_name`.
pub fn extract_sampling(server_name: &str, v: &JsonValue) -> (r: SamplingLogEntry)
    ensures
        r@.status == SamplingStatus::Pending,
        r@.messages == params_messages(params_of(*v)),
        r@.max_tokens == params_max_tokens(params_of(*v)),
        r@.system_prompt == text_member(params_of(*v), "systemPrompt"@),
        r@.model_preferences == params_preferences(params_of(*v)),
        r@.error is None,
        r@.response is None,
        r@.id == server_name@ + ":"@ + r@.timestamp,
{
    sampling_entry(server_name, v, now_rfc3339())
}

/// The level that an MCP logging notification names (exact lowercase names).
pub open spec fn notification_level(s: Seq<char>) -> Option<LogLevel> {
    if s == "debug"@ {
        Some(LogLevel::Debug)
    } else if s == "info"@ {
        Some(LogLevel::Info)
    } else if s == "notice"@ {
        Some(LogLevel::Notice)
    } else if s == "warning"@ {
        Some(LogLevel::Warning)
    } else if s == "error"@ {
        Some(LogLevel::Error)
    } else if s == "critical"@ {
        Some(LogLevel::Critical)
    } else if s == "alert"@ {
        Some(LogLevel::Alert)
    } else if s == "emergency"@ {
        Some(LogLevel::Emergency)
    } else {
        None
    }
}

fn level_of(s: &str) -> (r: Option<LogLevel>)
    ensures
        r == notification_level(s@),
{
    if str_eq(s, "debug") {
        Some(LogLevel::Debug)
    } else if str_eq(s, "info") {
        Some(LogLevel::Info)
    } else if str_eq(s, "notice") {
        Some(LogLevel::Notice)
    } else if str_eq(s, "warning") {
        Some(LogLevel::Warning)
    } else if str_eq(s, "error") {
        Some(LogLevel::Error)
    } else if str_eq(s, "critical") {
        Some(LogLevel::Critical)
    } else if str_eq(s, "alert") {
        Some(LogLevel::Alert)
    } else if str_eq(s, "emergency") {
        Some(LogLevel::Emergency)
    } else {
        None
    }
}

/// The parts of a logging notification's params as the MCP types read them
/// from an object: a known `level`, a `logger` that is a string, `null` or
/// absent, and any `data`.
pub open spec fn notification_parts(p: JsonValue) -> Option<(LogLevel, Option<Seq<char>>, JsonValue)> {
    match p {
        JsonValue::Object(ms) => match (member_of(p, "level"@), member_of(p, "data"@)) {
            (Some(JsonValue::String(l)), Some(d)) => match notification_level(l@) {
                Some(level) => match member_of(p, "logger"@) {
                    None => Some((level, None, d)),
                    Some(JsonValue::Null) => Some((level, None, d)),
                    Some(JsonValue::String(g)) => Some((level, Some(g@), d)),
                    Some(_) => None,
                },
                None => None,
            },
            _ => None,
        },
        _ => None,
    }
}

/// The log entry of a logging notification `v` that `server_name` sent at
/// `timestamp`: its level, logger and data (as JSON text); `None` when its
/// params are not an object of that shape.
pub fn log_entry(server_name: &str, v: &JsonValue, timestamp: String) -> (r: Option<LogEntry>)
    ensures
        match notification_parts(params_of(*v)) {
            Some((level, logger, data)) => r matches Some(e) && e.timestamp@ == timestamp@
                && e.server_name@ == server_name@ && e.level == level
                && (match e.logger { Some(g) => logger == Some(g@), None => logger is None })
                && e.message@ == json_text(data),
            None => r is None,
        },
{
    let null = JsonValue::Null;
    let params: &JsonValue = match get_member(v, "params") {
        Some(p) => p,
        None => &null,
    };
    match params {
        JsonValue::Object(_) => {},
        _ => {
            return None;
        },
    }
    let level = match get_member(params, "level") {
        Some(JsonValue::String(l)) => match level_of(l.as_str()) {
            Some(level) => level,
            None => {
                return None;
            },
        },
        _ => {
            return None;
        },
    };
    let data = match get_member(params, "data") {
        Some(d) => d,
        None => {
            return None;
        },
    };
    let logger = match get_member(params, "logger") {
        None => None,
        Some(JsonValue::Null) => None,
        Some(JsonValue::String(g)) => Some(g.clone()),
        Some(_) => {
            return None;
        },
    };
    Some(LogEntry {
        timestamp,
        server_name: String::from_str(server_name),
        level,
        logger,
        message: json_to_string(data),
    })
}

/// The log entry of a logging notification `v` sent now by `server_name`.
pub fn extract_log_message(server_name: &str, v: &JsonValue) -> (r: Option<LogEntry>)
    ensures
        (r is Some) == (notification_parts(params_of(*v)) is Some),
{
    log_entry(server_name, v, now_rfc3339())
}

} // verus!
