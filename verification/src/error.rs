//! Errors of tool execution and of the inspector, with their user-facing texts.
use vstd::prelude::*;
use crate::text::{
    opt_str, concat2, concat3, contains_seq, decimal, ends_with_seq, occurs_at, push_decimal, push_str, signed_decimal, str_contains,
};

verus! {

/// What went wrong while executing a tool on a target server.
pub enum ToolExecutionError {
    /// The call did not finish in time.
    Timeout {
        tool_name: String,
        elapsed_ms: u64,
        configured_timeout_ms: u64,
        server_alive: bool,
        suggestion: Option<String>,
    },
    /// The server process crashed.
    ServerCrash { tool_name: String, exit_code: Option<i32>, stderr: String, last_log: Option<String> },
    /// The server answered with something that could not be understood.
    InvalidResponse {
        tool_name: String,
        received: String,
        expected_format: String,
        parse_error: String,
    },
    /// Communication with the server failed.
    CommunicationError { tool_name: String, details: String, suggestion: Option<String> },
    /// The server reported an error.
    ServerError { tool_name: String, error_message: String, error_code: Option<i32> },
    /// Any other failure.
    Other { tool_name: String, message: String },
}

/// `Debug` text of an optional 32-bit integer (`Some(n)` or `None`).
pub open spec fn opt_i32_debug(v: Option<i32>) -> Seq<char> {
    match v {
        Some(n) => "Some("@ + signed_decimal(n as int) + ")"@,
        None => "None"@,
    }
}

/// The optional `Suggestion:` line.
pub open spec fn suggestion_text(s: Option<String>) -> Seq<char> {
    match s {
        Some(x) => "\nSuggestion: "@ + x@,
        None => Seq::empty(),
    }
}

/// The user-facing message of a tool execution error.
pub open spec fn user_message_spec(e: ToolExecutionError) -> Seq<char> {
    match e {
        ToolExecutionError::Timeout {
            tool_name,
            elapsed_ms,
            configured_timeout_ms,
            server_alive,
            suggestion,
        } => "Tool '"@ + tool_name@ + "' timed out after "@ + decimal(elapsed_ms as nat)
            + "ms (configured timeout: "@ + decimal(configured_timeout_ms as nat) + "ms)"@ + (if server_alive {
            Seq::empty()
        } else {
            "\nServer process has terminated unexpectedly."@
        }) + suggestion_text(suggestion),
        ToolExecutionError::ServerCrash { tool_name, exit_code, stderr, .. } =>
            "Server crashed while executing tool '"@ + tool_name@ + "'\nExit code: "@ + opt_i32_debug(
            exit_code,
        ) + "\nError output: "@ + (if stderr@.len() == 0 {
            "(none)"@
        } else {
            stderr@
        }),
        ToolExecutionError::InvalidResponse { tool_name, parse_error, .. } => "Tool '"@ + tool_name@
            + "' returned invalid response: "@ + parse_error@,
        ToolExecutionError::CommunicationError { tool_name, details, suggestion } =>
            "Communication error while calling tool '"@ + tool_name@ + "': "@ + details@
            + suggestion_text(suggestion),
        ToolExecutionError::ServerError { tool_name, error_message, .. } => "Server error in tool '"@
            + tool_name@ + "': "@ + error_message@,
        ToolExecutionError::Other { tool_name, message } => "Error in tool '"@ + tool_name@ + "': "@
            + message@,
    }
}

fn push_suggestion(out: &mut String, s: &Option<String>)
    ensures
        final(out)@ == old(out)@ + suggestion_text(*s),
{
    match s {
        Some(x) => {
            push_str(out, "\nSuggestion: ");
            push_str(out, x.as_str());
        },
        None => {
            assert(old(out)@ + suggestion_text(*s) =~= old(out)@);
        },
    }
}

impl ToolExecutionError {
    /// A user-friendly message describing the error.
    pub fn user_message(&self) -> (s: String)
        ensures
            s@ == user_message_spec(*self),
    {
        match self {
            ToolExecutionError::Timeout {
                tool_name,
                elapsed_ms,
                configured_timeout_ms,
                server_alive,
                suggestion,
            } => {
                let mut msg = concat3("Tool '", tool_name.as_str(), "' timed out after ");
                push_decimal(&mut msg, *elapsed_ms);
                push_str(&mut msg, "ms (configured timeout: ");
                push_decimal(&mut msg, *configured_timeout_ms);
                push_str(&mut msg, "ms)");
                let ghost before = msg@;
                if !*server_alive {
                    push_str(&mut msg, "\nServer process has terminated unexpectedly.");
                } else {
                    assert(msg@ =~= before + Seq::<char>::empty());
                }
                push_suggestion(&mut msg, suggestion);
                assert(msg@ =~= user_message_spec(*self));
                msg
            },
            ToolExecutionError::ServerCrash { tool_name, exit_code, stderr, .. } => {
                let mut msg = concat3(
                    "Server crashed while executing tool '",
                    tool_name.as_str(),
                    "'\nExit code: ",
                );
                match exit_code {
                    Some(n) => {
                        push_str(&mut msg, "Some(");
                        let d = crate::text::i64_to_decimal(*n as i64);
                        push_str(&mut msg, d.as_str());
                        push_str(&mut msg, ")");
                    },
                    None => push_str(&mut msg, "None"),
                }
                push_str(&mut msg, "\nError output: ");
                if stderr.unicode_len() == 0 {
                    push_str(&mut msg, "(none)");
                } else {
                    push_str(&mut msg, stderr.as_str());
                }
                assert(msg@ =~= user_message_spec(*self));
                msg
            },
            ToolExecutionError::InvalidResponse { tool_name, parse_error, .. } => {
                let mut msg = concat3(
                    "Tool '",
                    tool_name.as_str(),
                    "' returned invalid response: ",
                );
                push_str(&mut msg, parse_error.as_str());
                msg
            },
            ToolExecutionError::CommunicationError { tool_name, details, suggestion } => {
                let mut msg = concat3(
                    "Communication error while calling tool '",
                    tool_name.as_str(),
                    "': ",
                );
                push_str(&mut msg, details.as_str());
                push_suggestion(&mut msg, suggestion);
                msg
            },
            ToolExecutionError::ServerError { tool_name, error_message, .. } => {
                let mut msg = concat3("Server error in tool '", tool_name.as_str(), "': ");
                push_str(&mut msg, error_message.as_str());
                msg
            },
            ToolExecutionError::Other { tool_name, message } => {
                let mut msg = concat3("Error in tool '", tool_name.as_str(), "': ");
                push_str(&mut msg, message.as_str());
                msg
            },
        }
    }
}

// ---------------------------------------------------------------------------
// Classification of failed tool calls
// ---------------------------------------------------------------------------

/// The error a failed tool call is reported as, judged by the words of the
/// underlying error text.
pub open spec fn classify_spec(tool_name: Seq<char>, err: Seq<char>) -> ToolExecutionErrorKind {
    if contains_seq(err, "server terminated"@) || contains_seq(err, "process"@) {
        ToolExecutionErrorKind::ServerCrash
    } else if contains_seq(err, "parse"@) || contains_seq(err, "invalid"@) || contains_seq(
        err,
        "deserialize"@,
    ) {
        ToolExecutionErrorKind::InvalidResponse
    } else if contains_seq(err, "connection"@) || contains_seq(err, "io"@) || contains_seq(
        err,
        "channel"@,
    ) {
        ToolExecutionErrorKind::CommunicationError
    } else {
        ToolExecutionErrorKind::ServerError
    }
}

/// The variant of a [`ToolExecutionError`], without its data.
#[derive(PartialEq, Eq, Structural)]
pub enum ToolExecutionErrorKind {
    Timeout,
    ServerCrash,
    InvalidResponse,
    CommunicationError,
    ServerError,
    Other,
}

/// The variant of an error.
pub open spec fn kind_of(e: ToolExecutionError) -> ToolExecutionErrorKind {
    match e {
        ToolExecutionError::Timeout { .. } => ToolExecutionErrorKind::Timeout,
        ToolExecutionError::ServerCrash { .. } => ToolExecutionErrorKind::ServerCrash,
        ToolExecutionError::InvalidResponse { .. } => ToolExecutionErrorKind::InvalidResponse,
        ToolExecutionError::CommunicationError { .. } => ToolExecutionErrorKind::CommunicationError,
        ToolExecutionError::ServerError { .. } => ToolExecutionErrorKind::ServerError,
        ToolExecutionError::Other { .. } => ToolExecutionErrorKind::Other,
    }
}

/// Builds the structured error for a tool call that failed with the error text
/// `err`: a crash, an invalid response, a communication failure or a server
/// error, as the text suggests.
pub fn classify_call_error(tool_name: &str, err: &str) -> (e: ToolExecutionError)
    ensures
        kind_of(e) == classify_spec(tool_name@, err@),
        e is ServerCrash ==> e->ServerCrash_tool_name@ == tool_name@ && e->exit_code is None
            && e->stderr@ == err@ && e->last_log is None,
        e is InvalidResponse ==> e->InvalidResponse_tool_name@ == tool_name@ && e->received@ == err@
            && e->expected_format@ == "Valid JSON response"@ && e->parse_error@ == err@,
        e is CommunicationError ==> e->CommunicationError_tool_name@ == tool_name@ && e->details@
            == err@ && opt_str(e->CommunicationError_suggestion) == Some(
            "Check if the server process is still running and responsive"@,
        ),
        e is ServerError ==> e->ServerError_tool_name@ == tool_name@ && e->error_message@ == err@
            && e->error_code is None,
{
    let t = String::from_str(tool_name);
    let copy = String::from_str(err);
    if str_contains(err, "server terminated") || str_contains(err, "process") {
        ToolExecutionError::ServerCrash { tool_name: t, exit_code: None, stderr: copy, last_log: None }
    } else if str_contains(err, "parse") || str_contains(err, "invalid") || str_contains(
        err,
        "deserialize",
    ) {
        ToolExecutionError::InvalidResponse {
            tool_name: t,
            received: copy,
            expected_format: String::from_str("Valid JSON response"),
            parse_error: String::from_str(err),
        }
    } else if str_contains(err, "connection") || str_contains(err, "io") || str_contains(
        err,
        "channel",
    ) {
        ToolExecutionError::CommunicationError {
            tool_name: t,
            details: copy,
            suggestion: Some(
                String::from_str("Check if the server process is still running and responsive"),
            ),
        }
    } else {
        ToolExecutionError::ServerError { tool_name: t, error_message: copy, error_code: None }
    }
}

/// Builds the error for a tool call that ran past its timeout, with a suggestion
/// to double the timeout.
pub fn timeout_error(tool_name: &str, elapsed_ms: u64, timeout_ms: u64, server_alive: bool) -> (e:
    ToolExecutionError)
    requires
        timeout_ms <= u64::MAX / 2,
    ensures
        e is Timeout,
        e->Timeout_tool_name@ == tool_name@,
        e->elapsed_ms == elapsed_ms,
        e->configured_timeout_ms == timeout_ms,
        e->server_alive == server_alive,
        opt_str(e->Timeout_suggestion) == Some(
            "Try increasing timeout with environment variable: MCP_TOOL_TIMEOUT_MS="@ + decimal(
                (timeout_ms * 2) as nat,
            ),
        ),
{
    let mut s = String::from_str("Try increasing timeout with environment variable: MCP_TOOL_TIMEOUT_MS=");
    push_decimal(&mut s, timeout_ms * 2);
    ToolExecutionError::Timeout {
        tool_name: String::from_str(tool_name),
        elapsed_ms,
        configured_timeout_ms: timeout_ms,
        server_alive,
        suggestion: Some(s),
    }
}

// ---------------------------------------------------------------------------
// Inspector errors
// ---------------------------------------------------------------------------

/// Errors of the inspector, with the underlying causes kept as text.
#[derive(Debug)]
pub enum InspectorError {
    ServerNotFound(String),
    ConnectionFailed { server: String, source: String },
    ToolExecutionFailed { server: String, tool: String, source: String },
    InvalidArguments { tool: String, message: String },
    Config(String),
    Internal(String),
    JsonError(String),
    IoError(String),
}

/// The text an [`InspectorError`] displays.
pub open spec fn inspector_error_text(e: InspectorError) -> Seq<char> {
    match e {
        InspectorError::ServerNotFound(s) => "Server '"@ + s@ + "' not found in configuration"@,
        InspectorError::ConnectionFailed { server, source } => "Failed to connect to server '"@
            + server@ + "': "@ + source@,
        InspectorError::ToolExecutionFailed { server, tool, source } =>
            "Tool execution failed for '"@ + tool@ + "' on server '"@ + server@ + "': "@ + source@,
        InspectorError::InvalidArguments { tool, message } => "Invalid arguments for tool '"@ + tool@
            + "': "@ + message@,
        InspectorError::Config(m) => "Configuration error: "@ + m@,
        InspectorError::Internal(m) => "Internal error: "@ + m@,
        InspectorError::JsonError(m) => "JSON serialization/deserialization error: "@ + m@,
        InspectorError::IoError(m) => "IO error: "@ + m@,
    }
}

impl InspectorError {
    /// The text the error displays.
    pub fn message(&self) -> (s: String)
        ensures
            s@ == inspector_error_text(*self),
    {
        match self {
            InspectorError::ServerNotFound(s) => concat3(
                "Server '",
                s.as_str(),
                "' not found in configuration",
            ),
            InspectorError::ConnectionFailed { server, source } => {
                let mut m = concat3("Failed to connect to server '", server.as_str(), "': ");
                push_str(&mut m, source.as_str());
                m
            },
            InspectorError::ToolExecutionFailed { server, tool, source } => {
                let mut m = concat3("Tool execution failed for '", tool.as_str(), "' on server '");
                push_str(&mut m, server.as_str());
                push_str(&mut m, "': ");
                push_str(&mut m, source.as_str());
                m
            },
            InspectorError::InvalidArguments { tool, message } => {
                let mut m = concat3("Invalid arguments for tool '", tool.as_str(), "': ");
                push_str(&mut m, message.as_str());
                m
            },
            InspectorError::Config(m) => concat2("Configuration error: ", m.as_str()),
            InspectorError::Internal(m) => concat2("Internal error: ", m.as_str()),
            InspectorError::JsonError(m) => concat2(
                "JSON serialization/deserialization error: ",
                m.as_str(),
            ),
            InspectorError::IoError(m) => concat2("IO error: ", m.as_str()),
        }
    }
}

/// The error a tool call that timed out is reported as: a lost connection when
/// the server process is gone, else a failed execution.
pub fn timeout_outcome(server: &str, tool: &str, error: &ToolExecutionError, server_alive: bool) -> (r:
    InspectorError)
    ensures
        !server_alive ==> r is ConnectionFailed && r->ConnectionFailed_server@ == server@
            && r->ConnectionFailed_source@ == user_message_spec(*error),
        server_alive ==> r is ToolExecutionFailed && r->ToolExecutionFailed_server@ == server@
            && r->ToolExecutionFailed_tool@ == tool@ && r->ToolExecutionFailed_source@ == user_message_spec(*error),
{
    if !server_alive {
        InspectorError::ConnectionFailed {
            server: String::from_str(server),
            source: error.user_message(),
        }
    } else {
        InspectorError::ToolExecutionFailed {
            server: String::from_str(server),
            tool: String::from_str(tool),
            source: error.user_message(),
        }
    }
}

// ---------------------------------------------------------------------------
// Error responses
// ---------------------------------------------------------------------------

/// An error as returned to the client, stamped with the time it was made.
pub struct ErrorResponse {
    pub error: ToolExecutionError,
    pub timestamp: String,
    pub request_id: Option<String>,
}

impl ErrorResponse {
    /// An error response stamped with the current time (RFC 3339).
    pub fn new(error: ToolExecutionError) -> (r: ErrorResponse)
        ensures
            r.error == error,
            r.request_id is None,
    {
        ErrorResponse { error, timestamp: crate::time::now_rfc3339(), request_id: None }
    }

    /// The same response carrying the request id `id`.
    pub fn with_request_id(self, id: String) -> (r: ErrorResponse)
        ensures
            r.error == self.error,
            r.timestamp == self.timestamp,
            r.request_id == Some(id),
    {
        let mut s = self;
        s.request_id = Some(id);
        s
    }
}

/// The tool an error is about.
pub open spec fn error_tool(e: ToolExecutionError) -> Seq<char> {
    match e {
        ToolExecutionError::Timeout { tool_name, .. } => tool_name@,
        ToolExecutionError::ServerCrash { tool_name, .. } => tool_name@,
        ToolExecutionError::InvalidResponse { tool_name, .. } => tool_name@,
        ToolExecutionError::CommunicationError { tool_name, .. } => tool_name@,
        ToolExecutionError::ServerError { tool_name, .. } => tool_name@,
        ToolExecutionError::Other { tool_name, .. } => tool_name@,
    }
}

proof fn lemma_contains_middle(a: Seq<char>, n: Seq<char>, b: Seq<char>)
    ensures
        contains_seq(a + n + b, n),
{
    assert((a + n + b).subrange(a.len() as int, (a.len() + n.len()) as int) =~= n);
    assert(occurs_at(a + n + b, n, a.len() as int));
}

proof fn lemma_ends_with(a: Seq<char>, b: Seq<char>)
    ensures
        ends_with_seq(a + b, b),
{
    assert((a + b).subrange((a + b).len() - b.len(), (a + b).len() as int) =~= b);
}

/// What every user message shows: the tool's name in quotes; a suggestion,
/// when there is one, as the last line, and nothing after the main text when
/// there is none; for a timeout, the line saying that the server stopped
/// appended exactly when it is no longer running; for a crash without error
/// output, `(none)` as that output.
pub proof fn lemma_user_message_shape(e: ToolExecutionError)
    ensures
        contains_seq(user_message_spec(e), "'"@ + error_tool(e) + "'"@),
        match e {
            ToolExecutionError::Timeout { tool_name, elapsed_ms, configured_timeout_ms, server_alive, suggestion } => {
                &&& user_message_spec(e) == "Tool '"@ + tool_name@ + "' timed out after "@ + decimal(elapsed_ms as nat)
                    + "ms (configured timeout: "@ + decimal(configured_timeout_ms as nat) + "ms)"@
                    + (if server_alive { Seq::empty() } else { "\nServer process has terminated unexpectedly."@ })
                    + suggestion_text(suggestion)
                &&& (suggestion matches Some(x) ==> ends_with_seq(user_message_spec(e), "\nSuggestion: "@ + x@))
                &&& (!server_alive ==> contains_seq(user_message_spec(e), "\nServer process has terminated unexpectedly."@))
                &&& (server_alive && suggestion is None ==> ends_with_seq(user_message_spec(e), "ms)"@))
            },
            ToolExecutionError::CommunicationError { tool_name, details, suggestion } => {
                &&& user_message_spec(e) == "Communication error while calling tool '"@ + tool_name@ + "': "@ + details@
                    + suggestion_text(suggestion)
                &&& (suggestion matches Some(x) ==> ends_with_seq(user_message_spec(e), "\nSuggestion: "@ + x@))
            },
            ToolExecutionError::ServerCrash { stderr, .. } =>
                stderr@.len() == 0 ==> ends_with_seq(user_message_spec(e), "\nError output: (none)"@),
            _ => true,
        },
{
    reveal_strlit("'");
    let m = user_message_spec(e);
    let q = "'"@ + error_tool(e) + "'"@;
    match e {
        ToolExecutionError::Timeout { tool_name, elapsed_ms, configured_timeout_ms, server_alive, suggestion } => {
            reveal_strlit("Tool '");
            reveal_strlit("' timed out after ");
            reveal_strlit("\nServer process has terminated unexpectedly.");
            reveal_strlit("ms)");
            reveal_strlit("ms (configured timeout: ");
            reveal_strlit("Tool ");
            reveal_strlit(" timed out after ");
            let mid = " timed out after "@ + decimal(elapsed_ms as nat) + "ms (configured timeout: "@
                + decimal(configured_timeout_ms as nat) + "ms)"@;
            let dead = if server_alive { Seq::<char>::empty() } else { "\nServer process has terminated unexpectedly."@ };
            assert(m =~= "Tool "@ + q + (mid + dead + suggestion_text(suggestion)));
            lemma_contains_middle("Tool "@, q, mid + dead + suggestion_text(suggestion));
            if let Some(x) = suggestion {
                reveal_strlit("\nSuggestion: ");
                assert(m =~= ("Tool "@ + q + mid + dead) + ("\nSuggestion: "@ + x@));
                lemma_ends_with("Tool "@ + q + mid + dead, "\nSuggestion: "@ + x@);
            }
            if !server_alive {
                assert(m =~= ("Tool "@ + q + mid) + dead + suggestion_text(suggestion));
                lemma_contains_middle("Tool "@ + q + mid, dead, suggestion_text(suggestion));
            }
            if server_alive && suggestion is None {
                let head = "Tool "@ + q + " timed out after "@ + decimal(elapsed_ms as nat) + "ms (configured timeout: "@
                    + decimal(configured_timeout_ms as nat);
                assert(m =~= head + "ms)"@);
                lemma_ends_with(head, "ms)"@);
            }
        },
        ToolExecutionError::ServerCrash { tool_name, exit_code, stderr, .. } => {
            reveal_strlit("Server crashed while executing tool '");
            reveal_strlit("'\nExit code: ");
            reveal_strlit("\nError output: ");
            reveal_strlit("(none)");
            reveal_strlit("Server crashed while executing tool ");
            reveal_strlit("\nExit code: ");
            reveal_strlit("\nError output: (none)");
            let out = if stderr@.len() == 0 { "(none)"@ } else { stderr@ };
            let rest = "\nExit code: "@ + opt_i32_debug(exit_code) + "\nError output: "@ + out;
            assert(m =~= "Server crashed while executing tool "@ + q + rest);
            lemma_contains_middle("Server crashed while executing tool "@, q, rest);
            if stderr@.len() == 0 {
                let head = "Server crashed while executing tool "@ + q + "\nExit code: "@ + opt_i32_debug(exit_code);
                assert(m =~= head + "\nError output: (none)"@);
                lemma_ends_with(head, "\nError output: (none)"@);
            }
        },
        ToolExecutionError::InvalidResponse { tool_name, parse_error, .. } => {
            reveal_strlit("Tool '");
            reveal_strlit("' returned invalid response: ");
            reveal_strlit("Tool ");
            reveal_strlit(" returned invalid response: ");
            let rest = " returned invalid response: "@ + parse_error@;
            assert(m =~= "Tool "@ + q + rest);
            lemma_contains_middle("Tool "@, q, rest);
        },
        ToolExecutionError::CommunicationError { tool_name, details, suggestion } => {
            reveal_strlit("Communication error while calling tool '");
            reveal_strlit("Communication error while calling tool ");
            reveal_strlit(": ");
            reveal_strlit("': ");
            let rest = ": "@ + details@ + suggestion_text(suggestion);
            assert(m =~= "Communication error while calling tool "@ + q + rest);
            lemma_contains_middle("Communication error while calling tool "@, q, rest);
            if let Some(x) = suggestion {
                reveal_strlit("\nSuggestion: ");
                let head = "Communication error while calling tool "@ + q + ": "@ + details@;
                assert(m =~= head + ("\nSuggestion: "@ + x@));
                lemma_ends_with(head, "\nSuggestion: "@ + x@);
            }
        },
        ToolExecutionError::ServerError { tool_name, error_message, .. } => {
            reveal_strlit("Server error in tool '");
            reveal_strlit("Server error in tool ");
            reveal_strlit(": ");
            reveal_strlit("': ");
            let rest = ": "@ + error_message@;
            assert(m =~= "Server error in tool "@ + q + rest);
            lemma_contains_middle("Server error in tool "@, q, rest);
        },
        ToolExecutionError::Other { tool_name, message } => {
            reveal_strlit("Error in tool '");
            reveal_strlit("Error in tool ");
            reveal_strlit(": ");
            reveal_strlit("': ");
            let rest = ": "@ + message@;
            assert(m =~= "Error in tool "@ + q + rest);
            lemma_contains_middle("Error in tool "@, q, rest);
        },
    }
}

} // verus!
