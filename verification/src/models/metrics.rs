//! Records of tool executions, for performance metrics.
use vstd::prelude::*;
use crate::text::{concat_num, decimal};
use crate::time::now_millis;

verus! {

/// Outcome of one tool execution.
#[derive(PartialEq, Eq, Structural, Clone, Copy, Debug)]
pub enum MetricStatus {
    Success,
    Error,
}

/// The display text of a status.
pub open spec fn metric_status_text(s: MetricStatus) -> Seq<char> {
    match s {
        MetricStatus::Success => "Success"@,
        MetricStatus::Error => "Error"@,
    }
}

impl MetricStatus {
    /// `Success` or `Error`.
    pub fn to_string(&self) -> (r: String)
        ensures
            r@ == metric_status_text(*self),
    {
        match self {
            MetricStatus::Success => String::from_str("Success"),
            MetricStatus::Error => String::from_str("Error"),
        }
    }
}

/// One tool execution.
pub struct Metrics {
    pub server_name: String,
    pub tool_name: String,
    /// When it was recorded, in milliseconds since the Unix epoch.
    pub timestamp_ms: i64,
    pub response_time_ms: u64,
    pub status: MetricStatus,
    pub cache_hit: bool,
    pub connection_reused: bool,
}

impl Metrics {
    /// A record stamped with the current time.
    pub fn new(
        server_name: String,
        tool_name: String,
        response_time_ms: u64,
        status: MetricStatus,
        cache_hit: bool,
        connection_reused: bool,
    ) -> (r: Metrics)
        ensures
            r.server_name == server_name,
            r.tool_name == tool_name,
            r.response_time_ms == response_time_ms,
            r.status == status,
            r.cache_hit == cache_hit,
            r.connection_reused == connection_reused,
    {
        Metrics {
            server_name,
            tool_name,
            timestamp_ms: now_millis(),
            response_time_ms,
            status,
            cache_hit,
            connection_reused,
        }
    }

    /// Whether the execution succeeded.
    pub fn is_success(&self) -> (r: bool)
        ensures
            r == (self.status == MetricStatus::Success),
    {
        self.status == MetricStatus::Success
    }

    /// Whether the execution failed.
    pub fn is_error(&self) -> (r: bool)
        ensures
            r == (self.status == MetricStatus::Error),
    {
        self.status == MetricStatus::Error
    }
}

/// A period of time that ends now.
#[derive(PartialEq, Eq, Structural, Clone, Copy, Debug)]
pub enum TimeWindow {
    LastHour,
    Last24Hours,
    Last7Days,
    /// The last so many seconds.
    Custom(u64),
}

/// The length of a window in seconds.
pub open spec fn window_secs(w: TimeWindow) -> u64 {
    match w {
        TimeWindow::LastHour => 3600,
        TimeWindow::Last24Hours => 86400,
        TimeWindow::Last7Days => 604800,
        TimeWindow::Custom(secs) => secs,
    }
}

/// The display text of a window.
pub open spec fn window_text(w: TimeWindow) -> Seq<char> {
    match w {
        TimeWindow::LastHour => "Last Hour"@,
        TimeWindow::Last24Hours => "Last 24 Hours"@,
        TimeWindow::Last7Days => "Last 7 Days"@,
        TimeWindow::Custom(secs) => "Last "@ + decimal(secs as nat) + " seconds"@,
    }
}

impl TimeWindow {
    /// The length of the window in seconds.
    pub fn duration_secs(&self) -> (r: u64)
        ensures
            r == window_secs(*self),
    {
        match self {
            TimeWindow::LastHour => 3600,
            TimeWindow::Last24Hours => 86400,
            TimeWindow::Last7Days => 604800,
            TimeWindow::Custom(secs) => *secs,
        }
    }

    /// `Last Hour`, `Last 24 Hours`, `Last 7 Days` or `Last <n> seconds`.
    pub fn to_string(&self) -> (r: String)
        ensures
            r@ == window_text(*self),
    {
        match self {
            TimeWindow::LastHour => String::from_str("Last Hour"),
            TimeWindow::Last24Hours => String::from_str("Last 24 Hours"),
            TimeWindow::Last7Days => String::from_str("Last 7 Days"),
            TimeWindow::Custom(secs) => concat_num("Last ", *secs, " seconds"),
        }
    }
}

} // verus!
