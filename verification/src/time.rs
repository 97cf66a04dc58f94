//! The current time, read from the system clock through chrono.
use vstd::prelude::*;

verus! {

/// `chrono::Utc::now().to_rfc3339()`: the current UTC time as RFC 3339 text.
/// Nothing is promised of it: it depends on the clock.
#[verifier::external_body]
pub fn now_rfc3339() -> (s: String) {
    chrono::Utc::now().to_rfc3339()
}

/// `chrono::Utc::now().timestamp_millis()`: milliseconds since the Unix epoch.
/// Nothing is promised of it: it depends on the clock.
#[verifier::external_body]
pub fn now_millis() -> (t: i64) {
    chrono::Utc::now().timestamp_millis()
}

} // verus!
