//! The current time, read through `chrono`.
use vstd::prelude::*;

verus! {

/// `chrono::Utc::now().to_rfc3339()`: the current UTC time as RFC 3339 text.
/// It depends on the clock, so nothing is stated of it.
#[verifier::external_body]
pub(crate) fn now_rfc3339() -> String {
    chrono::Utc::now().to_rfc3339()
}

/// `chrono::Utc::now().timestamp_millis()`: milliseconds since the Unix epoch.
/// It depends on the clock, so nothing is stated of it.
#[verifier::external_body]
pub(crate) fn now_millis() -> i64 {
    chrono::Utc::now().timestamp_millis()
}

/// `chrono::Utc::now().format("%Y-%m-%d")`: today's UTC date.  It depends on the
/// clock, so nothing is stated of it.
#[verifier::external_body]
pub(crate) fn today_ymd() -> String {
    chrono::Utc::now().format("%Y-%m-%d").to_string()
}

} // verus!
