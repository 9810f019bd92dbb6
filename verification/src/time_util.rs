//! Clock and time formatting helpers.
//!
//! The current time and the local-time rendering of a timestamp come
//! from the `chrono` crate through trusted wrappers; what can be
//! computed from plain values (the second count, the window bounds)
//! is verified here.

use vstd::prelude::*;
use vstd::string::StringExecFns;

use chrono::TimeZone;

verus! {

/// Relies on `chrono::Utc::now` and `DateTime::timestamp_millis`: the
/// current time in milliseconds since the Unix epoch.  Nothing is
/// promised of the value: it is whatever the system clock reads.
#[verifier::external_body]
fn now_millis() -> u64 {
    chrono::Utc::now().timestamp_millis() as u64
}

/// Relies on `chrono::TimeZone::timestamp_opt`, `DateTime::with_timezone`
/// and `DateTime::format`: renders a second count as a local-time
/// `"%Y-%m-%d %H:%M:%S"` string, or `None` for a second count out of
/// the representable range.  The text depends on the machine's time
/// zone, so nothing is promised of it.
#[verifier::external_body]
fn format_local_timestamp(secs: i64) -> Option<String> {
    match chrono::Utc.timestamp_opt(secs, 0).single() {
        Some(dt) => Some(dt.with_timezone(&chrono::Local).format("%Y-%m-%d %H:%M:%S").to_string()),
        None => None,
    }
}

/// Renders a millisecond timestamp in the machine's local time zone,
/// or a fixed placeholder for a timestamp out of range.  The text
/// depends on the machine's time zone, so no more is specified.
pub fn unix_time_to_jst(unix_time_millis: u64) -> String {
    let secs: u64 = unix_time_millis / 1000;
    match format_local_timestamp(secs as i64) {
        Some(s) => s,
        None => String::from_str("Invalid Timestamp"),
    }
}

/// The time range reaching `hours_back` hours into the past from the
/// current clock reading, clamped at the epoch: the end is now, and
/// the start is exactly the window before it (or zero where the
/// window reaches past the epoch).
pub fn calculate_time_range(hours_back: u64) -> (r: (u64, u64))
    ensures
        r.0 <= r.1,
        ({
            let w = (hours_back as int) * 3600000;
            r.0 as int == if w <= r.1 as int {
                r.1 as int - w
            } else {
                0int
            }
        }),
{
    let end_time = now_millis();
    proof {
        assert((hours_back as int) * 3600000int <= (u64::MAX as int) * 3600000int)
            by (nonlinear_arith)
            requires
                0 <= hours_back as int <= u64::MAX as int,
        ;
    }
    let w: u128 = (hours_back as u128) * 3600000;
    let start_time: u64 = if w <= end_time as u128 {
        end_time - (w as u64)
    } else {
        0
    };
    (start_time, end_time)
}

} // verus!
