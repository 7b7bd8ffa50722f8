//! Timestamps: whole seconds since the Unix epoch, within the span that a
//! calendar date-time can represent.

use vstd::prelude::*;

verus! {

/// The first second of the earliest representable year.
pub const MIN_TIMESTAMP: i64 = -8_334_601_228_800;

/// The last second of the latest representable year.
pub const MAX_TIMESTAMP: i64 = 8_210_266_876_799;

/// `secs` names a second that a calendar date-time can represent.
pub open spec fn timestamp_in_range(secs: i64) -> bool {
    MIN_TIMESTAMP <= secs <= MAX_TIMESTAMP
}

/// `chrono::DateTime::from_timestamp` with zero nanoseconds, read back with
/// `DateTime::timestamp`: a date-time exists for `secs` exactly when its year lies
/// between -262143 and 262142, and its timestamp is then `secs` again.
#[verifier::external_body]
pub(crate) fn checked_timestamp(secs: i64) -> (t: Option<i64>)
    ensures
        t == (if timestamp_in_range(secs) {
            Some(secs)
        } else {
            None
        }),
{
    match chrono::DateTime::from_timestamp(secs, 0) {
        Some(moment) => Some(moment.timestamp()),
        None => None,
    }
}

/// `chrono::Utc::now`, as whole seconds: whatever the clock says, the moment it
/// returns is a representable date-time. (The call itself gives up on a clock
/// that is set before the epoch.)
#[verifier::external_body]
pub(crate) fn current_timestamp() -> (secs: i64)
    ensures
        timestamp_in_range(secs),
{
    chrono::Utc::now().timestamp()
}

/// Decides whether `secs` is a timestamp that can be stored and shown as a date.
pub fn valid_timestamp(secs: i64) -> (ok: bool)
    ensures
        ok == timestamp_in_range(secs),
{
    checked_timestamp(secs).is_some()
}

/// The current time, in whole seconds since the epoch.
pub fn now() -> (secs: i64)
    ensures
        timestamp_in_range(secs),
{
    current_timestamp()
}

} // verus!
