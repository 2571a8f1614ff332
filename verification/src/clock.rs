//! Instants as Unix timestamps (whole seconds plus nanoseconds), within the
//! range of dates (years -9999 to 9999) that the `time` crate represents.

use vstd::prelude::*;

verus! {

/// The Unix timestamp of -9999-01-01 00:00:00 UTC, the earliest instant of
/// an `OffsetDateTime`.
pub const MIN_TIMESTAMP: i64 = -377705116800;

/// The Unix timestamp of 9999-12-31 23:59:59 UTC, the last whole second of
/// an `OffsetDateTime`.
pub const MAX_TIMESTAMP: i64 = 253402300799;

/// Whether a Unix timestamp in whole seconds lies in the range of an
/// `OffsetDateTime`.
pub open spec fn in_time_range(t: int) -> bool {
    MIN_TIMESTAMP <= t <= MAX_TIMESTAMP
}

/// Whether a Unix timestamp in whole seconds lies in the range of dates.
pub fn in_range_seconds(t: i64) -> (r: bool)
    ensures
        r == in_time_range(t as int),
{
    MIN_TIMESTAMP <= t && t <= MAX_TIMESTAMP
}

/// An instant: the whole seconds of its Unix timestamp (rounded down) and
/// the nanoseconds past that second.
#[derive(Debug, Clone, Copy, PartialEq, Eq, Structural)]
pub struct Timestamp {
    pub seconds: i64,
    pub nanosecond: u32,
}

/// Whether an instant is one that an `OffsetDateTime` can hold.
pub open spec fn is_valid_timestamp(t: Timestamp) -> bool {
    in_time_range(t.seconds as int) && t.nanosecond < 1_000_000_000
}

/// The instant `seconds` after `t`, where it lies in the range of dates.
pub open spec fn later_by(t: Timestamp, seconds: int) -> Timestamp {
    Timestamp { seconds: (t.seconds + seconds) as i64, nanosecond: t.nanosecond }
}

/// The current time.
///
/// Trusted: `time::OffsetDateTime::now_utc` reads the system clock; an
/// `OffsetDateTime` always lies in the range of dates the crate represents,
/// and its `nanosecond` is below 10^9. Nothing else is claimed of the value.
#[verifier::external_body]
pub fn now_timestamp() -> (t: Timestamp)
    ensures
        is_valid_timestamp(t),
{
    let now = time::OffsetDateTime::now_utc();
    Timestamp { seconds: now.unix_timestamp(), nanosecond: now.nanosecond() }
}

/// The instant `seconds` after `t`, as adding a `time::Duration` of that
/// many seconds to an `OffsetDateTime` gives it: the same nanoseconds, and
/// `None` when the result falls outside the range that `time` represents
/// (where `+` panics).
pub fn add_seconds(t: Timestamp, seconds: i64) -> (r: Option<Timestamp>)
    ensures
        r matches Some(u) ==> u == later_by(t, seconds as int) && in_time_range(t.seconds + seconds),
        r is None ==> !in_time_range(t.seconds + seconds),
{
    match t.seconds.checked_add(seconds) {
        Some(s) => {
            if MIN_TIMESTAMP <= s && s <= MAX_TIMESTAMP {
                Some(Timestamp { seconds: s, nanosecond: t.nanosecond })
            } else {
                None
            }
        },
        None => None,
    }
}

} // verus!
