//! Points in time.

use vstd::prelude::*;

verus! {

/// A point in time: the seconds since the start of 1970 in UTC, and the
/// nanoseconds since the last whole second.
#[derive(Debug, Clone, Copy, PartialEq, Eq, Structural)]
pub struct Timestamp {
    pub seconds: i64,
    pub nanos: u32,
}

/// Whether the calendar reaches that second: it runs from the first second of
/// the year -262143 to the last one of the year 262142.
pub open spec fn in_calendar(seconds: i64) -> bool {
    -8_334_601_228_800 <= seconds <= 8_210_266_876_799
}

/// Whether that many nanoseconds can follow the second: less than a second,
/// or less than two in a second that a leap second can follow.
pub open spec fn nanos_fit(seconds: i64, nanos: u32) -> bool {
    nanos < 1_000_000_000 || (nanos < 2_000_000_000 && seconds as int % 60 == 59)
}

/// Calls `chrono::DateTime::from_timestamp`, which gives the point in time for
/// a number of seconds and nanoseconds, or nothing where the seconds lie
/// outside its calendar or the nanoseconds do not fit. The point in time is
/// taken apart again with `timestamp` and `timestamp_subsec_nanos`, which give
/// back the two numbers.
#[verifier::external_body]
pub(crate) fn time_from_timestamp(seconds: i64, nanos: u32) -> (r: Option<Timestamp>)
    ensures
        r == (if in_calendar(seconds) && nanos_fit(seconds, nanos) {
            Some(Timestamp { seconds, nanos })
        } else {
            None
        }),
{
    chrono::DateTime::from_timestamp(seconds, nanos).map(
        |t| Timestamp { seconds: t.timestamp(), nanos: t.timestamp_subsec_nanos() },
    )
}

/// Whether a clock can show that time: the calendar reaches it, and no leap
/// second is counted.
pub open spec fn on_a_clock(time: Timestamp) -> bool {
    in_calendar(time.seconds) && time.nanos < 1_000_000_000
}

/// Calls `chrono::Utc::now`, which reads the machine's clock and makes a point
/// in time of the seconds and the nanoseconds that it shows. All that is
/// claimed of them is that they make one: the calendar reaches the seconds, and
/// the nanoseconds are less than a second. The call aborts with a panic where
/// the clock is set to a time before 1970 or beyond the calendar.
#[verifier::external_body]
pub(crate) fn current_time() -> (r: Timestamp)
    ensures
        on_a_clock(r),
{
    let t = chrono::Utc::now();
    Timestamp { seconds: t.timestamp(), nanos: t.timestamp_subsec_nanos() }
}

} // verus!
