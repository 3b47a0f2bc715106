//! When a quota starts anew.

use chrono::Datelike;
use vstd::prelude::*;

verus! {

/// A point in time.
#[derive(Clone, Copy, Debug, PartialEq, Eq, Structural)]
pub struct Instant {
    /// The seconds since the start of 1970 in UTC, leap seconds not counted.
    pub seconds: i64,
    /// The nanoseconds since then; a thousand million and more within a leap
    /// second.
    pub nanos: u32,
}

/// The day on which 1970 starts, where the first day of the year 1 is day 1.
pub const EPOCH_DAY: i64 = 719_163;

/// The pattern of a date that gives no time: year, month and day.
pub const DATE_FORMAT: &'static str = "%Y-%m-%d";

/// Midnight in UTC at the start of a day, which is counted from the first day
/// of the year 1 as day 1.
pub open spec fn midnight(day: int) -> Instant {
    Instant { seconds: ((day - EPOCH_DAY) * 86_400) as i64, nanos: 0 }
}

/// The instant that a text denotes according to RFC 3339, as its seconds and
/// nanoseconds.
pub uninterp spec fn rfc3339_instant(text: Seq<char>) -> Option<(i64, u32)>;

/// The day that a text denotes when it is read by a date format, counted from
/// the first day of the year 1 as day 1.
pub uninterp spec fn calendar_day(text: Seq<char>, format: Seq<char>) -> Option<i32>;

/// The reset time, given what the text denotes as a date with a time, and the
/// day it denotes as a date alone.
pub open spec fn reset_of(exact: Option<(i64, u32)>, day: Option<i32>) -> Option<Instant> {
    match (exact, day) {
        (Some((seconds, nanos)), _) => Some(Instant { seconds, nanos }),
        (None, Some(day)) => Some(midnight(day as int)),
        (None, None) => None,
    }
}

/// Calls `chrono::DateTime::parse_from_rfc3339`, moves the result to UTC by
/// `with_timezone`, and gives it as `timestamp` and `timestamp_subsec_nanos`. The
/// contract claims that the result, or that there is none, follows from the text.
/// Which texts denote an instant, and which one, is left unsaid.
#[verifier::external_body]
fn parse_rfc3339(text: &str) -> (r: Option<(i64, u32)>)
    ensures
        r == rfc3339_instant(text@),
{
    match chrono::DateTime::parse_from_rfc3339(text) {
        Ok(time) => {
            let utc = time.with_timezone(&chrono::Utc);
            Some((utc.timestamp(), utc.timestamp_subsec_nanos()))
        },
        Err(_) => None,
    }
}

/// Calls `chrono::NaiveDate::parse_from_str` and gives the date as its
/// `num_days_from_ce`. The contract claims that the result, or that there is
/// none, follows from the text and the format. Which texts denote a day, and
/// which one, is left unsaid. With other formats, such as one of weeks, the
/// function may overflow on a year that is out of all bounds.
#[verifier::external_body]
fn parse_date(text: &str, format: &str) -> (r: Option<i32>)
    requires
        format@ == DATE_FORMAT@,
    ensures
        r == calendar_day(text@, format@),
{
    match chrono::NaiveDate::parse_from_str(text, format) {
        Ok(date) => Some(date.num_days_from_ce()),
        Err(_) => None,
    }
}

/// The reset time for what a text has been found to denote: a date with a time,
/// or else a date alone, which means midnight in UTC of that date.
pub fn reset_from(exact: Option<(i64, u32)>, day: Option<i32>) -> (r: Option<Instant>)
    ensures
        r == reset_of(exact, day),
{
    match exact {
        Some((seconds, nanos)) => Some(Instant { seconds, nanos }),
        None => match day {
            Some(day) => Some(
                Instant { seconds: (day as i64 - EPOCH_DAY) * 86_400, nanos: 0 },
            ),
            None => None,
        },
    }
}

/// Reads a reset time. GitHub has returned both RFC 3339 times and dates alone.
pub fn parse_reset(text: &str) -> (r: Option<Instant>)
    ensures
        r == reset_of(rfc3339_instant(text@), calendar_day(text@, DATE_FORMAT@)),
{
    reset_from(parse_rfc3339(text), parse_date(text, DATE_FORMAT))
}

} // verus!
