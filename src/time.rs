//! Instants and calendar dates as plain values, and their conversion from text.

use vstd::prelude::*;

verus! {

/// A point in time, as seconds since 1970-01-01T00:00:00Z and the
/// nanoseconds within that second (at least 10^9 only inside a leap second).
#[derive(Clone, Copy, Debug, PartialEq, Eq, PartialOrd, Ord, Hash)]
pub struct Instant {
    pub secs: i64,
    pub nanos: u32,
}

/// A calendar date of the proleptic Gregorian calendar.
#[derive(Clone, Copy, Debug, PartialEq, Eq, PartialOrd, Ord, Hash)]
pub struct Date {
    pub year: i32,
    pub month: u32,
    pub day: u32,
}

impl Instant {
    /// `self` is at or before `other`.
    pub open spec fn spec_at_or_before(self, other: Instant) -> bool {
        self.secs < other.secs || (self.secs == other.secs && self.nanos <= other.nanos)
    }

    pub fn at_or_before(&self, other: &Instant) -> (r: bool)
        ensures
            r == self.spec_at_or_before(*other),
    {
        self.secs < other.secs || (self.secs == other.secs && self.nanos <= other.nanos)
    }
}

/// What an RFC 3339 text denotes, as an instant in UTC (`None` where the text
/// is not RFC 3339).
pub uninterp spec fn rfc3339_instant(s: Seq<char>) -> Option<Instant>;

/// Relies on chrono's `DateTime::parse_from_rfc3339`: the instant that a text
/// denotes depends on the text alone, and an empty text is rejected.
#[verifier::external_body]
fn parse_rfc3339(s: &str) -> (r: Option<Instant>)
    ensures
        r == rfc3339_instant(s@),
        s@.len() == 0 ==> r is None,
{
    match chrono::DateTime::parse_from_rfc3339(s) {
        Ok(t) => Some(Instant { secs: t.timestamp(), nanos: t.timestamp_subsec_nanos() }),
        Err(_) => None,
    }
}

/// Converts an RFC 3339 text to an instant in UTC.
pub fn to_time(time: &str) -> (r: Result<Instant, crate::model::DataError>)
    ensures
        r is Ok <==> rfc3339_instant(time@) is Some,
        r is Ok ==> r->Ok_0 == rfc3339_instant(time@)->0,
        r is Err ==> r->Err_0 is NotFound,
{
    match parse_rfc3339(time) {
        Some(t) => Ok(t),
        None => Err(crate::model::DataError::NotFound(String::from_str("not an RFC 3339 time"))),
    }
}

pub open spec fn is_leap_year(year: int) -> bool {
    (year % 4 == 0 && year % 100 != 0) || year % 400 == 0
}

pub open spec fn days_in_month(year: int, month: int) -> int {
    if month == 2 {
        if is_leap_year(year) { 29 } else { 28 }
    } else if month == 4 || month == 6 || month == 9 || month == 11 {
        30
    } else {
        31
    }
}

/// A wall-clock date and time that exists on the calendar (leap seconds aside).
pub open spec fn is_valid_civil(year: int, month: int, day: int, hour: int, minute: int, second: int) -> bool {
    &&& 1 <= month <= 12
    &&& 1 <= day <= days_in_month(year, month)
    &&& 0 <= hour < 24
    &&& 0 <= minute < 60
    &&& 0 <= second < 60
}

/// Relies on chrono's `TimeZone::with_ymd_and_hms` for the machine's local
/// time zone: no such value for a date or time that does not exist; otherwise
/// what comes back depends on the time zone, and is a whole second.
#[verifier::external_body]
fn local_ymd_hms(year: i32, month: u32, day: u32, hour: u32, minute: u32, second: u32) -> (r: Option<Instant>)
    ensures
        !is_valid_civil(year as int, month as int, day as int, hour as int, minute as int, second as int) ==> r is None,
        r is Some ==> r->0.nanos == 0,
{
    chrono::TimeZone::with_ymd_and_hms(&chrono::Local, year, month, day, hour, minute, second).single().map(
        |t| Instant { secs: t.timestamp(), nanos: t.timestamp_subsec_nanos() },
    )
}

/// The instant of a wall-clock date and time in the machine's local time
/// zone; `None` where that date or time does not exist, or is not unique there.
pub fn make_time(year: i32, month: u32, day: u32, hour: u32, minute: u32, second: u32) -> (r: Option<Instant>)
    ensures
        !is_valid_civil(year as int, month as int, day as int, hour as int, minute as int, second as int) ==> r is None,
        r is Some ==> r->0.nanos == 0,
{
    local_ymd_hms(year, month, day, hour, minute, second)
}

} // verus!
