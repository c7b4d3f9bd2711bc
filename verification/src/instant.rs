//! Points in time, as seconds and nanoseconds since the start of 1970 in UTC.

use chrono::{DateTime, Utc};
use vstd::prelude::*;

verus! {

/// The first second of the year -262143.
pub const FIRST_SECOND: i64 = -8_334_601_228_800;

/// The last second of the year 262142.
pub const LAST_SECOND: i64 = 8_210_266_876_799;

/// The first second of the year 0.
pub const YEAR_ZERO: i64 = -62_167_219_200;

/// The last second of the year 9999.
pub const YEAR_9999: i64 = 253_402_300_799;

/// The nanoseconds of one second.
pub const SECOND: u32 = 1_000_000_000;

/// A point in time in UTC.
#[derive(Clone, Copy, Debug, PartialEq, Eq, Structural)]
pub struct Timestamp {
    pub secs: i64,
    pub nanos: u32,
}

impl Timestamp {
    /// The points that can be written as a calendar date. A leap second is
    /// counted as a second second at the end of a minute.
    pub open spec fn valid(self) -> bool {
        &&& FIRST_SECOND <= self.secs <= LAST_SECOND
        &&& self.nanos < SECOND || (self.nanos < 2 * SECOND && self.secs % 60 == 59)
    }

    /// A point outside any leap second.
    pub open spec fn ordinary(self) -> bool {
        self.valid() && self.nanos < SECOND
    }

    /// The points whose year is written with four digits.
    pub open spec fn four_digit_year(self) -> bool {
        YEAR_ZERO <= self.secs <= YEAR_9999
    }

    /// This point, a number of seconds later (earlier, where it is negative).
    pub open spec fn shifted(self, secs: int) -> Timestamp {
        Timestamp { secs: (self.secs + secs) as i64, nanos: self.nanos }
    }

    /// Whether `shifted` stays among the points that can be written.
    pub open spec fn can_shift(self, secs: int) -> bool {
        FIRST_SECOND <= self.secs + secs <= LAST_SECOND
    }
}

/// What `DateTime::to_rfc3339` of chrono writes for a point in UTC.
pub uninterp spec fn rfc3339_text(t: Timestamp) -> Seq<char>;

/// What `DateTime::parse_from_rfc3339` of chrono reads from a text, in UTC.
pub uninterp spec fn rfc3339_instant(text: Seq<char>) -> Option<Timestamp>;

/// `Utc::now` of chrono: the system's clock. It gives some point outside any
/// leap second; which one is not stated. Like the clock of chrono it is not
/// made for a system whose time lies before 1970.
#[verifier::external_body]
pub(crate) fn utc_now() -> (r: Timestamp)
    ensures
        r.ordinary(),
{
    let now = Utc::now();
    Timestamp { secs: now.timestamp(), nanos: now.timestamp_subsec_nanos() }
}

/// `DateTime::parse_from_rfc3339` of chrono, taken to UTC. What it reads is a
/// function of the text, and is a valid point.
#[verifier::external_body]
pub(crate) fn parse_rfc3339(text: &str) -> (r: Option<Timestamp>)
    ensures
        r == rfc3339_instant(text@),
        r matches Some(t) ==> t.valid(),
{
    match DateTime::parse_from_rfc3339(text) {
        Ok(t) => Some(Timestamp { secs: t.timestamp(), nanos: t.timestamp_subsec_nanos() }),
        Err(_) => None,
    }
}

/// `DateTime::to_rfc3339` of chrono. What it writes is a function of the
/// point; where the year has four digits, reading it gives the point back, to
/// the nanosecond.
#[verifier::external_body]
pub(crate) fn to_rfc3339(t: Timestamp) -> (r: String)
    requires
        t.valid(),
    ensures
        r@ == rfc3339_text(t),
        t.four_digit_year() ==> rfc3339_instant(r@) == Some(t),
{
    DateTime::<Utc>::from_timestamp(t.secs, t.nanos).unwrap().to_rfc3339()
}

/// `DateTime + Duration::seconds` of chrono: outside leap seconds the seconds
/// are added and the nanoseconds stay.
#[verifier::external_body]
pub(crate) fn after_seconds(t: Timestamp, secs: i64) -> (r: Timestamp)
    requires
        t.ordinary(),
        t.can_shift(secs as int),
    ensures
        r == t.shifted(secs as int),
{
    let at = DateTime::<Utc>::from_timestamp(t.secs, t.nanos).unwrap()
        + chrono::Duration::seconds(secs);
    Timestamp { secs: at.timestamp(), nanos: at.timestamp_subsec_nanos() }
}

} // verus!
