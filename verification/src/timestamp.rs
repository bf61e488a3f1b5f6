//! Instants as the library reads them: plain values taken from a
//! `time::OffsetDateTime` once, when it enters the library.

use vstd::prelude::*;

verus! {

#[verifier::external_type_specification]
#[verifier::external_body]
pub struct ExOffsetDateTime(time::OffsetDateTime);

/// `Clone for OffsetDateTime`: the type is `Copy`, so a clone is the same
/// instant.
pub assume_specification[ <time::OffsetDateTime as Clone>::clone ](t: &time::OffsetDateTime) -> (r: time::OffsetDateTime)
    ensures
        r == *t,
;

/// `OffsetDateTime::year`: the calendar year in the stored offset.
pub assume_specification[ time::OffsetDateTime::year ](t: time::OffsetDateTime) -> i32;

/// `OffsetDateTime::day`: the day of the month in the stored offset,
/// always in `1..=31`.
pub assume_specification[ time::OffsetDateTime::day ](t: time::OffsetDateTime) -> (d: u8)
    ensures
        1 <= d <= 31,
;

/// `OffsetDateTime::hour`: the clock hour in the stored offset, always in
/// `0..24`.
pub assume_specification[ time::OffsetDateTime::hour ](t: time::OffsetDateTime) -> (h: u8)
    ensures
        h < 24,
;

/// `OffsetDateTime::minute`: the minute within the hour, always in `0..60`.
pub assume_specification[ time::OffsetDateTime::minute ](t: time::OffsetDateTime) -> (m: u8)
    ensures
        m < 60,
;

/// `OffsetDateTime::second`: the second within the minute, always in
/// `0..60`.
pub assume_specification[ time::OffsetDateTime::second ](t: time::OffsetDateTime) -> (s: u8)
    ensures
        s < 60,
;

/// `OffsetDateTime::unix_timestamp`: the instant's whole seconds since the
/// Unix epoch.
pub assume_specification[ time::OffsetDateTime::unix_timestamp ](t: time::OffsetDateTime) -> i64;

/// `OffsetDateTime::month` read as its number through `From<Month> for u8`
/// (January is 1).
#[verifier::external_body]
fn month_number(t: time::OffsetDateTime) -> (m: u8)
    ensures
        1 <= m <= 12,
{
    u8::from(t.month())
}

/// An instant as plain values: its whole seconds since the Unix epoch, and
/// its calendar date and clock time in its own UTC offset.
#[derive(Clone, Copy, Debug, PartialEq, Eq, Structural)]
pub struct Timestamp {
    pub unix_seconds: i64,
    pub year: i32,
    pub month: u8,
    pub day: u8,
    pub hour: u8,
    pub minute: u8,
    pub second: u8,
}

impl Timestamp {
    /// The calendar and clock parts are in range.
    pub open spec fn wf(&self) -> bool {
        &&& 1 <= self.month <= 12
        &&& 1 <= self.day <= 31
        &&& self.hour < 24
        &&& self.minute < 60
        &&& self.second < 60
    }

    /// The plain values of a `time::OffsetDateTime`, read through its
    /// accessors.
    pub fn of(t: time::OffsetDateTime) -> (r: Timestamp)
        ensures
            r.wf(),
    {
        Timestamp {
            unix_seconds: t.unix_timestamp(),
            year: t.year(),
            month: month_number(t),
            day: t.day(),
            hour: t.hour(),
            minute: t.minute(),
            second: t.second(),
        }
    }
}

} // verus!
