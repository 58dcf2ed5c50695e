//! Instants and the calendar days they fall on.
//!
//! A day bucket is the UTC calendar day of an instant. Two instants share a
//! bucket exactly when the whole number of days since the epoch is the same for
//! both, which is plain integer arithmetic. The written form of a day
//! (`1970-01-01`) is taken from `chrono`.

use vstd::prelude::*;

verus! {

pub const SECONDS_PER_DAY: i64 = 86_400;

/// The number of whole days from the epoch to the second `secs`, rounded
/// toward minus infinity: second `-1` belongs to day `-1`.
pub open spec fn day_of(secs: int) -> int {
    secs / 86_400
}

/// Computes [`day_of`].
pub fn day_index(secs: i64) -> (day: i64)
    ensures
        day == day_of(secs as int),
{
    if secs >= 0 {
        secs / SECONDS_PER_DAY
    } else {
        let below: i64 = -(secs + 1);
        -(below / SECONDS_PER_DAY) - 1
    }
}

/// The written form of the UTC calendar day that second `secs` falls on, as
/// `chrono` renders it, or `None` where `chrono` has no date for it.
pub uninterp spec fn utc_date(secs: i64) -> Option<Seq<char>>;

/// Calls `chrono::DateTime::<Utc>::from_timestamp(secs, 0)`, then `date_naive`
/// and `to_string` on what it returns.
///
/// Not proved: that the text is the same on every call with the same `secs`
/// (it depends on `secs` alone; UTC has no locale and no zone database), so
/// that it can be named [`utc_date`]. Nothing is claimed of which text it is,
/// nor of the seconds for which `chrono` has a date.
#[verifier::external_body]
fn chrono_utc_date(secs: i64) -> (text: Option<String>)
    ensures
        match text {
            Some(s) => utc_date(secs) == Some(s@),
            None => utc_date(secs).is_none(),
        },
{
    match chrono::DateTime::<chrono::Utc>::from_timestamp(secs, 0) {
        Some(instant) => Some(instant.date_naive().to_string()),
        None => None,
    }
}

/// The day bucket of second `secs` in its written form.
pub fn date_text(secs: i64) -> (text: Option<String>)
    ensures
        match text {
            Some(s) => utc_date(secs) == Some(s@),
            None => utc_date(secs).is_none(),
        },
{
    chrono_utc_date(secs)
}

/// An instant on the UTC time line: seconds since the epoch and the
/// nanoseconds into that second.
#[derive(Clone, Copy, Debug, PartialEq, Eq, Structural)]
pub struct UtcTime {
    pub secs: i64,
    pub nanos: u32,
}

impl UtcTime {
    /// The day bucket of this instant.
    pub open spec fn day(self) -> int {
        day_of(self.secs as int)
    }

    pub fn at(secs: i64, nanos: u32) -> (t: UtcTime)
        ensures
            t.secs == secs,
            t.nanos == nanos,
    {
        UtcTime { secs, nanos }
    }

    pub fn day_number(&self) -> (day: i64)
        ensures
            day == self.day(),
    {
        day_index(self.secs)
    }

    /// Whether two instants fall on the same calendar day.
    pub fn same_day(&self, other: &UtcTime) -> (r: bool)
        ensures
            r == (self.day() == other.day()),
    {
        day_index(self.secs) == day_index(other.secs)
    }
}

/// The second exactly one day after another falls on the next day.
pub proof fn next_day_is_another_bucket(secs: int)
    ensures
        day_of(secs + 86_400) == day_of(secs) + 1,
{
}

/// Every second of a day, from its midnight to the last second before the
/// next, has that day as its bucket.
pub proof fn day_covers_its_seconds(day: int, offset: int)
    requires
        0 <= offset < 86_400,
    ensures
        day_of(day * 86_400 + offset) == day,
{
}

} // verus!
