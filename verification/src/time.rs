//! Instants and the service-day calendar.
//!
//! An instant is a count of non-leap seconds since the Unix epoch. The
//! facility's "service day" runs a fixed offset behind UTC so that the
//! dinner window does not straddle a UTC midnight. Weekday and time of
//! day are plain arithmetic on the instant; the calendar date (year,
//! month, day) comes from the calendar backend behind a trusted wrapper.
use chrono::{Datelike, Timelike};
use vstd::prelude::*;

verus! {

/// Seconds by which the facility's service day lags UTC (four hours).
pub const SERVICE_OFFSET_SECONDS: i64 = 4 * 60 * 60;

/// Least instant the library accepts; comfortably inside the range the
/// calendar backend can represent, even after the service-day shift.
pub const MIN_INSTANT: i64 = -8_000_000_000_000;

/// Greatest instant the library accepts.
pub const MAX_INSTANT: i64 = 8_000_000_000_000;

/// Calendar year of the UTC instant `t`.
pub uninterp spec fn year_of(t: int) -> int;

/// Calendar month (1 = January .. 12 = December) of the UTC instant `t`.
pub uninterp spec fn month_of(t: int) -> int;

/// Day of month (starting from 1) of the UTC instant `t`.
pub uninterp spec fn day_of(t: int) -> int;

/// Days since the epoch of the UTC instant `t` (floor for negative `t`).
pub open spec fn days_of(t: int) -> int {
    t / 86400
}

/// Weekday of the UTC instant `t`, counted with Monday = 0 .. Sunday = 6.
/// Day zero, 1970-01-01, was a Thursday, hence the offset of 3.
pub open spec fn weekday_of(t: int) -> int {
    (days_of(t) + 3) % 7
}

/// Seconds since midnight of the UTC instant `t`.
pub open spec fn secs_of_day(t: int) -> int {
    t % 86400
}

/// Hour of day (0..=23) of the UTC instant `t`.
pub open spec fn hour_of(t: int) -> int {
    secs_of_day(t) / 3600
}

/// Minute within the hour (0..=59) of the UTC instant `t`.
pub open spec fn minute_of(t: int) -> int {
    (secs_of_day(t) / 60) % 60
}

/// Minutes since midnight of the UTC instant `t`.
pub open spec fn minute_of_day_of(t: int) -> int {
    hour_of(t) * 60 + minute_of(t)
}

/// One instant broken down into the calendar pieces the service reads:
/// date, weekday and time of day.
pub struct CivilInstant {
    pub year: i32,
    pub month: u32,
    pub day: u32,
    /// Monday = 0 .. Sunday = 6.
    pub weekday: u32,
    pub hour: u32,
    pub minute: u32,
}

impl CivilInstant {
    pub open spec fn wf(self) -> bool {
        &&& 1 <= self.month <= 12
        &&& 1 <= self.day <= 31
        &&& self.weekday <= 6
        &&& self.hour <= 23
        &&& self.minute <= 59
    }

    /// This breakdown is the one of the UTC instant `t`.
    pub open spec fn describes(self, t: int) -> bool {
        &&& self.year == year_of(t)
        &&& self.month == month_of(t)
        &&& self.day == day_of(t)
        &&& self.weekday == weekday_of(t)
        &&& self.hour == hour_of(t)
        &&& self.minute == minute_of(t)
    }
}

/// Relies on chrono's `DateTime::<Utc>::from_timestamp` together with the
/// `Datelike` and `Timelike` accessors and `Weekday::num_days_from_monday`:
/// for an in-range number of seconds it yields the proleptic-Gregorian
/// date, the weekday counted from Monday, and the time of day of that UTC
/// instant; it yields `None` only for instants outside the calendar's
/// representable span of roughly 262,000 years around the epoch.
#[verifier::external_body]
fn civil_utc(t: i64) -> (r: Option<CivilInstant>)
    ensures
        r matches Some(c) ==> c.wf() && c.year == year_of(t as int) && c.month == month_of(
            t as int,
        ) && c.day == day_of(t as int) && c.weekday == weekday_of(t as int) && c.hour == hour_of(
            t as int,
        ) && c.minute == minute_of(t as int),
        -8_200_000_000_000 <= t <= 8_200_000_000_000 ==> r is Some,
{
    match chrono::DateTime::<chrono::Utc>::from_timestamp(t, 0) {
        None => None,
        Some(dt) => Some(CivilInstant {
            year: dt.year(),
            month: dt.month(),
            day: dt.day(),
            weekday: dt.weekday().num_days_from_monday(),
            hour: dt.hour(),
            minute: dt.minute(),
        }),
    }
}

/// Relies on chrono's `Utc::now` and `DateTime::timestamp`: the current
/// instant, read from the system clock. `Utc::now` panics rather than
/// return a time before the epoch or outside the calendar's range, so a
/// returned value is nonnegative and below the calendar's greatest
/// representable timestamp.
#[verifier::external_body]
pub(crate) fn now_unix() -> (t: i64)
    ensures
        0 <= t <= 8_250_000_000_000,
{
    chrono::Utc::now().timestamp()
}

/// The calendar breakdown of the service day at instant `t`: the shift by
/// the facility offset, then the calendar.
pub fn service_civil(t: i64) -> (c: CivilInstant)
    requires
        MIN_INSTANT <= t <= MAX_INSTANT,
    ensures
        c.wf(),
        c.describes(t - SERVICE_OFFSET_SECONDS),
{
    let shifted = t - SERVICE_OFFSET_SECONDS;
    match civil_utc(shifted) {
        Some(c) => c,
        None => vstd::pervasive::unreached(),
    }
}

} // verus!
