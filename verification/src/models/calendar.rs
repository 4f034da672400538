//! The civil calendar, as far as month buckets need it.
//!
//! Month boundaries are taken from `chrono`: this module names what `chrono` answers
//! and states the few facts about those answers on which the rest of the crate relies.
//! Nothing in this file is proved; everything else is proved from it.
use chrono::{Datelike, TimeZone, Utc};
use vstd::prelude::*;

verus! {

/// First instant `chrono` can represent: -262143-01-01T00:00:00Z.
pub const CALENDAR_MIN: i64 = -8_334_601_228_800;

/// Last whole second `chrono` can represent: +262142-12-31T23:59:59Z.
pub const CALENDAR_MAX: i64 = 8_210_266_876_799;

/// +262142-12-01T00:00:00Z, the start of the last month of the calendar.  The month
/// that follows it cannot be represented.
pub const LAST_MONTH_START: i64 = 8_210_264_198_400;

/// First year of the calendar.
pub const MIN_YEAR: i32 = -262_143;

/// Last year of the calendar.
pub const MAX_YEAR: i32 = 262_142;

/// Number of seconds in a day.
pub const DAY_SECONDS: i64 = 86_400;

/// The instant lies within the calendar.
pub open spec fn in_calendar(secs: int) -> bool {
    CALENDAR_MIN <= secs <= CALENDAR_MAX
}

/// The instant lies within the calendar and in a month that has a successor there.
pub open spec fn has_next_month(secs: int) -> bool {
    CALENDAR_MIN <= secs < LAST_MONTH_START
}

/// Year of the month that follows `month` of `year`.
pub open spec fn following_year(year: int, month: int) -> int {
    if month == 12 {
        year + 1
    } else {
        year
    }
}

/// Number of the month that follows `month`.
pub open spec fn following_month(month: int) -> int {
    if month == 12 {
        1
    } else {
        month + 1
    }
}

/// Year (proleptic Gregorian, UTC) of the date on which the instant falls.
pub uninterp spec fn civil_year(secs: int) -> int;

/// Month, from 1 to 12, of the date on which the instant falls.
pub uninterp spec fn civil_month(secs: int) -> int;

/// The instant at which day 1 of `month` in `year` begins (00:00:00 UTC).
pub uninterp spec fn month_first_second(year: int, month: int) -> int;

/// `chrono::Datelike::year` of the UTC date-time `secs` seconds after the epoch.
///
/// Trusted: the answer is named `civil_year`; it lies within the calendar's years; the
/// instant is not earlier than the start of its own month; and an instant before the
/// last month of the calendar does not fall in December of the last year and lies
/// before the start of the month that follows its own.
#[verifier::external_body]
pub(crate) fn year_of(secs: i64) -> (year: i32)
    requires
        in_calendar(secs as int),
    ensures
        year == civil_year(secs as int),
        MIN_YEAR <= year <= MAX_YEAR,
        month_first_second(year as int, civil_month(secs as int)) <= secs,
        secs < LAST_MONTH_START ==> year < MAX_YEAR || civil_month(secs as int) < 12,
        secs < LAST_MONTH_START ==> secs < month_first_second(
            following_year(year as int, civil_month(secs as int)),
            following_month(civil_month(secs as int)),
        ),
{
    Utc.timestamp_opt(secs, 0).unwrap().year()
}

/// `chrono::Datelike::month` of the UTC date-time `secs` seconds after the epoch.
///
/// Trusted: the answer is named `civil_month` and lies between 1 and 12.
#[verifier::external_body]
pub(crate) fn month_of(secs: i64) -> (month: u32)
    requires
        in_calendar(secs as int),
    ensures
        month == civil_month(secs as int),
        1 <= month <= 12,
{
    Utc.timestamp_opt(secs, 0).unwrap().month()
}

/// `chrono::TimeZone::with_ymd_and_hms` for day 1 at 00:00:00 UTC, as epoch seconds.
///
/// Trusted: the answer is named `month_first_second`; it lies within the calendar; its
/// own year and month are the ones asked for; and, where the following month is still
/// within the calendar, that month begins 28 to 31 days later.
#[verifier::external_body]
pub(crate) fn first_of_month(year: i32, month: u32) -> (secs: i64)
    requires
        MIN_YEAR <= year <= MAX_YEAR,
        1 <= month <= 12,
    ensures
        secs == month_first_second(year as int, month as int),
        in_calendar(secs as int),
        civil_year(secs as int) == year,
        civil_month(secs as int) == month,
        year < MAX_YEAR || month < 12 ==> 28 * DAY_SECONDS <= month_first_second(
            following_year(year as int, month as int),
            following_month(month as int),
        ) - secs <= 31 * DAY_SECONDS,
{
    Utc.with_ymd_and_hms(year, month, 1, 0, 0, 0).unwrap().timestamp()
}

} // verus!
