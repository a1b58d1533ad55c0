//! What chrono tells of a date: its weekday and its ISO 8601 week number.
//! Nothing in this file is proved; the contracts record what chrono's
//! documentation and source say.

use crate::calendar::Ymd;
use chrono::{Datelike, NaiveDate};
use vstd::prelude::*;

verus! {

/// The first year of chrono's `NaiveDate`.
pub const MIN_YEAR: i32 = -262_143;

/// The last year of chrono's `NaiveDate`.
pub const MAX_YEAR: i32 = 262_142;

/// The date exists and chrono's `NaiveDate` can hold it.
pub open spec fn in_naive_date_range(year: int, month: int, day: int) -> bool {
    (Ymd { year, month, day }).is_date() && MIN_YEAR <= year <= MAX_YEAR
}

/// The weekday of a date as chrono counts it: 0 for Monday to 6 for Sunday.
pub uninterp spec fn weekday_from_monday(year: int, month: int, day: int) -> int;

/// The ISO 8601 week number of a date as chrono computes it.
pub uninterp spec fn iso_week_number(year: int, month: int, day: int) -> int;

/// Calls `NaiveDate::from_ymd_opt`, then `Datelike::weekday` and
/// `Weekday::num_days_from_monday`. Assumed: chrono makes a `NaiveDate` of a
/// date if and only if the date exists in the years `MIN_YEAR` to `MAX_YEAR`;
/// the weekday depends on the date alone, and its number lies in 0 to 6.
#[verifier::external_body]
pub(crate) fn weekday_of(year: i32, month: u32, day: u32) -> (weekday: Option<u32>)
    ensures
        weekday is Some <==> in_naive_date_range(year as int, month as int, day as int),
        weekday matches Some(w) ==> w <= 6 && w == weekday_from_monday(
            year as int,
            month as int,
            day as int,
        ),
{
    match NaiveDate::from_ymd_opt(year, month, day) {
        Some(date) => Some(date.weekday().num_days_from_monday()),
        None => None,
    }
}

/// Calls `NaiveDate::from_ymd_opt`, then `Datelike::iso_week` and
/// `IsoWeek::week`. Assumed: chrono makes a `NaiveDate` of a date if and only
/// if the date exists in the years `MIN_YEAR` to `MAX_YEAR`; the week number
/// depends on the date alone, and it lies in 1 to 53 as `IsoWeek::week`
/// documents.
#[verifier::external_body]
pub(crate) fn iso_week_of(year: i32, month: u32, day: u32) -> (week: Option<u32>)
    ensures
        week is Some <==> in_naive_date_range(year as int, month as int, day as int),
        week matches Some(w) ==> 1 <= w <= 53 && w == iso_week_number(
            year as int,
            month as int,
            day as int,
        ),
{
    match NaiveDate::from_ymd_opt(year, month, day) {
        Some(date) => Some(date.iso_week().week()),
        None => None,
    }
}

} // verus!
