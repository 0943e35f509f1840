//! The proleptic Gregorian calendar: leap years and month lengths.

use vstd::prelude::*;

use crate::ParseError;

verus! {

/// Proleptic Gregorian leap year rule (RFC 3339, Appendix C).
pub open spec fn spec_is_leap_year(year: int) -> bool {
    year % 4 == 0 && (year % 100 != 0 || year % 400 == 0)
}

/// Number of days in a month (1..=12) of a given year.
pub open spec fn spec_days_in_month(year: int, month: int) -> int {
    if month == 2 {
        if spec_is_leap_year(year) { 29 } else { 28 }
    } else if month == 4 || month == 6 || month == 9 || month == 11 {
        30
    } else {
        31
    }
}

/// A real calendar date: month in 1..=12, day in 1..=days of that month.
pub open spec fn spec_valid_date(year: int, month: int, day: int) -> bool {
    1 <= month <= 12 && 1 <= day <= spec_days_in_month(year, month)
}

/// Proleptic Gregorian leap year function.
pub fn is_leap_year(year: i32) -> (r: bool)
    ensures
        r == spec_is_leap_year(year as int),
{
    let y = year as i64;
    let r4 = y % 4;
    let r100 = y % 100;
    let r400 = y % 400;
    r4 == 0 && (r100 != 0 || r400 == 0)
}

} // verus!

verus! {

/// Number of days in `month` (1..=12) of `year`.
pub fn days_in_month(year: i32, month: u8) -> (r: u8)
    requires
        1 <= month <= 12,
    ensures
        r == spec_days_in_month(year as int, month as int),
        28 <= r <= 31,
{
    if month == 2 {
        if is_leap_year(year) { 29 } else { 28 }
    } else if month == 4 || month == 6 || month == 9 || month == 11 {
        30
    } else {
        31
    }
}

/// Checks that year-month-day names a real day, returning it as a [crate::DateComplete].
pub fn is_valid_complete_date(year: i32, month: u8, day: u8) -> (r: Result<crate::DateComplete, ParseError>)
    ensures
        r is Ok <==> spec_valid_date(year as int, month as int, day as int),
        r is Err ==> r == Err::<crate::DateComplete, ParseError>(ParseError::OutOfRange),
        r matches Ok(d) ==> d.spec_year() == year && d.spec_month() == month && d.spec_day() == day,
{
    if month == 0 || day == 0 || month > 12 || day > 31 {
        return Err(ParseError::OutOfRange);
    }
    let max = days_in_month(year, month);
    if day > max {
        return Err(ParseError::OutOfRange);
    }
    Ok(crate::DateComplete { year, month, day })
}

} // verus!
