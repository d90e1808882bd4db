//! Calendar arithmetic: a date and a time of day in UTC as seconds since
//! the epoch, 1970-01-01 00:00:00.

use crate::text;
use vstd::prelude::*;

verus! {

/// The first year that can be converted.
pub const FIRST_YEAR: u16 = 1970;

/// The last year that can be converted.
pub const LAST_YEAR: u16 = 9999;

/// The seconds of a day.
pub const SECONDS_PER_DAY: u64 = 86400;

/// Whether `year` has a 29th of February.
pub open spec fn is_leap_year(year: int) -> bool {
    year % 4 == 0 && (year % 100 != 0 || year % 400 == 0)
}

/// The number of days of `year`.
pub open spec fn days_in_year(year: int) -> int {
    if is_leap_year(year) {
        366
    } else {
        365
    }
}

/// The number of days of month `month` of `year`, January being 1; zero
/// for any other number.
pub open spec fn days_in_month(year: int, month: int) -> int {
    if month == 2 {
        if is_leap_year(year) {
            29
        } else {
            28
        }
    } else if month == 4 || month == 6 || month == 9 || month == 11 {
        30
    } else if 1 <= month <= 12 {
        31
    } else {
        0
    }
}

/// The days of `year` that lie before its month `month`.
pub open spec fn days_before_month(year: int, month: int) -> int
    decreases month,
{
    if month <= 1 {
        0
    } else {
        days_before_month(year, month - 1) + days_in_month(year, month - 1)
    }
}

/// The days from the epoch to the first day of `year`.
pub open spec fn days_before_year(year: int) -> int
    decreases year,
{
    if year <= FIRST_YEAR {
        0
    } else {
        days_before_year(year - 1) + days_in_year(year - 1)
    }
}

/// Whether the numbers name a day of the calendar in a year that can be
/// converted.
pub open spec fn valid_date(year: int, month: int, day: int) -> bool {
    FIRST_YEAR <= year <= LAST_YEAR && 1 <= month <= 12 && 1 <= day <= days_in_month(year, month)
}

/// Whether the numbers name a time of day.
pub open spec fn valid_time(hour: int, minute: int, second: int) -> bool {
    0 <= hour < 24 && 0 <= minute < 60 && 0 <= second < 60
}

/// The seconds from the epoch to the given second of the given day.
pub open spec fn epoch_seconds(
    year: int,
    month: int,
    day: int,
    hour: int,
    minute: int,
    second: int,
) -> int {
    (days_before_year(year) + days_before_month(year, month) + day - 1) * SECONDS_PER_DAY + hour
        * 3600 + minute * 60 + second
}

/// The number of the month that an English three-letter abbreviation
/// names.
pub open spec fn month_number(name: Seq<char>) -> Option<u8> {
    if name == "Jan"@ {
        Some(1u8)
    } else if name == "Feb"@ {
        Some(2u8)
    } else if name == "Mar"@ {
        Some(3u8)
    } else if name == "Apr"@ {
        Some(4u8)
    } else if name == "May"@ {
        Some(5u8)
    } else if name == "Jun"@ {
        Some(6u8)
    } else if name == "Jul"@ {
        Some(7u8)
    } else if name == "Aug"@ {
        Some(8u8)
    } else if name == "Sep"@ {
        Some(9u8)
    } else if name == "Oct"@ {
        Some(10u8)
    } else if name == "Nov"@ {
        Some(11u8)
    } else if name == "Dec"@ {
        Some(12u8)
    } else {
        None
    }
}

/// Whether `year` has a 29th of February.
pub fn leap_year(year: u16) -> (r: bool)
    ensures
        r == is_leap_year(year as int),
{
    year % 4 == 0 && (year % 100 != 0 || year % 400 == 0)
}

/// The number of days of month `month` of `year`; zero where `month` is
/// no month.
pub fn month_length(year: u16, month: u8) -> (r: u8)
    ensures
        r == days_in_month(year as int, month as int),
{
    if month == 2 {
        if leap_year(year) {
            29
        } else {
            28
        }
    } else if month == 4 || month == 6 || month == 9 || month == 11 {
        30
    } else if 1 <= month && month <= 12 {
        31
    } else {
        0
    }
}

/// The number of the month that `name` abbreviates.
pub fn month_from_name(name: &str) -> (r: Option<u8>)
    ensures
        r == month_number(name@),
{
    if text::equal(name, "Jan") {
        Some(1)
    } else if text::equal(name, "Feb") {
        Some(2)
    } else if text::equal(name, "Mar") {
        Some(3)
    } else if text::equal(name, "Apr") {
        Some(4)
    } else if text::equal(name, "May") {
        Some(5)
    } else if text::equal(name, "Jun") {
        Some(6)
    } else if text::equal(name, "Jul") {
        Some(7)
    } else if text::equal(name, "Aug") {
        Some(8)
    } else if text::equal(name, "Sep") {
        Some(9)
    } else if text::equal(name, "Oct") {
        Some(10)
    } else if text::equal(name, "Nov") {
        Some(11)
    } else if text::equal(name, "Dec") {
        Some(12)
    } else {
        None
    }
}

/// The seconds from the epoch to the given second of the given day, in
/// UTC; none where the numbers name no day of a year from 1970 to 9999 or
/// no time of day.
pub fn seconds_since_epoch(year: u16, month: u8, day: u8, hour: u8, minute: u8, second: u8) -> (r:
    Option<u64>)
    ensures
        r is Some == (valid_date(year as int, month as int, day as int) && valid_time(
            hour as int,
            minute as int,
            second as int,
        )),
        r matches Some(at) ==> at == epoch_seconds(
            year as int,
            month as int,
            day as int,
            hour as int,
            minute as int,
            second as int,
        ),
{
    if year < FIRST_YEAR || year > LAST_YEAR || month < 1 || month > 12 || day < 1 || day
        > month_length(year, month) || hour >= 24 || minute >= 60 || second >= 60 {
        return None;
    }
    let mut days: u64 = 0;
    let mut y: u16 = FIRST_YEAR;
    while y < year
        invariant
            FIRST_YEAR <= y <= year <= LAST_YEAR,
            days == days_before_year(y as int),
            days <= 366 * (y - FIRST_YEAR),
        decreases year - y,
    {
        days = days + if leap_year(y) {
            366
        } else {
            365
        };
        y = y + 1;
    }
    let mut m: u8 = 1;
    let ghost year_days = days;
    while m < month
        invariant
            1 <= m <= month <= 12,
            year_days == days_before_year(year as int),
            year_days <= 366 * (LAST_YEAR - FIRST_YEAR),
            days == year_days + days_before_month(year as int, m as int),
            days_before_month(year as int, m as int) <= 31 * (m - 1),
        decreases month - m,
    {
        days = days + month_length(year, m) as u64;
        m = m + 1;
    }
    days = days + (day as u64 - 1);
    let at = days * SECONDS_PER_DAY + hour as u64 * 3600 + minute as u64 * 60 + second as u64;
    Some(at)
}

} // verus!
