//! The rules of the calendar, stated over mathematical integers.
//!
//! Everything here is specification: the executable functions of
//! [`crate::date`] are proved to compute exactly these values.
use vstd::prelude::*;

verus! {

/// The year of the Gregorian reform. From this year on the Gregorian leap
/// rule holds; the year itself is ten days short.
pub const GREGORIAN_YEAR: i32 = 1582;

/// Days in each month of a common year, January first.
pub const MONTH_DAYS: [u8; 12] = [31, 28, 31, 30, 31, 30, 31, 31, 30, 31, 30, 31];

/// Days of a common year that precede each month, January first.
pub const RUNNING_DAYS_PER_MONTH: [u32; 12] = [0, 31, 59, 90, 120, 151, 181, 212, 243, 273, 304, 334];

/// A date as three mathematical integers, valid or not.
pub struct Ymd {
    pub year: int,
    pub month: int,
    pub day: int,
}

/// Why a date is not a date of the calendar.
#[derive(Debug, Clone, Copy, PartialEq, Eq, Structural)]
pub enum DateError {
    /// The year is 0.
    YearZero,
    /// The month is not one of 1 to 12.
    InvalidMonth,
    /// The date is one of the days that the reform of October 1582 dropped.
    NonexistentDate,
    /// The day is not a day of its month in its year.
    InvalidDay,
}

/// A year's place on the continuous line of years. The calendar has no year
/// zero, so every year before year 1 moves up by one: year -1 stands at 0.
pub open spec fn continuous_year(year: int) -> int {
    if year < 0 {
        year + 1
    } else {
        year
    }
}

/// Whether `year` has a 29th of February: every fourth year on the continuous
/// line before 1582 (the Julian rule, with no exception for centuries), and
/// from 1582 on every fourth year except the centuries that 400 does not
/// divide.
pub open spec fn is_leap_year(year: int) -> bool {
    let y = continuous_year(year);
    if y < GREGORIAN_YEAR {
        y % 4 == 0
    } else {
        y % 400 == 0 || (y % 4 == 0 && y % 100 != 0)
    }
}

/// The number of days of `year`: 355 in the year of the reform, otherwise 365
/// or 366. Year 0 does not exist and is given no days.
pub open spec fn year_length(year: int) -> int {
    if year == 0 {
        0
    } else if year == GREGORIAN_YEAR {
        355
    } else if is_leap_year(year) {
        366
    } else {
        365
    }
}

/// The highest day number of `month` in `year`, for a month from 1 to 12.
pub open spec fn month_length(month: int, year: int) -> int {
    if month == 2 && is_leap_year(year) {
        MONTH_DAYS[month - 1] + 1
    } else {
        MONTH_DAYS[month - 1] as int
    }
}

/// Whether the date is one of the ten days that the reform dropped: the 5th
/// to the 14th of October 1582. The 4th was followed by the 15th.
pub open spec fn in_reform_gap(d: Ymd) -> bool {
    d.year == GREGORIAN_YEAR && d.month == 10 && 4 < d.day < 15
}

/// The verdict on a date. The checks come in this order, and the first that
/// fails names the error.
pub open spec fn validate(d: Ymd) -> Result<(), DateError> {
    if d.year == 0 {
        Err(DateError::YearZero)
    } else if !(1 <= d.month <= 12) {
        Err(DateError::InvalidMonth)
    } else if in_reform_gap(d) {
        Err(DateError::NonexistentDate)
    } else if !(1 <= d.day <= month_length(d.month, d.year)) {
        Err(DateError::InvalidDay)
    } else {
        Ok(())
    }
}

/// Whether the date passes every check of [`validate`].
pub open spec fn is_valid_date(d: Ymd) -> bool {
    validate(d) is Ok
}

/// The number of days of `year` that precede the first of `month`, for a
/// month from 1 to 12: the days of the earlier months of a common year, one
/// more after February in a leap year, and ten fewer after October 1582,
/// the month that lost ten days.
pub open spec fn days_before_month(month: int, year: int) -> int {
    RUNNING_DAYS_PER_MONTH[month - 1] + (if month > 2 && is_leap_year(year) {
        1int
    } else {
        0int
    }) - (if year == GREGORIAN_YEAR && month > 10 {
        10int
    } else {
        0int
    })
}

/// The place of a date within its year, counted from 1: the days before its
/// month and the day of the month, less the ten dropped days for a day of
/// October 1582 that comes after them. The ten days are so taken off once
/// from every date of 1582 after the gap, and from no other: the 4th of
/// October 1582 is day 277 and the 15th is day 278.
pub open spec fn day_number(d: Ymd) -> int {
    days_before_month(d.month, d.year) + d.day - (if d.year == GREGORIAN_YEAR && d.month == 10
        && d.day > 14 {
        10int
    } else {
        0int
    })
}

/// Whether `a` comes before `b`: in an earlier year, or in the same year in
/// an earlier month, or in the same month on an earlier day.
pub open spec fn precedes(a: Ymd, b: Ymd) -> bool {
    a.year < b.year || (a.year == b.year && (a.month < b.month || (a.month == b.month && a.day
        < b.day)))
}

/// The days of the years from `from` up to, and without, `to`; 0 where `to`
/// is not after `from`.
pub open spec fn days_in_years(from: int, to: int) -> int
    decreases to - from,
{
    if to <= from {
        0
    } else {
        days_in_years(from, to - 1) + year_length(to - 1)
    }
}

/// The days from `a` to `b`: the days of the years from the earlier year up
/// to the later, without the later, taken as negative where `a` lies in the
/// later year, less `a`'s place in its year, plus `b`'s. For valid dates
/// this is positive exactly where `b` is the later date.
pub open spec fn signed_days(a: Ymd, b: Ymd) -> int {
    if a.year > b.year {
        -days_in_years(b.year, a.year) - day_number(a) + day_number(b)
    } else {
        days_in_years(a.year, b.year) - day_number(a) + day_number(b)
    }
}

/// The days from `first` to `last`, or the error of the first of the two that
/// is not valid.
pub open spec fn days_between(first: Ymd, last: Ymd) -> Result<int, DateError> {
    match validate(first) {
        Err(e) => Err(e),
        Ok(_) => match validate(last) {
            Err(e) => Err(e),
            Ok(_) => Ok(signed_days(first, last)),
        },
    }
}

} // verus!
