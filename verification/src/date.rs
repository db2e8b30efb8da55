//! The date type and its queries.
use vstd::prelude::*;
use vstd::string::StringExecFns;
use crate::calendar::{
    day_number, days_before_month, days_between, days_in_years, is_leap_year, is_valid_date,
    validate, year_length, DateError, Ymd, GREGORIAN_YEAR, MONTH_DAYS, RUNNING_DAYS_PER_MONTH,
};
use crate::text::{date_text, month_name_str, push_decimal};

verus! {

/// A year, a month and a day as given. Nothing is checked when one is made:
/// [`Date::is_valid`] tells whether it is a date of the calendar.
#[derive(Debug, Clone, Copy, PartialEq, Eq, Structural)]
pub struct Date {
    year: i32,
    month: u8,
    day: u8,
}

impl View for Date {
    type V = Ymd;

    closed spec fn view(&self) -> Ymd {
        Ymd { year: self.year as int, month: self.month as int, day: self.day as int }
    }
}

impl Date {
    /// A date of the given year, month and day. A negative year is a year
    /// BC. The three are taken as they come.
    pub fn new(year: i32, month: u8, day: u8) -> (date: Date)
        ensures
            date@ == (Ymd { year: year as int, month: month as int, day: day as int }),
    {
        Date { year, month, day }
    }

    /// The year as given: negative before year 1.
    pub fn year(&self) -> (year: i32)
        ensures
            year == self@.year,
    {
        self.year
    }

    /// The month as given.
    pub fn month(&self) -> (month: u8)
        ensures
            month == self@.month,
    {
        self.month
    }

    /// The day of the month as given.
    pub fn day(&self) -> (day: u8)
        ensures
            day == self@.day,
    {
        self.day
    }

    /// Checks the date against the calendar: `Ok` for a date that exists,
    /// otherwise the first error in the order year, month, reform gap, day.
    pub fn is_valid(&self) -> (verdict: Result<(), DateError>)
        ensures
            verdict == validate(self@),
            self@.year == 0 ==> verdict == Err::<(), DateError>(DateError::YearZero),
    {
        if self.year == 0 {
            return Err(DateError::YearZero);
        }
        if self.month < 1 || self.month > 12 {
            return Err(DateError::InvalidMonth);
        }
        if self.year == GREGORIAN_YEAR && self.month == 10 && self.day > 4 && self.day < 15 {
            return Err(DateError::NonexistentDate);
        }
        let mut last: u8 = MONTH_DAYS[(self.month - 1) as usize];
        if self.month == 2 && Date::is_leap(self.year) {
            last += 1;
        }
        if self.day > 0 && self.day <= last {
            Ok(())
        } else {
            Err(DateError::InvalidDay)
        }
    }

    /// Tells whether `year` is a leap year.
    pub fn is_leap(year: i32) -> (leap: bool)
        ensures
            leap == is_leap_year(year as int),
    {
        let mut y: i32 = year;
        if y < 0 {
            y += 1;
        }
        if y < GREGORIAN_YEAR {
            return y % 4 == 0;
        }
        y % 400 == 0 || (y % 4 == 0 && y % 100 != 0)
    }

    /// The number of days of `year`: 355 for 1582, 0 for the year 0 that
    /// does not exist, otherwise 365 or 366.
    pub fn year_days(year: i32) -> (days: i32)
        ensures
            days == year_length(year as int),
    {
        if year == 0 {
            return 0;
        }
        if year == GREGORIAN_YEAR {
            return 355;
        }
        if Date::is_leap(year) {
            366
        } else {
            365
        }
    }

    /// The number of days of `year` that precede the first of `month`, with
    /// the leap day counted after February and the ten dropped days taken
    /// off after October 1582.
    pub fn month_days(month: u8, year: i32) -> (days: u32)
        requires
            1 <= month <= 12,
        ensures
            days == days_before_month(month as int, year as int),
    {
        let mut days: u32 = RUNNING_DAYS_PER_MONTH[(month - 1) as usize];
        if month > 2 && Date::is_leap(year) {
            days += 1;
        }
        if year == GREGORIAN_YEAR && month > 10 {
            days -= 10;
        }
        days
    }

    /// The place of a valid date within its year, counted from 1. In 1582
    /// the count passes over the ten dropped days: the 15th of October comes
    /// right after the 4th.
    pub fn day_of_year(&self) -> (ordinal: i32)
        requires
            is_valid_date(self@),
        ensures
            ordinal == day_number(self@),
            1 <= ordinal <= year_length(self@.year),
    {
        let mut ordinal: i32 = Date::month_days(self.month, self.year) as i32 + self.day as i32;
        if self.year == GREGORIAN_YEAR && self.month == 10 && self.day > 14 {
            ordinal -= 10;
        }
        ordinal
    }

    /// The number of days from `first` to `last`: positive where `last` is
    /// the later date, negative where it is the earlier, 0 for the same
    /// date. Both dates are checked, `first` before `last`, and the first
    /// error found is returned.
    pub fn days_between_dates(first: &Date, last: &Date) -> (outcome: Result<i64, DateError>)
        ensures
            match days_between(first@, last@) {
                Ok(days) => outcome matches Ok(n) && n == days,
                Err(e) => outcome == Err::<i64, DateError>(e),
            },
            first@.year == 0 || last@.year == 0 ==> outcome is Err,
    {
        if let Err(error) = first.is_valid() {
            return Err(error);
        }
        if let Err(error) = last.is_valid() {
            return Err(error);
        }
        let (year1, year2) = if first.year > last.year {
            (last.year, first.year)
        } else {
            (first.year, last.year)
        };
        let mut days: i64 = 0;
        let mut year: i32 = year1;
        while year < year2
            invariant
                year1 <= year <= year2,
                days == days_in_years(year1 as int, year as int),
                0 <= days <= 366 * (year - year1),
            decreases year2 - year,
        {
            days += Date::year_days(year) as i64;
            year += 1;
        }
        let d1: i64 = first.day_of_year() as i64;
        let d2: i64 = last.day_of_year() as i64;
        if first.year > last.year {
            Ok(-days - d1 + d2)
        } else {
            Ok(days - d1 + d2)
        }
    }

    /// The date as text, such as `July 22, 2021` or `March 15, 44 BC`.
    pub fn render(&self) -> (text: String)
        requires
            1 <= self@.month <= 12,
        ensures
            text@ == date_text(self@),
    {
        let mut text = String::from_str(month_name_str(self.month));
        text.append(" ");
        push_decimal(&mut text, self.day as u64);
        text.append(", ");
        let magnitude: i64 = if self.year < 0 {
            -(self.year as i64)
        } else {
            self.year as i64
        };
        push_decimal(&mut text, magnitude as u64);
        if self.year < 0 {
            text.append(" BC");
        }
        assert(text@ =~= date_text(self@));
        text
    }
}

} // verus!
