//! What holds of the calendar's rules and of the day count, for all dates.
use vstd::prelude::*;
use crate::calendar::{
    day_number, days_before_month, days_between, days_in_years, in_reform_gap, is_leap_year,
    is_valid_date, month_length, precedes, signed_days, validate, year_length, DateError, Ymd,
    GREGORIAN_YEAR,
};

verus! {

/// The validator refuses a date in year 0 as such, whatever else is wrong
/// with it, and refuses every date with a day 0, every 29th of February of a
/// year that is not a leap year, and every day from the 5th to the 14th of
/// October 1582.
pub proof fn lemma_refused_dates(d: Ymd)
    ensures
        d.year == 0 ==> validate(d) == Err::<(), DateError>(DateError::YearZero),
        d.day <= 0 ==> validate(d) is Err,
        d.month == 2 && d.day == 29 && !is_leap_year(d.year) ==> validate(d) is Err,
        d.year == GREGORIAN_YEAR && d.month == 10 && 5 <= d.day <= 14 ==> validate(d) == Err::<
            (),
            DateError,
        >(DateError::NonexistentDate),
{
}

/// A valid date lies in a year other than 0, in a month from 1 to 12, on a
/// day from 1 to the length of its month, and outside the days that the
/// reform dropped.
pub proof fn lemma_valid_date(d: Ymd)
    requires
        is_valid_date(d),
    ensures
        d.year != 0,
        1 <= d.month <= 12,
        1 <= d.day <= month_length(d.month, d.year) <= 31,
        !in_reform_gap(d),
{
}

/// A valid date's place in its year is at least 1 and at most the length of
/// the year.
pub proof fn lemma_day_number_bounds(d: Ymd)
    requires
        is_valid_date(d),
    ensures
        1 <= day_number(d) <= year_length(d.year),
{
}

/// The 31st of December is the last day of its year: its place in the year
/// is the year's length. This holds of 1582 too, with its 355 days.
pub proof fn lemma_year_ends_in_december(year: int)
    requires
        year != 0,
    ensures
        is_valid_date(Ymd { year, month: 12, day: 31 }),
        day_number(Ymd { year, month: 12, day: 31 }) == year_length(year),
{
}

/// The days of a run of years are the days of its two parts.
pub proof fn lemma_days_in_years_split(from: int, mid: int, to: int)
    requires
        from <= mid <= to,
    ensures
        days_in_years(from, to) == days_in_years(from, mid) + days_in_years(mid, to),
    decreases to - mid,
{
    if mid < to {
        lemma_days_in_years_split(from, mid, to - 1);
    }
}

/// A run of years has at least 0 and at most 366 days for each of its years.
pub proof fn lemma_days_in_years_bounds(from: int, to: int)
    requires
        from <= to,
    ensures
        0 <= days_in_years(from, to) <= 366 * (to - from),
    decreases to - from,
{
    if from < to {
        lemma_days_in_years_bounds(from, to - 1);
    }
}

/// The days from a date to another are the negative of the days back:
/// `days_between(a, b) == -days_between(b, a)`.
pub proof fn lemma_days_between_antisymmetric(a: Ymd, b: Ymd)
    requires
        is_valid_date(a),
        is_valid_date(b),
    ensures
        signed_days(a, b) == -signed_days(b, a),
        days_between(a, b) == Ok::<int, DateError>(signed_days(a, b)),
        days_between(b, a) == Ok::<int, DateError>(-signed_days(a, b)),
{
}

/// From a date to itself there are 0 days.
pub proof fn lemma_days_between_same(a: Ymd)
    ensures
        signed_days(a, a) == 0,
{
}

/// Day counts add up: the days from `a` to `c` are the days from `a` to `b`
/// and those from `b` to `c`, wherever `b` lies.
pub proof fn lemma_days_between_additive(a: Ymd, b: Ymd, c: Ymd)
    ensures
        signed_days(a, c) == signed_days(a, b) + signed_days(b, c),
{
    let (x, y, z) = (a.year, b.year, c.year);
    if x <= y && y <= z {
        lemma_days_in_years_split(x, y, z);
    } else if x <= z && z <= y {
        lemma_days_in_years_split(x, z, y);
    } else if y <= x && x <= z {
        lemma_days_in_years_split(y, x, z);
    } else if y <= z && z <= x {
        lemma_days_in_years_split(y, z, x);
    } else if z <= x && x <= y {
        lemma_days_in_years_split(z, x, y);
    } else {
        lemma_days_in_years_split(z, y, x);
    }
}

/// Within a year, a valid date that comes before another has the smaller
/// place in the year: the day numbers follow the order of the dates, over
/// the leap day and over the gap of October 1582.
pub proof fn lemma_day_number_increases(a: Ymd, b: Ymd)
    requires
        is_valid_date(a),
        is_valid_date(b),
        a.year == b.year,
        precedes(a, b),
    ensures
        day_number(a) < day_number(b),
{
    if a.month < b.month {
        lemma_month_starts(a.month, a.year);
        lemma_months_in_order(a.month + 1, b.month, a.year);
    }
}

/// The days before a month and the days of that month that exist are the
/// days before the next month. October 1582 has 21 days that exist.
proof fn lemma_month_starts(month: int, year: int)
    requires
        1 <= month < 12,
    ensures
        days_before_month(month + 1, year) == days_before_month(month, year) + month_length(
            month,
            year,
        ) - (if year == GREGORIAN_YEAR && month == 10 {
            10int
        } else {
            0int
        }),
{
}

/// A later month has no fewer days before it.
proof fn lemma_months_in_order(earlier: int, later: int, year: int)
    requires
        1 <= earlier <= later <= 12,
    ensures
        days_before_month(earlier, year) <= days_before_month(later, year),
    decreases later - earlier,
{
    if earlier < later {
        lemma_month_starts(later - 1, year);
        lemma_months_in_order(earlier, later - 1, year);
    }
}

/// The sign of the day count follows the order of the dates: between valid
/// dates it is positive exactly where the second is the later one, negative
/// exactly where it is the earlier one, and 0 only from a date to itself.
/// Within one year it is the difference of the two places in the year.
pub proof fn lemma_days_between_sign(a: Ymd, b: Ymd)
    requires
        is_valid_date(a),
        is_valid_date(b),
    ensures
        a.year == b.year ==> signed_days(a, b) == day_number(b) - day_number(a),
        signed_days(a, b) > 0 <==> precedes(a, b),
        signed_days(a, b) < 0 <==> precedes(b, a),
        signed_days(a, b) == 0 <==> a == b,
{
    if a.year < b.year {
        lemma_days_in_years_split(a.year, a.year + 1, b.year);
        lemma_days_in_years_bounds(a.year + 1, b.year);
        assert(days_in_years(a.year, a.year + 1) == year_length(a.year)) by {
            reveal_with_fuel(days_in_years, 2);
        }
    } else if a.year > b.year {
        lemma_days_in_years_split(b.year, b.year + 1, a.year);
        lemma_days_in_years_bounds(b.year + 1, a.year);
        assert(days_in_years(b.year, b.year + 1) == year_length(b.year)) by {
            reveal_with_fuel(days_in_years, 2);
        }
    } else if precedes(a, b) {
        lemma_day_number_increases(a, b);
    } else if precedes(b, a) {
        lemma_day_number_increases(b, a);
    }
}

/// The number of leap years among the years 1 to `year - 1`, counted by the
/// Gregorian rule.
pub open spec fn gregorian_leap_years_before(year: int) -> int {
    (year - 1) / 4 - (year - 1) / 100 + (year - 1) / 400
}

/// From one year to the next the count of leap years goes up by one exactly
/// where the year is a leap year by the Gregorian rule.
proof fn lemma_gregorian_leap_step(year: int)
    requires
        year > 0,
    ensures
        gregorian_leap_years_before(year + 1) - gregorian_leap_years_before(year) == (if year % 400
            == 0 || (year % 4 == 0 && year % 100 != 0) {
            1int
        } else {
            0int
        }),
{
    assert(year / 4 - (year - 1) / 4 == (if year % 4 == 0 { 1int } else { 0int }));
    assert(year / 100 - (year - 1) / 100 == (if year % 100 == 0 { 1int } else { 0int }));
    assert(year / 400 - (year - 1) / 400 == (if year % 400 == 0 { 1int } else { 0int }));
    assert(year % 400 == 0 ==> year % 100 == 0);
    assert(year % 100 == 0 ==> year % 4 == 0);
}

/// After the year of the reform, a run of years has 365 days for each year
/// and one more for each leap year in it.
pub proof fn lemma_gregorian_days_in_years(from: int, to: int)
    requires
        GREGORIAN_YEAR < from <= to,
    ensures
        days_in_years(from, to) == 365 * (to - from) + gregorian_leap_years_before(to)
            - gregorian_leap_years_before(from),
    decreases to - from,
{
    if from < to {
        lemma_gregorian_days_in_years(from, to - 1);
        lemma_gregorian_leap_step(to - 1);
    }
}

/// After the year of the reform, a year and the year 400 years later are
/// both leap years or both not.
pub proof fn lemma_gregorian_leap_period(year: int)
    requires
        year > GREGORIAN_YEAR,
    ensures
        is_leap_year(year + 400) == is_leap_year(year),
        year_length(year + 400) == year_length(year),
{
    assert((year + 400) % 4 == year % 4);
    assert((year + 400) % 100 == year % 100);
    assert((year + 400) % 400 == year % 400);
}

/// The Gregorian calendar repeats every 400 years: after the year of the
/// reform, any 400 years in a row have 146097 days, and so has the way from
/// a valid date to the same day and month 400 years on.
pub proof fn lemma_gregorian_cycle(d: Ymd)
    requires
        is_valid_date(d),
        d.year > GREGORIAN_YEAR,
    ensures
        days_in_years(d.year, d.year + 400) == 146097,
        is_valid_date(Ymd { year: d.year + 400, month: d.month, day: d.day }),
        signed_days(d, Ymd { year: d.year + 400, month: d.month, day: d.day }) == 146097,
{
    let year = d.year;
    let later = Ymd { year: year + 400, month: d.month, day: d.day };
    assert(days_in_years(year, year + 400) == 146097) by {
        lemma_gregorian_days_in_years(year, year + 400);
        assert((year + 399) / 4 == (year - 1) / 4 + 100);
        assert((year + 399) / 100 == (year - 1) / 100 + 4);
        assert((year + 399) / 400 == (year - 1) / 400 + 1);
    }
    lemma_gregorian_leap_period(year);
    assert(day_number(later) == day_number(d));
}

} // verus!
