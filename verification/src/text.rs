//! Dates and errors as text.
use vstd::prelude::*;
use vstd::string::StringExecFns;
use crate::calendar::{DateError, Ymd};
use crate::date::Date;

verus! {

/// The character of a decimal digit.
pub open spec fn digit_char(digit: int) -> char {
    if digit == 0 {
        '0'
    } else if digit == 1 {
        '1'
    } else if digit == 2 {
        '2'
    } else if digit == 3 {
        '3'
    } else if digit == 4 {
        '4'
    } else if digit == 5 {
        '5'
    } else if digit == 6 {
        '6'
    } else if digit == 7 {
        '7'
    } else if digit == 8 {
        '8'
    } else {
        '9'
    }
}

/// A number in plain decimal: no sign, no leading zero, no separators.
pub open spec fn decimal(n: nat) -> Seq<char>
    decreases n,
{
    if n < 10 {
        seq![digit_char(n as int)]
    } else {
        decimal(n / 10).push(digit_char((n % 10) as int))
    }
}

/// The English name of a month from 1 to 12.
pub open spec fn month_name(month: int) -> Seq<char> {
    if month == 1 {
        "January"@
    } else if month == 2 {
        "February"@
    } else if month == 3 {
        "March"@
    } else if month == 4 {
        "April"@
    } else if month == 5 {
        "May"@
    } else if month == 6 {
        "June"@
    } else if month == 7 {
        "July"@
    } else if month == 8 {
        "August"@
    } else if month == 9 {
        "September"@
    } else if month == 10 {
        "October"@
    } else if month == 11 {
        "November"@
    } else {
        "December"@
    }
}

/// A year without its sign.
pub open spec fn year_magnitude(year: int) -> nat {
    if year < 0 {
        (-year) as nat
    } else {
        year as nat
    }
}

/// A date as text: the month's name, the day, a comma, the year without its
/// sign, and ` BC` behind a year before year 1. Nothing marks the other years.
pub open spec fn date_text(d: Ymd) -> Seq<char> {
    month_name(d.month) + " "@ + decimal(d.day as nat) + ", "@ + decimal(year_magnitude(d.year))
        + (if d.year < 0 {
        " BC"@
    } else {
        Seq::<char>::empty()
    })
}

/// What is wrong with the date `d`, in words, given that `error` is.
pub open spec fn error_text(error: DateError, d: Ymd) -> Seq<char> {
    match error {
        DateError::YearZero => "Year 0 does not exist"@,
        DateError::InvalidMonth => "Invalid month"@,
        DateError::NonexistentDate => date_text(d) + " does not exist"@,
        DateError::InvalidDay => date_text(d) + ": Invalid day"@,
    }
}

fn digit_str(digit: u64) -> (text: &'static str)
    requires
        digit < 10,
    ensures
        text@ == seq![digit_char(digit as int)],
{
    proof {
        reveal_strlit("0");
        reveal_strlit("1");
        reveal_strlit("2");
        reveal_strlit("3");
        reveal_strlit("4");
        reveal_strlit("5");
        reveal_strlit("6");
        reveal_strlit("7");
        reveal_strlit("8");
        reveal_strlit("9");
    }
    let text = match digit {
        0 => "0",
        1 => "1",
        2 => "2",
        3 => "3",
        4 => "4",
        5 => "5",
        6 => "6",
        7 => "7",
        8 => "8",
        _ => "9",
    };
    assert(text@ =~= seq![digit_char(digit as int)]);
    text
}

/// Writes `n` in decimal at the end of `text`.
pub fn push_decimal(text: &mut String, n: u64)
    ensures
        final(text)@ == old(text)@ + decimal(n as nat),
    decreases n,
{
    if n >= 10 {
        push_decimal(text, n / 10);
    }
    text.append(digit_str(n % 10));
    assert(text@ =~= old(text)@ + decimal(n as nat));
}

/// The English name of `month`.
pub fn month_name_str(month: u8) -> (name: &'static str)
    requires
        1 <= month <= 12,
    ensures
        name@ == month_name(month as int),
{
    match month {
        1 => "January",
        2 => "February",
        3 => "March",
        4 => "April",
        5 => "May",
        6 => "June",
        7 => "July",
        8 => "August",
        9 => "September",
        10 => "October",
        11 => "November",
        _ => "December",
    }
}

impl DateError {
    /// Says in words what is wrong with `date`, which this error was found
    /// in. The two errors about the day name the date.
    pub fn describe(&self, date: &Date) -> (text: String)
        requires
            *self == DateError::NonexistentDate || *self == DateError::InvalidDay ==> 1
                <= date@.month <= 12,
        ensures
            text@ == error_text(*self, date@),
    {
        match self {
            DateError::YearZero => String::from_str("Year 0 does not exist"),
            DateError::InvalidMonth => String::from_str("Invalid month"),
            DateError::NonexistentDate => date.render().concat(" does not exist"),
            DateError::InvalidDay => date.render().concat(": Invalid day"),
        }
    }
}

} // verus!
