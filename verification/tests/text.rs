use daycount::calendar::DateError;
use daycount::date::Date;
use daycount::text::{month_name_str, push_decimal};

#[test]
fn a_date_reads_month_day_year() {
    assert_eq!(Date::new(2021, 7, 22).render(), "July 22, 2021");
    assert_eq!(Date::new(2000, 2, 29).render(), "February 29, 2000");
    assert_eq!(Date::new(1, 1, 1).render(), "January 1, 1");
    assert_eq!(Date::new(1582, 10, 15).render(), "October 15, 1582");
}

#[test]
fn a_year_before_year_one_reads_bc() {
    assert_eq!(Date::new(-44, 3, 15).render(), "March 15, 44 BC");
    assert_eq!(Date::new(-1, 12, 31).render(), "December 31, 1 BC");
    assert_eq!(Date::new(i32::MIN, 1, 1).render(), "January 1, 2147483648 BC");
    assert_eq!(Date::new(i32::MAX, 1, 1).render(), "January 1, 2147483647");
}

#[test]
fn a_date_that_is_not_valid_still_reads() {
    assert_eq!(Date::new(0, 12, 0).render(), "December 0, 0");
    assert_eq!(Date::new(1979, 2, 29).render(), "February 29, 1979");
    assert_eq!(Date::new(1, 1, 255).render(), "January 255, 1");
}

#[test]
fn the_months_have_their_english_names() {
    let names = [
        "January",
        "February",
        "March",
        "April",
        "May",
        "June",
        "July",
        "August",
        "September",
        "October",
        "November",
        "December",
    ];
    for month in 1..=12u8 {
        assert_eq!(month_name_str(month), names[month as usize - 1]);
    }
}

#[test]
fn numbers_are_written_in_plain_decimal() {
    for (n, expected) in [
        (0u64, "0"),
        (7, "7"),
        (9, "9"),
        (10, "10"),
        (99, "99"),
        (100, "100"),
        (1582, "1582"),
        (1000000, "1000000"),
        (u64::MAX, "18446744073709551615"),
    ] {
        let mut text = String::new();
        push_decimal(&mut text, n);
        assert_eq!(text, expected);
    }
}

#[test]
fn a_number_goes_behind_what_is_there() {
    let mut text = String::from("day ");
    push_decimal(&mut text, 278);
    assert_eq!(text, "day 278");
    push_decimal(&mut text, 0);
    assert_eq!(text, "day 2780");
}

#[test]
fn every_error_says_what_is_wrong() {
    assert_eq!(DateError::YearZero.describe(&Date::new(0, 1, 1)), "Year 0 does not exist");
    assert_eq!(DateError::InvalidMonth.describe(&Date::new(-4, 15, 1)), "Invalid month");
    assert_eq!(
        DateError::NonexistentDate.describe(&Date::new(1582, 10, 11)),
        "October 11, 1582 does not exist"
    );
    assert_eq!(
        DateError::InvalidDay.describe(&Date::new(1979, 2, 29)),
        "February 29, 1979: Invalid day"
    );
    assert_eq!(DateError::InvalidDay.describe(&Date::new(-5, 1, 41)), "January 41, 5 BC: Invalid day");
}

#[test]
fn the_error_of_a_date_describes_that_date() {
    for date in [Date::new(0, 1, 1), Date::new(-4, 15, 1), Date::new(1582, 10, 5), Date::new(1, 1, 0)] {
        let error = date.is_valid().unwrap_err();
        let text = error.describe(&date);
        assert!(!text.is_empty());
    }
    let date = Date::new(1, 1, 0);
    assert_eq!(date.is_valid().unwrap_err().describe(&date), "January 0, 1: Invalid day");
}
