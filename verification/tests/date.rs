use daycount::date::Date;

#[test]
fn test_leap_years() {
    assert_eq!(Date::is_leap(2000), true);
    assert_eq!(Date::is_leap(2001), false);
    assert_eq!(Date::is_leap(2100), false);
    assert_eq!(Date::is_leap(2004), true);
    assert_eq!(Date::is_leap(100), true);
    assert_eq!(Date::is_leap(-1), true);
    assert_eq!(Date::is_leap(-4), false);
}

#[test]
fn test_invalid_dates() {
    let date = Date::new(1979, 2, 29);
    assert!(date.is_valid().is_err());

    let date = Date::new(1979, 1, 0);
    assert!(date.is_valid().is_err());

    let date = Date::new(0, 1, 1);
    assert!(date.is_valid().is_err());

    let date = Date::new(1, 1, 41);
    assert!(date.is_valid().is_err());

    let date = Date::new(-4, 15, 1);
    assert!(date.is_valid().is_err());

    let date = Date::new(1582, 10, 11);
    assert!(date.is_valid().is_err());
}

#[test]
fn test_days_in_year() {
    assert_eq!(Date::year_days(1977), 365);
    assert_eq!(Date::year_days(1978), 365);
    assert_eq!(Date::year_days(1980), 366);
    assert_eq!(Date::year_days(2000), 366);
    assert_eq!(Date::year_days(2100), 365);
    assert_eq!(Date::year_days(1582), 355);
    assert_eq!(Date::year_days(0), 0);
    assert_eq!(Date::year_days(-1), 366);
}

#[test]
fn test_days_between_dates() {
    let first = Date::new(1950, 1, 1);
    let last = Date::new(1950, 12, 31);
    assert_eq!(Date::days_between_dates(&first, &last), Ok(364));

    let first = Date::new(1980, 1, 1);
    let last = Date::new(1981, 1, 1);
    assert_eq!(Date::days_between_dates(&first, &last), Ok(366));
    assert_eq!(Date::days_between_dates(&last, &first), Ok(-366));

    let first = Date::new(1977, 10, 1);
    let last = Date::new(2021, 7, 22);
    assert_eq!(Date::days_between_dates(&first, &last), Ok(16000));

    let first = Date::new(2000, 1, 1);
    let last = Date::new(2400, 1, 1);
    assert_eq!(Date::days_between_dates(&first, &last), Ok(146097));

    let first = Date::new(2000, 1, 1);
    let last = Date::new(2400, 1, 1);
    assert_eq!(Date::days_between_dates(&first, &last), Ok(146097));

    let first = Date::new(1582, 1, 1);
    let last = Date::new(1982, 1, 1);
    assert_eq!(Date::days_between_dates(&first, &last), Ok(146087));

    let first = Date::new(0, 1, 1);
    assert!(Date::days_between_dates(&first, &last).is_err());
}
