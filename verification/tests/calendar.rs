use edtf::calendar::{days_in_month, is_leap_year, is_valid_complete_date};
use edtf::{DateComplete, ParseError};

#[test]
fn leap_year() {
    // yes
    assert!(is_leap_year(2004));
    assert!(is_leap_year(-400));
    assert!(is_leap_year(-204));
    assert!(is_leap_year(0));
    // no
    assert!(!is_leap_year(1));
    assert!(!is_leap_year(100));
    assert!(!is_leap_year(1900));
    assert!(!is_leap_year(1901));
    assert!(!is_leap_year(2005));
    assert!(!is_leap_year(-1));
    assert!(!is_leap_year(-100));
    assert!(!is_leap_year(-200));
    assert!(!is_leap_year(-300));
    assert!(!is_leap_year(-309));
}

#[test]
fn month_lengths() {
    assert_eq!(days_in_month(2019, 2), 28);
    assert_eq!(days_in_month(2020, 2), 29);
    assert_eq!(days_in_month(1900, 2), 28);
    assert_eq!(days_in_month(2000, 2), 29);
    assert_eq!(days_in_month(2021, 4), 30);
    assert_eq!(days_in_month(2021, 12), 31);
}

#[test]
fn complete_dates() {
    assert_eq!(is_valid_complete_date(2019, 2, 29), Err(ParseError::OutOfRange));
    assert_eq!(is_valid_complete_date(2019, 13, 1), Err(ParseError::OutOfRange));
    assert_eq!(is_valid_complete_date(2019, 0, 1), Err(ParseError::OutOfRange));
    assert_eq!(is_valid_complete_date(2019, 1, 0), Err(ParseError::OutOfRange));
    assert_eq!(
        is_valid_complete_date(2020, 2, 29),
        Ok(DateComplete::from_ymd(2020, 2, 29))
    );
    let d = DateComplete::from_ymd_opt(-5, 12, 31).unwrap();
    assert_eq!((d.year(), d.month(), d.day()), (-5, 12, 31));
    assert_eq!(DateComplete::from_ymd_opt(2021, 4, 31), None);
    assert_eq!(DateComplete::from_ymd_opt(2021, 256, 1), None);
}
