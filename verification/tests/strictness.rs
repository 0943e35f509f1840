use edtf::level_1::{Date, Edtf, Precision};
use edtf::level_2::ScientificYear;
use edtf::level_0::Date as D0;
use edtf::{level_0, ParseError, Time, TzOffset};
use std::cmp::Ordering;

#[test]
fn from_precision_rejects_out_of_range_parts() {
    assert_eq!(Date::from_precision_opt(Precision::Day(2021, 2, 30)), None);
    assert_eq!(Date::from_precision_opt(Precision::Month(2021, 13)), None);
    assert_eq!(Date::from_precision_opt(Precision::Month(2021, 0)), None);
    assert_eq!(Date::from_precision_opt(Precision::Day(2021, 5, 0)), None);
    assert_eq!(Date::from_precision_opt(Precision::Day(2021, 0, 5)), None);
    assert_eq!(Date::from_precision_opt(Precision::DayOfMonth(2021, 0)), None);
    assert_eq!(Date::from_precision_opt(Precision::Month(2021, 300)), None);
    assert_eq!(
        Date::from_precision_opt(Precision::DayOfYear(1908)),
        Date::parse("1908-XX-XX").ok()
    );
    assert_eq!(
        Date::from_precision_opt(Precision::Month(2021, 5)),
        Date::parse("2021-05").ok()
    );
}

#[test]
fn level_1_from_ymd_opt_rejects_out_of_range_parts() {
    assert_eq!(Date::from_ymd_opt(2019, 0, 5), None);
    assert_eq!(Date::from_ymd_opt(2019, 2, 29), None);
    assert_eq!(Date::from_ymd_opt(2019, 13, 0), None);
    assert_eq!(Date::from_ymd_opt(2019, 21, 1), None);
    assert_eq!(Date::from_ymd_opt(2019, 256, 0), None);
    assert_eq!(Date::from_ymd_opt(2019, 7, 256), None);
    assert!(Date::from_ymd_opt(2020, 2, 29).is_some());
    assert!(Date::from_ymd_opt(2019, 24, 0).is_some());
}

#[test]
fn level_0_from_ymd_opt_rejects_out_of_range_parts() {

    assert_eq!(D0::from_ymd_opt(-1, 1, 1), None);
    assert_eq!(D0::from_ymd_opt(10000, 1, 1), None);
    assert_eq!(D0::from_ymd_opt(2019, 4, 31), None);
    assert_eq!(D0::from_ymd_opt(2019, 6, 400), None);
    assert_eq!(D0::from_ymd_opt(2019, 2, 29), None);
    assert_eq!(D0::from_ymd_opt(2019, 0, 5), None);
    assert_eq!(D0::from_ymd_opt(2019, 13, 0), None);
    assert_eq!(D0::from_ymd_opt(2019, 256, 0), None);
    assert!(D0::from_ymd_opt(2019, 4, 30).is_some());
}

#[test]
fn negative_minute_offsets_keep_their_sign() {
    for s in ["2019-08-17T23:59:30-00:30", "2019-08-17T23:59:30-04:30", "2019-08-17T23:59:30+00:30"]
        .iter()
    {
        assert_eq!(Edtf::parse(s).unwrap().to_string(), *s);
        assert_eq!(level_0::Edtf::parse(s).unwrap().to_string(), *s);
    }
    // a zero offset cannot keep a minus sign
    assert_eq!(
        Edtf::parse("2019-08-17T23:59:30-00:00").unwrap().to_string(),
        "2019-08-17T23:59:30+00:00"
    );
}

#[test]
fn season_intervals_have_no_smallest_iterator() {
    assert!(Edtf::parse("2019-21/2019-22").unwrap().iter_smallest().is_none());
    assert!(Edtf::parse("2019-21/2019-05").unwrap().iter_smallest().is_none());
}

#[test]
fn extreme_offsets_are_out_of_range() {
    assert_eq!(Time::from_hmsz_opt(1, 1, 1, TzOffset::Hours(i32::MIN)), None);
    assert_eq!(Time::from_hmsz_opt(1, 1, 1, TzOffset::Minutes(i32::MIN)), None);
    assert_eq!(Time::from_hmsz_opt(1, 1, 1, TzOffset::Minutes(1439)).unwrap().minute(), 1);
}

#[test]
fn zero_has_no_automatic_form() {
    assert_eq!(ScientificYear::auto_opt(0), None);
    let y = ScientificYear::new(0, 5, 0);
    assert_eq!(y.normalise(), y);
    assert_eq!(y.normalise().value(), 0);
}

#[test]
fn sort_orders_equal_at_the_same_instant() {
    let a = Edtf::parse("2010-08-12").unwrap().sort_order();
    let b = Edtf::parse("2010-08-12T00:00:00Z").unwrap().sort_order();
    let c = Edtf::parse("2010-08-12T01:00:00+01:00").unwrap().sort_order();
    let d = Edtf::parse("2010-08-12T00:00:01Z").unwrap().sort_order();
    assert!(a == b);
    assert!(b == c);
    assert!(a != d);
    assert_eq!(a.compare(&d), Ordering::Less);
}

#[test]
fn utc_conversion_crosses_days() {
    // 23:30 at -01:00 is 00:30 the next day in UTC, here across a month and a year end
    let late = Edtf::parse("2010-12-31T23:30:00-01:00").unwrap().sort_order();
    let next = Edtf::parse("2011-01-01T00:30:00Z").unwrap().sort_order();
    assert!(late == next);
    let early = Edtf::parse("2012-03-01T00:30:00+01:00").unwrap().sort_order();
    let prev = Edtf::parse("2012-02-29T23:30:00Z").unwrap().sort_order();
    assert!(early == prev);
}

#[test]
fn seasons_take_no_day() {

    assert_eq!(Date::parse("2019-21-XX"), Err(ParseError::Invalid));
    assert_eq!(Date::parse("2019-24-XX~"), Err(ParseError::Invalid));
    assert_eq!(Edtf::parse("2019-21-XX/2020"), Err(ParseError::Invalid));
    assert_eq!(Date::parse("2019-21-05"), Err(ParseError::Invalid));
    assert!(Date::parse("2019-21").is_ok());
    assert!(Date::parse("2019-05-XX").is_ok());
    assert!(Date::parse("2019-21").unwrap().iter_possible_days().is_none());
}
