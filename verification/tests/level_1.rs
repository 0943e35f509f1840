use edtf::level_1::Certainty::{self, Approximate, ApproximateUncertain, Certain, Uncertain};
use edtf::level_1::{Component, Date, Edtf, MatchTerminal, Matcher, Precision, Season, Terminal, YYear};
use edtf::{DateComplete, ParseError};
use edtf::ParseError::{Invalid, OutOfRange};

fn roundtrip(s: &str) {
    assert_eq!(Edtf::parse(s).unwrap().to_string(), s);
}

#[test]
fn mod_uncertain_dates_packed() {
    let d = Date::parse("2019-07-05%").unwrap();
    assert!(std::mem::size_of_val(&d) <= 8);
}

#[test]
fn test_uncertain_dates_packed() {
    let d = Date::parse("2019-07-05%").unwrap();
    println!("{:?}", d);
    assert!(std::mem::size_of_val(&d) <= 8);
}

fn check_xx_rightmost_only() {
    // yes
    assert_eq!(
        Date::parse("201X").as_ref().map(Date::precision_certainty),
        Ok((Precision::Decade(2010), Certain))
    );
    assert_eq!(
        Date::parse("20XX"),
        Ok(Date::from_precision(Precision::Century(2000)))
    );
    // same, because we round it
    assert_eq!(
        Date::parse("20XX"),
        Ok(Date::from_precision(Precision::Century(2019)))
    );
    assert_eq!(
        Date::parse("2019-XX"),
        Ok(Date::from_precision(Precision::MonthOfYear(2019)))
    );
    assert_eq!(
        Date::parse("2019-XX-XX"),
        Ok(Date::from_precision(Precision::DayOfYear(2019)))
    );
    assert_eq!(
        Date::parse("2019-07-XX"),
        Ok(Date::from_precision(Precision::DayOfMonth(2019, 7)))
    );
    // no
    assert_eq!(Date::parse("2019-XX-09"), Err(Invalid));
    assert_eq!(Date::parse("201X-XX"), Err(Invalid));
    assert_eq!(Date::parse("20XX-XX"), Err(Invalid));
    assert_eq!(Date::parse("20XX-07"), Err(Invalid));
    assert_eq!(Date::parse("201X-XX-09"), Err(Invalid));
    assert_eq!(Date::parse("201X-07-09"), Err(Invalid));
    assert_eq!(Date::parse("20XX-07-09"), Err(Invalid));
    assert_eq!(Date::parse("20XX-07-XX"), Err(Invalid));
    assert_eq!(Date::parse("20XX-07-0X"), Err(Invalid));
    assert!(Date::parse("2019-XX-00").is_err());
    assert_eq!(Date::parse("2019-0X-00"), Err(Invalid));
    assert_eq!(Date::parse("2019-0X-XX"), Err(Invalid));
}

#[test]
fn mod_xx_rightmost_only() {
    check_xx_rightmost_only();
}

#[test]
fn test_xx_rightmost_only() {
    check_xx_rightmost_only();
}

fn check_no_uncertain_mid_date() {
    // yes
    assert_eq!(
        Date::parse("2019-08-08?"),
        Ok(Date::from_ymd(2019, 8, 8).and_certainty(Uncertain))
    );
    // no
    assert_eq!(Date::parse("2019?-08-08"), Err(ParseError::Invalid));
    assert_eq!(Date::parse("2019-08%-08"), Err(ParseError::Invalid));
    assert_eq!(Date::parse("2019-08?-08%"), Err(ParseError::Invalid));
    assert_eq!(Date::parse("2019?-08-08%"), Err(ParseError::Invalid));
    assert_eq!(Date::parse("2019~-08-08?"), Err(ParseError::Invalid));
    assert_eq!(Date::parse("2019~-08?-08~"), Err(ParseError::Invalid));
    assert_eq!(Date::parse("2019~-08~-08~"), Err(ParseError::Invalid));
}

#[test]
fn mod_no_uncertain_mid_date() {
    check_no_uncertain_mid_date();
}

#[test]
fn test_no_uncertain_mid_date() {
    check_no_uncertain_mid_date();
}

fn check_xx_with_uncertainty() {
    assert!(Date::parse("201X?").is_ok());
    assert!(Date::parse("20XX~").is_ok());
    assert!(Date::parse("20XX%").is_ok());
    assert!(Date::parse("2019-XX?").is_ok());
    assert!(Date::parse("2019-XX~").is_ok());
    assert!(Date::parse("2019-XX%").is_ok());
    assert!(Date::parse("2019-XX-XX?").is_ok());
    assert!(Date::parse("2019-XX-XX~").is_ok());
    assert!(Date::parse("2019-XX-XX%").is_ok());
    assert!(Date::parse("2019-07-XX?").is_ok());
    assert!(Date::parse("2019-07-XX~").is_ok());
    assert!(Date::parse("2019-07-XX%").is_ok());
}

#[test]
fn mod_xx_with_uncertainty() {
    check_xx_with_uncertainty();
}

#[test]
fn test_xx_with_uncertainty() {
    check_xx_with_uncertainty();
}

fn check_invalid_calendar_dates() {
    // bad values
    assert_eq!(Date::parse("2019-13"), Err(ParseError::OutOfRange));
    assert_eq!(Date::parse("2019-99"), Err(ParseError::OutOfRange));
    assert_eq!(Date::parse("2019-04-40"), Err(ParseError::OutOfRange));
    assert_eq!(Date::parse("2019-99-99"), Err(ParseError::OutOfRange));
    // bad values inside range of PackedU8
    assert_eq!(Date::parse("2019-00"), Err(ParseError::OutOfRange));
    assert_eq!(Date::parse("2019-30-00"), Err(ParseError::OutOfRange));
    // more zeroes
    assert_eq!(Date::parse("2019-04-00"), Err(ParseError::OutOfRange));
    assert_eq!(Date::parse("2019-00-00"), Err(ParseError::OutOfRange));
    assert_eq!(Date::parse("2019-00-01"), Err(ParseError::OutOfRange));
    // well, year 0 is fine. It's just 1BCE.
    assert_eq!(Date::parse("0000-00-00"), Err(ParseError::OutOfRange));
    assert_eq!(Date::parse("0000-10-00"), Err(ParseError::OutOfRange));
}

#[test]
fn mod_invalid_calendar_dates() {
    check_invalid_calendar_dates();
}

#[test]
fn test_invalid_calendar_dates() {
    check_invalid_calendar_dates();
}

fn check_seasons() {
    // yes
    assert!(Date::parse("2019-21").is_ok());
    assert!(Date::parse("2019-22").is_ok());
    assert!(Date::parse("2019-23").is_ok());
    assert!(Date::parse("2019-24").is_ok());
    // no
    assert_eq!(Date::parse("2019-13"), Err(ParseError::OutOfRange));
    assert_eq!(Date::parse("2019-20"), Err(ParseError::OutOfRange));
    assert_eq!(Date::parse("2019-25"), Err(ParseError::OutOfRange));
}

#[test]
fn mod_seasons() {
    check_seasons();
}

#[test]
fn test_seasons() {
    check_seasons();
}

#[test]
fn mod_seasons_day_invalid() {
    assert_eq!(Date::parse("2019-21-05"), Err(ParseError::Invalid));
}

#[test]
fn test_seasons_day_invalid() {
    assert_eq!(Date::parse("2019-21-05"), Err(ParseError::Invalid));
}

#[test]
fn mod_negative_calendar_dates() {
    // yes
    assert_eq!(
        Edtf::parse("-1900-07-05"),
        Ok(Edtf::Date(Date::from_ymd(-1900, 7, 5)))
    );
    assert_eq!(
        Edtf::parse("-9999-07-05"),
        Ok(Edtf::Date(Date::from_ymd(-9999, 7, 5)))
    );
    // no - fewer than four digits
    assert_eq!(Edtf::parse("-999-07-05"), Err(ParseError::Invalid));
    // no - negative zero not allowed
    assert_eq!(Edtf::parse("-0000-07-05"), Err(ParseError::Invalid));
}

#[test]
fn test_negative_calendar_dates() {
    // yes
    assert_eq!(
        Edtf::parse("-1900-07-05"),
        Ok(Edtf::Date(Date::from_ymd(-1900, 7, 5)))
    );
    assert_eq!(
        Edtf::parse("-9999-07-05"),
        Ok(Edtf::Date(Date::from_ymd(-9999, 7, 5)))
    );
    assert_eq!(
        Edtf::parse("-0043-07-05"),
        Ok(Edtf::Date(Date::from_ymd(-43, 7, 5)))
    );
    // no - fewer than four digits
    assert_eq!(Edtf::parse("-999-07-05"), Err(ParseError::Invalid));
    // no - negative zero not allowed
    assert_eq!(Edtf::parse("-0000-07-05"), Err(ParseError::Invalid));
}

#[test]
fn validate_test_lossless_roundtrip() {
    // dates and uncertainties
    roundtrip("2019-08-17");
    roundtrip("2019-08");
    roundtrip("2019");
    roundtrip("2019-08-17?");
    roundtrip("2019-08?");
    roundtrip("2019?");
    roundtrip("2019-08-17~");
    roundtrip("2019-08%");
    roundtrip("2019%");
    // funky years
    roundtrip("0043-08");
    roundtrip("-0043-08");
    // timezones
    roundtrip("2019-08-17T23:59:30");
    roundtrip("2019-08-17T23:59:30Z");
    roundtrip("2019-08-17T01:56:00+04:30");
    roundtrip("2019-08-17T23:59:30+00");
    roundtrip("2019-08-17T23:59:30+04");
    roundtrip("2019-08-17T23:59:30-04");
    roundtrip("2019-08-17T23:59:30+00:00");
    roundtrip("2019-08-17T23:59:30+00:05");
    roundtrip("2019-08-17T23:59:30+23:59");
    roundtrip("2019-08-17T23:59:30-10:00");
    roundtrip("2019-08-17T23:59:30-10:19");
}

#[test]
fn validate_leap_second() {
    roundtrip("2019-08-17T23:59:60Z");
    // leap seconds are always inserted at 23:59:60.
    assert_eq!(
        Edtf::parse("2019-08-17T22:59:60Z"),
        Err(ParseError::OutOfRange),
    );
    assert_eq!(
        Edtf::parse("2019-08-17T23:58:60Z"),
        Err(ParseError::OutOfRange),
    );
}

#[test]
fn api_leap_second() {
    roundtrip("2019-08-17T23:59:60Z");
}

#[test]
fn leap_second_non_23_59() {
    assert_eq!(
        Edtf::parse("2019-08-17T22:59:60Z"),
        Err(ParseError::OutOfRange),
    );
    assert_eq!(
        Edtf::parse("2019-08-17T23:58:60Z"),
        Err(ParseError::OutOfRange),
    );
}

#[test]
fn validate_match_precision() {
    let date = Date::parse("2019-09?").unwrap();
    assert_eq!(
        date.precision_certainty(),
        (Precision::Month(2019, 9), Certainty::Uncertain)
    );
}

#[test]
fn api_match_precision() {
    let date = Date::parse("2019-09?").unwrap();
    assert_eq!(date.precision(), Precision::Month(2019, 9));
}

#[test]
fn validate_masking_with_uncertain() {
    assert_eq!(
        Date::parse("201X?").unwrap().precision_certainty(),
        (Precision::Decade(2010), Certainty::Uncertain)
    );
    assert_eq!(
        Date::parse("2019-XX?").unwrap().precision_certainty(),
        (Precision::MonthOfYear(2019), Certainty::Uncertain)
    );
}

#[test]
fn api_masking_with_uncertain() {
    assert_eq!(Date::parse("201X?").unwrap().precision(), Precision::Decade(2010));
    assert_eq!(
        Date::parse("2019-XX?").unwrap().precision(),
        Precision::MonthOfYear(2019)
    );
}

fn check_ranges() {
    assert_eq!(
        Edtf::parse("2020/2021"),
        Ok(Edtf::Interval(Date::from_year(2020), Date::from_year(2021)))
    );
    assert_eq!(
        Edtf::parse("2020?/2021"),
        Ok(Edtf::Interval(
            Date::from_year(2020).and_certainty(Uncertain),
            Date::from_year(2021)
        ))
    );
}

#[test]
fn validate_ranges() {
    check_ranges();
}

#[test]
fn api_ranges() {
    check_ranges();
}

#[test]
fn extended_intervals() {
    let d = Date::from_year(2019);
    assert_eq!(Edtf::parse("2019/"), Ok(Edtf::IntervalFrom(d, Terminal::Unknown)));
    assert_eq!(Edtf::parse("2019/.."), Ok(Edtf::IntervalFrom(d, Terminal::Open)));
    assert_eq!(Edtf::parse("/2019"), Ok(Edtf::IntervalTo(Terminal::Unknown, d)));
    assert_eq!(Edtf::parse("../2019"), Ok(Edtf::IntervalTo(Terminal::Open, d)));
    assert_eq!(Edtf::parse("../.."), Err(ParseError::Invalid));
    assert_eq!(Edtf::parse("/"), Err(ParseError::Invalid));
    assert_eq!(Edtf::parse("2019/2020/2021"), Err(ParseError::Invalid));
    for s in ["2019/", "2019/..", "/2019-05~", "../2019-XX", "2019-01-07~/2020-01?", "2019-01-XX~/2020-01?"] {
        roundtrip(s);
    }
    assert_eq!(
        Edtf::parse("2019/..").unwrap().as_interval(),
        Some((MatchTerminal::Fixed(Precision::Year(2019), Certain), MatchTerminal::Open))
    );
    assert_eq!(
        Edtf::parse("/2019-21?").unwrap().as_matcher(),
        Matcher::Interval(
            MatchTerminal::Unknown,
            MatchTerminal::Fixed(Precision::Season(2019, Season::Spring), Uncertain)
        )
    );
}

#[test]
fn y_years() {
    assert_eq!(Edtf::parse("Y157900"), Ok(Edtf::YYear(YYear::new(157900))));
    assert_eq!(Edtf::parse("Y1234567890"), Ok(Edtf::YYear(YYear::new(1234567890))));
    assert_eq!(Edtf::parse("Y-1234567890"), Ok(Edtf::YYear(YYear::new(-1234567890))));
    assert_eq!(Edtf::parse("Y1745"), Err(ParseError::Invalid));
    assert_eq!(Edtf::parse("Y01745"), Err(ParseError::Invalid));
    assert_eq!(Edtf::parse("Y99999999999999999999"), Err(ParseError::Invalid));
    assert_eq!(Edtf::parse("Y12345-01"), Err(ParseError::Invalid));
    roundtrip("Y-170000002");
    assert_eq!(Edtf::parse("Y012345").unwrap().to_string(), "Y12345");
    assert_eq!(Edtf::parse("Y-17000").unwrap().as_matcher(), Matcher::Scientific(-17000));
    assert_eq!(YYear::new_opt(12345).map(YYear::value), Some(12345));
    assert_eq!(YYear::new_opt(9999), None);
    assert_eq!(YYear::new_opt(-9999), None);
    assert_eq!(YYear::new(-10000).year(), -10000);
    assert_eq!(YYear::new_or_cal(2019), Err(Edtf::Date(Date::from_year(2019))));
    assert_eq!(YYear::new_or_cal(20190), Ok(YYear::new(20190)));
    assert_eq!(YYear::new(20190).to_string(), "Y20190");
}

#[test]
fn date_accessors() {
    let d = Date::parse("2019-07-XX~").unwrap();
    assert_eq!(d.year(), 2019);
    assert_eq!(d.month(), Some(Component::Value(7)));
    assert_eq!(d.day(), Some(Component::Unspecified));
    assert_eq!(d.certainty(), Approximate);
    assert_eq!(d.season(), None);
    assert_eq!(d.complete(), None);
    assert_eq!(d.to_string(), "2019-07-XX~");
    let s = Date::parse("2019-23").unwrap();
    assert_eq!(s.season(), Some(Season::Autumn));
    assert_eq!(s.month(), None);
    assert_eq!(s.precision(), Precision::Season(2019, Season::Autumn));
    let c = Date::parse("2020-02-29").unwrap();
    assert_eq!(c.complete(), Some(DateComplete::from_ymd(2020, 2, 29)));
    assert_eq!(Date::from_complete(DateComplete::from_ymd(2020, 2, 29)), c);
    assert_eq!(Date::from_ymd_opt(2019, 2, 29), None);
    assert_eq!(Date::from_ymd_opt(2019, 0, 3), None);
    assert_eq!(Date::from_ymd_opt(2019, 21, 0), Some(Date::parse("2019-21").unwrap()));
    assert_eq!(Date::from_ym(2019, 5), Date::parse("2019-05").unwrap());
    assert!(Date::year_in_range(134217726));
    assert!(!Date::year_in_range(i32::MAX >> 4));
    assert!(!Date::year_in_range(134217727));
    assert!(Date::year_in_range(-134217728));
    assert!(!Date::year_in_range(-134217729));
    assert_eq!(Component::Value(5).value(), Some(5));
    assert_eq!(Component::Unspecified.value(), None);
}

#[test]
fn from_precision_values() {
    let date = Date::from_precision(Precision::Century(1900)).and_certainty(Uncertain);
    assert_eq!(date.to_string(), "19XX?");
    assert_eq!(Date::from_precision_opt(Precision::DayOfYear(1908)), Date::parse("1908-XX-XX").ok());
    assert_eq!(Date::from_precision(Precision::Century(-2019)).to_string(), "-20XX");
    assert_eq!(Date::from_precision(Precision::Decade(1987)).to_string(), "198X");
    assert_eq!(Date::from_precision(Precision::Season(2001, Season::Winter)).to_string(), "2001-24");
    assert_eq!(Date::from_precision(Precision::Day(2001, 2, 3)).to_string(), "2001-02-03");
    assert_eq!(Date::from_precision_opt(Precision::Day(2001, 2, 30)), None);
    assert_eq!(Date::from_precision_opt(Precision::Month(2001, 13)), None);
    assert_eq!(Date::from_precision_opt(Precision::Month(2001, 256)), None);
    assert_eq!(Date::from_precision_opt(Precision::Year(200_000_000)), None);
    let d1 = Date::from_precision(Precision::DayOfMonth(2021, 6));
    let d2 = Date::from_precision(Precision::Day(2021, 6, 9));
    assert!(d1 < d2);
}
