use edtf::level_0::{date, Date, Edtf};
use edtf::{DateComplete, ParseError, Time, TzOffset};

#[test]
fn level0_date() {
    assert_eq!(Date::parse("1985-04-12"), Ok(Date::from_ymd(1985, 4, 12)));
    assert_eq!(Date::parse("1985-04"), Ok(Date::from_ymd(1985, 4, 0)));
    assert_eq!(Date::parse("1985"), Ok(Date::from_ymd(1985, 0, 0)));
}

#[test]
fn parser_date() {
    assert_eq!(Date::parse("1985-04-12"), Ok(Date::from_ymd(1985, 4, 12)));
    assert_eq!(Date::parse("1985-04"), Ok(Date::from_ymd(1985, 4, 0)));
    assert_eq!(Date::parse("1985"), Ok(Date::from_ymd(1985, 0, 0)));
}

#[test]
fn level0_date_remain() {
    assert_eq!(
        date("1985-04-12T12345"),
        Ok(("T12345", Date::from_ymd(1985, 4, 12)))
    );
    assert_eq!(
        date("1985-0489898989"),
        Ok(("89898989", Date::from_ymd(1985, 4, 0)))
    );
    assert_eq!(date("1985000"), Ok(("000", Date::from_ymd(1985, 0, 0))));
}

#[test]
fn parser_date_remain() {
    assert_eq!(
        date("1985-04-12T12345"),
        Ok(("T12345", Date::from_ymd(1985, 4, 12)))
    );
    assert_eq!(
        date("1985-0489898989"),
        Ok(("89898989", Date::from_ymd(1985, 4, 0)))
    );
    assert_eq!(date("1985000"), Ok(("000", Date::from_ymd(1985, 0, 0))));
}

#[test]
fn parser_date_invalid() {
    assert_eq!(Date::parse("1985000"), Err(ParseError::Invalid));
    assert_eq!(Date::parse("2003-02-29"), Err(ParseError::OutOfRange));
    assert_eq!(Date::parse("2003-02-28"), Ok(Date::from_ymd(2003, 2, 28)),);
    assert_eq!(Date::parse("2004-02-29"), Ok(Date::from_ymd(2004, 2, 29)),);
}

#[test]
fn level0_parse_values() {
    let e = Edtf::parse("2004-02-29T01:47:00-04:30").unwrap();
    let dt = e.as_datetime().unwrap();
    assert_eq!(dt.date(), DateComplete::from_ymd(2004, 2, 29));
    assert_eq!(dt.time(), Time::from_hmsz(1, 47, 0, TzOffset::Minutes(-270)));
    assert_eq!(
        Edtf::parse("2004-02-29/2009-07"),
        Ok(Edtf::Interval(Date::from_ymd(2004, 2, 29), Date::from_ymd(2009, 7, 0)))
    );
    assert_eq!(
        Edtf::parse("2004/2009-07").unwrap().as_interval(),
        Some((Date::from_ymd(2004, 0, 0), Date::from_ymd(2009, 7, 0)))
    );
    assert_eq!(Edtf::parse("2004-13"), Err(ParseError::OutOfRange));
    assert_eq!(Edtf::parse("2004-00"), Err(ParseError::Invalid));
    assert_eq!(Edtf::parse("2004/"), Err(ParseError::Invalid));
    assert_eq!(Edtf::parse("2004-02-29T24:00:00"), Err(ParseError::OutOfRange));
    assert_eq!(Edtf::parse("2004-02-29T01:47:00+24"), Err(ParseError::OutOfRange));
    assert_eq!(Edtf::parse("2ooo"), Err(ParseError::Invalid));
    assert_eq!(Edtf::parse("2004\u{e9}"), Err(ParseError::Invalid));
}

#[test]
fn level0_roundtrip() {
    for s in [
        "2019",
        "2019-08",
        "2019-08-17",
        "0001-01-01/9999-12-31",
        "2019-08-17T23:59:30",
        "2019-08-17T23:59:30Z",
        "2019-08-17T23:59:30+04",
        "2019-08-17T23:59:30-10:19",
    ] {
        assert_eq!(Edtf::parse(s).unwrap().to_string(), s);
    }
    // the sign of a zero offset is not kept
    assert_eq!(
        Edtf::parse("2019-08-17T23:59:30-00").unwrap().to_string(),
        "2019-08-17T23:59:30+00"
    );
}

#[test]
fn level0_accessors() {
    let d = Date::from_ymd_opt(2019, 7, 0).unwrap();
    assert_eq!((d.year(), d.month(), d.day()), (2019, 7, 0));
    assert_eq!(Date::from_ymd_opt(2019, 0, 5), None);
    assert_eq!(Date::from_ymd_opt(10000, 1, 1), None);
    assert_eq!(Date::from_ymd_opt(-1, 1, 1), None);
    assert_eq!(Date::from_ymd_opt(2019, 2, 29), None);
    let e = Edtf::Date(d);
    assert_eq!(e.as_date(), Some(d));
    assert_eq!(e.as_interval(), None);
    assert_eq!(e.as_datetime(), None);
}
