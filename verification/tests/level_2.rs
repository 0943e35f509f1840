use edtf::level_2::{n_base10_digits, Date, Edtf, ScientificYear};
use edtf::ParseError;

#[test]
fn test_n_base10_digits() {
    assert_eq!(n_base10_digits(0), 1);
    assert_eq!(n_base10_digits(5), 1);
    assert_eq!(n_base10_digits(52), 2);
    assert_eq!(n_base10_digits(50), 2);
    assert_eq!(n_base10_digits(1000), 4);
    assert_eq!(n_base10_digits(1204), 4);
    assert_eq!(n_base10_digits(-0), 1);
    assert_eq!(n_base10_digits(-5), 1);
    assert_eq!(n_base10_digits(-52), 2);
    assert_eq!(n_base10_digits(-50), 2);
    assert_eq!(n_base10_digits(-1000), 4);
    assert_eq!(n_base10_digits(-1204), 4);
}

#[test]
fn n_base10_digits_extremes() {
    assert_eq!(n_base10_digits(i64::MAX), 19);
    assert_eq!(n_base10_digits(i64::MIN), 19);
}

#[test]
fn scientific_value() {
    let val = ScientificYear::new(17, 7, 3);
    assert_eq!(val.value(), 17 * 10i64.pow(7));
}

#[test]
fn scientific_no_lt_5_digits() {
    let val = ScientificYear::new_or_cal(17, 0, 0);
    assert_eq!(val, Err(Some(Edtf::Date(Date::Placeholder))));
    let val = ScientificYear::auto_opt(17).as_ref().map(ScientificYear::to_string);
    assert_eq!(val, None);
}

#[test]
fn truncate_sd() {
    assert_eq!(
        ScientificYear::new(53, 3, 8),
        ScientificYear::raw(53, Some(3), Some(5)),
    );
    assert_eq!(
        ScientificYear::new(-53, 3, 8),
        ScientificYear::raw(-53, Some(3), Some(5)),
    );
}

#[test]
fn constructors() {
    assert_eq!(
        ScientificYear::new(53, 0, 2),
        ScientificYear::raw(53, None, Some(2)),
    );
    assert_eq!(
        ScientificYear::new_or_cal(53, 0, 0),
        Err(Some(Edtf::Date(Date::Placeholder)))
    );
    assert_eq!(
        ScientificYear::new(53, 0, 8),
        ScientificYear::raw(53, None, Some(2)),
    );
    assert_eq!(
        ScientificYear::new(53, 2, 0),
        ScientificYear::raw(53, Some(2), None),
    );
}

#[test]
fn auto() {
    assert_eq!(
        ScientificYear::auto(530),
        ScientificYear::raw(53, Some(1), None),
    );
    assert_eq!(ScientificYear::auto_opt(53), None,);
}

#[test]
fn scientific_l2() {
    assert_eq!(
        Edtf::parse("Y17E7"),
        Ok(Edtf::Scientific(ScientificYear::new(17, 7, 0)))
    );
    assert_eq!(
        Edtf::parse("Y17E7S3"),
        Ok(Edtf::Scientific(ScientificYear::new(17, 7, 3)))
    );
    assert_eq!(
        Edtf::parse("Y-17E7"),
        Ok(Edtf::Scientific(ScientificYear::new(-17, 7, 0)))
    );
    assert_eq!(
        Edtf::parse("Y-17E7S3"),
        Ok(Edtf::Scientific(ScientificYear::new(-17, 7, 3)))
    );
    assert_eq!(
        Edtf::parse("Y1745E1S3"),
        Ok(Edtf::Scientific(ScientificYear::new(1745, 1, 3)))
    );
    assert_eq!(
        Edtf::parse("Y1745E0S3"),
        Ok(Edtf::Scientific(ScientificYear::new(1745, 0, 3)))
    );
    assert_eq!(
        Edtf::parse("Y157900S3"),
        Ok(Edtf::Scientific(ScientificYear::new(157900, 0, 3)))
    );
    assert_eq!(
        Edtf::parse("Y-157900"),
        Ok(Edtf::Scientific(ScientificYear::new(-157900, 0, 0)))
    );
    assert_eq!(
        Edtf::parse("Y-157900S3"),
        Ok(Edtf::Scientific(ScientificYear::new(-157900, 0, 3)))
    );
    assert_eq!(
        Edtf::parse("Y157900E3"),
        Ok(Edtf::Scientific(ScientificYear::new(157900, 3, 0)))
    );
    assert_eq!(
        Edtf::parse("Y157900E3S3"),
        Ok(Edtf::Scientific(ScientificYear::new(157900, 3, 3)))
    );
    assert_eq!(
        Edtf::parse("Y-157900E3"),
        Ok(Edtf::Scientific(ScientificYear::new(-157900, 3, 0)))
    );
    assert_eq!(
        Edtf::parse("Y-157900E3S3"),
        Ok(Edtf::Scientific(ScientificYear::new(-157900, 3, 3)))
    );
    assert_eq!(Edtf::parse("Y1745"), Err(ParseError::Invalid));
    assert_eq!(Edtf::parse("Y1745S3"), Err(ParseError::Invalid));
    assert_eq!(Edtf::parse("Y17E200"), Err(ParseError::Invalid));
    assert_eq!(Edtf::parse("Y12345S7"), Err(ParseError::Invalid));
    assert_eq!(
        Edtf::parse("1234S2"),
        Ok(Edtf::Scientific(ScientificYear::new(1234, 0, 2)))
    );
    assert_eq!(
        Edtf::parse("-1234S2"),
        Ok(Edtf::Scientific(ScientificYear::new(-1234, 0, 2)))
    );
}

#[test]
fn range_examples() {
    let year = ScientificYear::new(1950, 0, 2);
    assert_eq!(year.range(), 1900..=1999);
    assert_eq!(year.value(), 1950);
    assert_eq!(ScientificYear::new(195, 1, 0).range(), 1950..=1950);
    assert_eq!(ScientificYear::new(1950, 0, 1).range(), 1000..=1999);
    assert_eq!(ScientificYear::new(1950, 0, 3).range(), 1950..=1959);
    assert_eq!(ScientificYear::new(1950, 0, 4).range(), 1950..=1950);
    let year = ScientificYear::new(171_010_000, 0, 3);
    assert_eq!(year.range(), 171_000_000..=171_999_999);
    assert_eq!(year.value(), 171_010_000);
    let year = ScientificYear::new(3388, 2, 3);
    assert_eq!(year.range(), 338_000..=338_999);
    assert_eq!(year.value(), 338_800);
    let year = ScientificYear::new(1950, 0, 2);
    assert!(year.range().contains(&1999));
    assert!(year.range().contains(&1940));
    assert!(!year.range().contains(&1800));
}

#[test]
fn range_of_negative_year_contains_it() {
    let y = ScientificYear::new(-1950, 0, 2);
    assert_eq!(y.range(), -1999..=-1900);
    assert!(y.range().contains(&y.value()));
    assert_eq!(ScientificYear::new(-3388, 2, 3).range(), -338_999..=-338_000);
    assert_eq!(ScientificYear::new(-17, 7, 0).range(), -170_000_000..=-170_000_000);
}

#[test]
fn new_or_cal_examples() {
    let ex = ScientificYear::new_or_cal(12345, 5, 0).map(|x| x.to_string());
    assert_eq!(ex, Ok("Y12345E5".to_string()));
    let ex = ScientificYear::new_or_cal(12, 5, 0).map(|x| x.to_string());
    assert_eq!(ex, Ok("Y12E5".to_string()));
    let ex = ScientificYear::new_or_cal(123, 1, 0).map(|x| x.to_string());
    assert_eq!(ex, Ok("Y123E1".to_string()));
    let ex = ScientificYear::new_or_cal(1234, 0, 0).map(|x| x.to_string());
    assert_eq!(ex, Err(Some(Edtf::Date(Date::Placeholder))));
    assert_eq!(ScientificYear::new_or_cal(10, 20, 0), Err(None));
}

#[test]
fn auto_examples() {
    assert_eq!(ScientificYear::auto(1_700_000), ScientificYear::new(17, 5, 0));
    assert_eq!(
        ScientificYear::auto_opt(1_700_000),
        Some(ScientificYear::new(17, 5, 0))
    );
    assert_eq!(
        ScientificYear::auto_opt(-1_700_000),
        Some(ScientificYear::new(-17, 5, 0))
    );
    assert_eq!(ScientificYear::auto_opt(1750), Some(ScientificYear::new(175, 1, 0)));
    assert_eq!(ScientificYear::auto_opt(1751), None);
    // two trailing zeros on a long year stay in the mantissa
    assert_eq!(
        ScientificYear::auto_opt(1_234_500),
        Some(ScientificYear::raw(1_234_500, None, None))
    );
    assert_eq!(
        ScientificYear::auto(1_700_000).and_sd(3),
        ScientificYear::new(17, 5, 3)
    );
}

#[test]
fn normalise_keeps_value_and_digits() {
    let y = ScientificYear::raw(1_700_000, None, Some(3));
    let n = y.normalise();
    assert_eq!(n, ScientificYear::raw(17, Some(5), Some(3)));
    assert_eq!(n.value(), y.value());
}

#[test]
fn accessors_and_strings() {
    let y = ScientificYear::new(-17, 7, 3);
    assert_eq!(y.mantissa(), -17);
    assert_eq!(y.exponent(), 7);
    assert_eq!(y.sig_digits(), 3);
    assert_eq!(y.to_string(), "Y-17E7S3");
    assert_eq!(ScientificYear::new(1234, 0, 2).to_string(), "Y1234S2");
    match Edtf::parse("Y-157900E3S3").unwrap() {
        Edtf::Scientific(y) => assert_eq!(y.to_string(), "Y-157900E3S3"),
        other => panic!("{:?}", other),
    }
}

#[test]
fn level_2_parses_only_scientific_years() {
    assert_eq!(Edtf::parse("2019-07-05"), Err(ParseError::Invalid));
    assert_eq!(Edtf::parse("garbage"), Err(ParseError::Invalid));
    assert_eq!(Edtf::parse("Y17E7 "), Err(ParseError::Invalid));
}

#[test]
fn format_then_parse_gives_the_year_back() {
    let years = [
        ScientificYear::new(17, 7, 3),
        ScientificYear::new(-17, 7, 0),
        ScientificYear::new(157900, 0, 3),
        ScientificYear::new(-157900, 3, 3),
        ScientificYear::raw(0, Some(5), None),
        ScientificYear::new(i64::MAX, 0, 0),
    ];
    for y in years.iter() {
        assert_eq!(Edtf::parse(&y.to_string()), Ok(Edtf::Scientific(*y)));
    }
    // a short mantissa needs an exponent to be a Y-year
    let short = ScientificYear::new(53, 0, 2);
    assert_eq!(Edtf::parse(&short.to_string()), Err(ParseError::Invalid));
}

fn reformat(s: &str) -> String {
    match Edtf::parse(s).unwrap() {
        Edtf::Scientific(y) => y.to_string(),
        other => panic!("{:?}", other),
    }
}

#[test]
fn y_years_format_losslessly() {
    for s in ["Y17E7", "Y-17E7S3", "Y157900", "Y-157900S3", "Y157900E3S3", "Y0E5", "Y1745E1S3"]
        .iter()
    {
        assert_eq!(reformat(s), *s);
    }
}

#[test]
fn noncanonical_texts_are_rewritten() {
    assert_eq!(reformat("1234S2"), "Y1234S2");
    assert_eq!(reformat("Y017E7"), "Y17E7");
    assert_eq!(reformat("Y17E07"), "Y17E7");
    assert_eq!(reformat("Y12345S03"), "Y12345S3");
    assert_eq!(reformat("Y-0E5"), "Y0E5");
    assert_eq!(reformat("Y12345E0"), "Y12345");
}
