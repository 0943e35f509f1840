use edtf::level_1::sorting::sort_order;
use edtf::level_1::Edtf;
use std::cmp::Ordering;

fn cmp(a: &str, b: &str) -> Ordering {
    sort_order(&Edtf::parse(a).unwrap(), &Edtf::parse(b).unwrap())
}

#[test]
fn test_cmp_single() {
    assert_eq!(cmp("2009", "2010"), Ordering::Less);
    assert_eq!(cmp("2011", "2010"), Ordering::Greater);
    assert_eq!(cmp("2010", "2010"), Ordering::Equal);
    assert_eq!(cmp("2010-08", "2010"), Ordering::Greater);
    assert_eq!(cmp("2010-08", "2010-09"), Ordering::Less);
    assert_eq!(cmp("2010-08", "2010-08"), Ordering::Equal);
}

#[test]
fn test_cmp_single_interval() {
    assert_eq!(cmp("2009", "2010/2011"), Ordering::Less);
    assert_eq!(cmp("2011", "2009/2011"), Ordering::Greater);
    assert_eq!(cmp("2010", "2010/2010"), Ordering::Equal);
    assert_eq!(cmp("2010", "2010/2011"), Ordering::Less);
    assert_eq!(cmp("2010-08", "2010/2011"), Ordering::Greater);
}

#[test]
fn test_cmp_double_interval() {
    assert_eq!(cmp("2009/2011", "2010/2011"), Ordering::Less);
    assert_eq!(cmp("2009/2011", "2011/2012",), Ordering::Less);
    assert_eq!(cmp("2009/2011", "2010/2012"), Ordering::Less);
    assert_eq!(cmp("2009/2011", "2012/2013"), Ordering::Less);
    assert_eq!(cmp("2009/2011", "2009-03/2010-07"), Ordering::Less);
}

#[test]
fn test_cmp_double_interval_open() {
    assert_eq!(cmp("../2011", "2010/2011"), Ordering::Less);
    assert_eq!(cmp("../2011", "../2011"), Ordering::Equal);
    assert_eq!(cmp("../2011", "2010/2011"), Ordering::Less);
    assert_eq!(cmp("2010/..", "2010/2011",), Ordering::Greater);
}

#[test]
fn test_cmp_yyear() {
    assert_eq!(cmp("Y-10000", "2010"), Ordering::Less);
    assert_eq!(cmp("Y10000", "2010"), Ordering::Greater);
    assert_eq!(cmp("Y10000", "2010/.."), Ordering::Greater);
    assert_eq!(cmp("Y-10000", "2010/.."), Ordering::Less);
    assert_eq!(cmp("Y-10000", "../2010"), Ordering::Greater);
}

#[test]
fn test_cmp_datetime() {
    assert_eq!(cmp("2010-08-12T00:00:00Z", "2010-08-12"), Ordering::Equal);
    assert_eq!(
        cmp("2010-08-12T00:00:00Z", "2010-08-12T00:00:05Z"),
        Ordering::Less
    );
    assert_eq!(
        cmp("2010-08-12T00:00:00Z", "2010-08-12T00:00:00-01:00"),
        Ordering::Less
    );
    assert_eq!(
        cmp("2010-08-12T23:50:00-01:00", "2010-08-13"),
        Ordering::Greater
    );
}

#[test]
fn sort_order_is_antisymmetric_on_examples() {
    let pairs = [
        ("2009", "2010/2011"),
        ("Y-10000", "../2010"),
        ("2010-08-12T23:50:00-01:00", "2010-08-13"),
        ("2010/..", "2010/2011"),
    ];
    for (a, b) in pairs.iter() {
        assert_eq!(cmp(a, b), cmp(b, a).reverse());
    }
}

#[test]
fn sort_order_wrappers_agree() {
    let a = Edtf::parse("2009/2011").unwrap();
    let b = Edtf::parse("2010/2011").unwrap();
    assert_eq!(a.sort_order().compare(&b.sort_order()), Ordering::Less);
    assert_eq!(
        a.sort_order_start().compare(&b.sort_order_start()),
        Ordering::Less
    );
    assert_eq!(
        a.sort_order_end().compare(&b.sort_order_end()),
        Ordering::Equal
    );
}

#[test]
fn datetime_offsets_shift_the_instant() {
    // 00:30 at +01:00 is 23:30 the day before in UTC
    assert_eq!(
        cmp("2010-08-12T00:30:00+01:00", "2010-08-12"),
        Ordering::Less
    );
    assert_eq!(
        cmp("2010-08-12T00:30:00+01:00", "2010-08-11T23:30:00Z"),
        Ordering::Equal
    );
}
