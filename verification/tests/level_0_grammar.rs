use edtf::common::{UnvalidatedTime, UnvalidatedTz};
use edtf::level_0::{level0, ParsedEdtf0};

fn time(hh: u8, mm: u8, ss: u8, tz: UnvalidatedTz) -> UnvalidatedTime {
    UnvalidatedTime { hh, mm, ss, tz }
}

fn check_level0_grammar() {
    assert_eq!(
        level0(b"2004-02-29T01:47:05"),
        Some(ParsedEdtf0::DateTime(
            (2004, 2, 29),
            time(1, 47, 5, UnvalidatedTz::Unspecified)
        ))
    );
    assert_eq!(
        level0(b"2004-02-29T01:47:00Z"),
        Some(ParsedEdtf0::DateTime(
            (2004, 2, 29),
            time(1, 47, 0, UnvalidatedTz::Utc)
        ))
    );
    assert_eq!(
        level0(b"2004-02-29T01:47:00+00:00"),
        Some(ParsedEdtf0::DateTime(
            (2004, 2, 29),
            time(1, 47, 0, UnvalidatedTz::HoursMinutes { positive: true, hh: 0, mm: 0 })
        ))
    );
    assert_eq!(
        level0(b"2004-02-29T01:47:00-04:30"),
        Some(ParsedEdtf0::DateTime(
            (2004, 2, 29),
            time(1, 47, 0, UnvalidatedTz::HoursMinutes { positive: false, hh: 4, mm: 30 })
        ))
    );
    assert_eq!(
        level0(b"2004-02-29/2009-07-16"),
        Some(ParsedEdtf0::Interval((2004, 2, 29), (2009, 7, 16)))
    );
    assert_eq!(
        level0(b"2004-02-29/2009-07"),
        Some(ParsedEdtf0::Interval((2004, 2, 29), (2009, 7, 0)))
    );
    assert_eq!(
        level0(b"2004/2009-07"),
        Some(ParsedEdtf0::Interval((2004, 0, 0), (2009, 7, 0)))
    );
}

#[test]
fn parser_parse_level0() {
    check_level0_grammar();
}

#[test]
fn level0_parse_level0() {
    check_level0_grammar();
}

#[test]
fn level0_grammar_rejects_trailing_text() {
    assert_eq!(level0(b"2004-02-29x"), None);
    assert_eq!(level0(b"2004-02-29T01:47"), None);
    assert_eq!(level0(b"2004-02-29"), Some(ParsedEdtf0::Date((2004, 2, 29))));
}
