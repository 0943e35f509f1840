use edtf::level_1::packed::YearMask;
use edtf::level_1::parser::date_certainty;
use edtf::level_1::Certainty::{Approximate, Certain, Uncertain};
use edtf::level_1::{UnvalidatedDMEnum, UnvalidatedDate};

fn read(s: &str) -> Option<(UnvalidatedDate, usize)> {
    date_certainty(s.as_bytes(), 0)
}

#[test]
fn parser_unspecified_date() {
    assert_eq!(
        read("2019-XX"),
        Some((
            UnvalidatedDate {
                year: 2019,
                year_mask: YearMask::Unmasked,
                month: Some(UnvalidatedDMEnum::Unspecified),
                day: None,
                certainty: Certain,
            },
            7
        ))
    );
}

#[test]
fn parser_uncertain_date() {
    assert_eq!(
        read("2019?"),
        Some((
            UnvalidatedDate {
                year: 2019,
                year_mask: YearMask::Unmasked,
                month: None,
                day: None,
                certainty: Uncertain,
            },
            5
        ))
    );
    assert_eq!(
        read("2019-05~"),
        Some((
            UnvalidatedDate {
                year: 2019,
                year_mask: YearMask::Unmasked,
                month: Some(UnvalidatedDMEnum::Unmasked(5)),
                day: None,
                certainty: Approximate,
            },
            8
        ))
    );
    assert_eq!(
        read("2019-05?"),
        Some((
            UnvalidatedDate {
                year: 2019,
                year_mask: YearMask::Unmasked,
                month: Some(UnvalidatedDMEnum::Unmasked(5)),
                day: None,
                certainty: Uncertain,
            },
            8
        ))
    );
    assert_eq!(
        read("2019-05-09~"),
        Some((
            UnvalidatedDate {
                year: 2019,
                year_mask: YearMask::Unmasked,
                month: Some(UnvalidatedDMEnum::Unmasked(5)),
                day: Some(UnvalidatedDMEnum::Unmasked(9)),
                certainty: Approximate,
            },
            11
        ))
    );
    assert_eq!(
        read("2019-05-09"),
        Some((
            UnvalidatedDate {
                year: 2019,
                year_mask: YearMask::Unmasked,
                month: Some(UnvalidatedDMEnum::Unmasked(5)),
                day: Some(UnvalidatedDMEnum::Unmasked(9)),
                certainty: Certain,
            },
            10
        ))
    );
}

#[test]
fn parser_masked_year_and_prefix() {
    // 19XX is the nineteen-hundreds with two masked digits; reading stops before the '/'
    assert_eq!(
        read("19XX/2000"),
        Some((
            UnvalidatedDate {
                year: 1900,
                year_mask: YearMask::TwoDigits,
                month: None,
                day: None,
                certainty: Certain,
            },
            4
        ))
    );
    assert_eq!(read("X019"), None);
}
