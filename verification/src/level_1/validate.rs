//! Validation of written level 1 dates: which months, days and `X` digits make a date.

use vstd::prelude::*;

use crate::calendar::{is_valid_complete_date, spec_valid_date};
use crate::ParseError;
use super::packed::{
    lemma_packed_u8_roundtrip, lemma_packed_year_roundtrip, year_range_ok, DMFlags, DMMask,
    PackedU8, PackedYear, YearFlags, YearMask,
};
use super::{
    dm_packable, dm_raw, dm_stored, dm_value, masks_ok, spec_validate_date, values_rule, Certainty,
    Date, UnvalidatedDMEnum, UnvalidatedDate,
};

verus! {

/// Stores an optional month or day: its byte, 0 when absent, or `OutOfRange` when it is
/// not `XX` and not 1..=31.
fn dm_validate(e: Option<UnvalidatedDMEnum>) -> (r: Result<u8, ParseError>)
    ensures
        r is Ok <==> dm_packable(e),
        r matches Ok(b) ==> b == dm_raw(e),
        r is Err ==> r == Err::<u8, ParseError>(ParseError::OutOfRange),
{
    match e {
        None => Ok(0),
        Some(x) => {
            let (v, flags) = match x {
                UnvalidatedDMEnum::Unspecified => (
                    1u8,
                    DMFlags { certainty: Certainty::Certain, mask: DMMask::Unspecified },
                ),
                UnvalidatedDMEnum::Unmasked(v) => (
                    v,
                    DMFlags { certainty: Certainty::Certain, mask: DMMask::Unmasked },
                ),
            };
            match PackedU8::pack(v, flags) {
                Some(p) => Ok(p.0),
                None => Err(ParseError::OutOfRange),
            }
        },
    }
}

/// The `X` rules of [masks_ok].
fn check_masks(
    ymask: YearMask,
    month: Option<UnvalidatedDMEnum>,
    day: Option<UnvalidatedDMEnum>,
) -> (r: bool)
    ensures
        r == masks_ok(ymask, month, day),
{
    let mm = matches!(month, Some(UnvalidatedDMEnum::Unspecified));
    let dm = matches!(day, Some(UnvalidatedDMEnum::Unspecified));
    match ymask {
        YearMask::Unmasked => {},
        _ => return month.is_none() && day.is_none(),
    }
    match (month, day) {
        (None, None) => true,
        (Some(_), None) => true,
        (Some(_), Some(_)) => !mm || dm,
        (None, Some(_)) => false,
    }
}

/// The value of a month or day unless it is `XX` or absent.
fn value_of(e: Option<UnvalidatedDMEnum>) -> (r: Option<u8>)
    ensures
        match dm_value(e) {
            Some(v) => r == Some(v as u8),
            None => r is None,
        },
{
    match e {
        Some(UnvalidatedDMEnum::Unmasked(v)) => Some(v),
        _ => None,
    }
}

/// The value rules of [values_rule].
fn check_values(year: i32, month: Option<u8>, day: Option<u8>, day_written: bool) -> (r: Result<
    (),
    ParseError,
>)
    ensures
        r == values_rule(
            year as int,
            match month {
                Some(m) => Some(m as int),
                None => None,
            },
            match day {
                Some(d) => Some(d as int),
                None => None,
            },
            day_written,
        ),
{
    match (month, day) {
        (Some(m), Some(d)) => {
            if m > 12 {
                Err(ParseError::Invalid)
            } else if 1 <= m && is_valid_complete_date(year, m, d).is_ok() {
                Ok(())
            } else {
                Err(ParseError::OutOfRange)
            }
        },
        (Some(m), None) => {
            if 1 <= m && m <= 12 {
                Ok(())
            } else if 21 <= m && m <= 24 {
                if day_written {
                    Err(ParseError::Invalid)
                } else {
                    Ok(())
                }
            } else {
                Err(ParseError::OutOfRange)
            }
        },
        (None, None) => Ok(()),
        (None, Some(_)) => Err(ParseError::OutOfRange),
    }
}

/// A validated date reads back as the way it was written.
pub proof fn lemma_written_roundtrip(u: UnvalidatedDate)
    requires
        spec_validate_date(u) is Ok,
    ensures
        spec_validate_date(u)->Ok_0.written() == u,
        spec_validate_date(u)->Ok_0.wf(),
{
    let d = spec_validate_date(u)->Ok_0;
    lemma_packed_year_roundtrip(
        u.year,
        YearFlags { certainty: Certainty::Certain, mask: u.year_mask },
    );
    if let Some(x) = u.month {
        lemma_packed_u8_roundtrip(dm_stored(x) as u8, super::dm_flags_for(x));
    }
    if let Some(x) = u.day {
        lemma_packed_u8_roundtrip(dm_stored(x) as u8, super::dm_flags_for(x));
    }
    assert(d.written() == u);
}

impl UnvalidatedDate {
    /// Checks a written date; see [spec_validate_date] for the rules and their order.
    pub fn validate(self) -> (r: Result<Date, ParseError>)
        ensures
            r == spec_validate_date(self),
    {
        let month = match dm_validate(self.month) {
            Ok(b) => b,
            Err(e) => return Err(e),
        };
        let day = match dm_validate(self.day) {
            Ok(b) => b,
            Err(e) => return Err(e),
        };
        if self.month.is_none() && self.day.is_some() {
            return Err(ParseError::OutOfRange);
        }
        if !check_masks(self.year_mask, self.month, self.day) {
            return Err(ParseError::Invalid);
        }
        match check_values(self.year, value_of(self.month), value_of(self.day), self.day.is_some()) {
            Ok(_) => {},
            Err(e) => return Err(e),
        }
        let flags = YearFlags { certainty: Certainty::Certain, mask: self.year_mask };
        let year = match PackedYear::pack(self.year, flags) {
            Some(p) => p,
            None => return Err(ParseError::OutOfRange),
        };
        proof {
            lemma_written_roundtrip(self);
        }
        Ok(Date { year, month, day, certainty: self.certainty })
    }
}

} // verus!
