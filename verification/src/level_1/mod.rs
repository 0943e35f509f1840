//! # EDTF Level 1
//!
//! - Letter-prefixed calendar years of five or more digits: `Y170000002`, `Y-170000002`.
//! - Seasons: Spring=21, Summer=22, Autumn=23, Winter=24.
//! - Qualification of a whole date: `?` uncertain, `~` approximate, `%` both.
//! - Unspecified digits from the right: `201X`, `20XX`, `2004-XX`, `2004-07-XX`, `2004-XX-XX`.
//! - Extended intervals: `/2019`, `2019/` (unknown end) and `../2019`, `2019/..` (open end).
//! - Negative calendar years: `-1740`.

pub mod packed;
pub mod basic;
pub mod format;
pub mod iter;
pub mod parser;
pub mod sort_key;
pub mod sorting;
pub mod validate;

pub use packed::Certainty;

use vstd::prelude::*;

use crate::calendar::spec_valid_date;
use crate::DateTime;
use self::packed::{
    dm_flags_of, year_range_ok, DMFlags, DMMask, PackedU8, PackedYear, YearFlags, YearMask,
};

verus! {

/// An EDTF date. Represents a standalone date or one end of an interval.
///
/// The parts are packed: the year with its flags in one `i32`, and the month and the day in
/// one byte each, where 0 means that the part is absent. Equality and order are those of the
/// packed parts.
#[derive(Debug, Clone, Copy, PartialEq, Eq, PartialOrd, Ord, Hash, Structural)]
pub struct Date {
    pub(crate) year: PackedYear,
    pub(crate) month: u8,
    pub(crate) day: u8,
    pub(crate) certainty: Certainty,
}

/// Either an empty string (unknown start or end) or `..` in a level 1 interval.
#[derive(Debug, Clone, Copy, PartialEq, Eq, PartialOrd, Ord, Hash, Structural)]
pub enum Terminal {
    /// empty string before or after a slash, e.g. `/2019` or `2019/`
    Unknown,
    /// `..` in e.g. `../2019` or `2019/..`
    Open,
}

/// Fully represents EDTF Level 1. The representation is lossless.
#[derive(Debug, Clone, Copy, PartialEq, Eq, Hash, Structural)]
pub enum Edtf {
    /// A full timestamp. `2019-07-15T01:56:00Z`
    DateTime(DateTime),
    /// `2018`, `2019-07-09%`, `1973?`, `1956-XX`, etc
    Date(Date),
    /// `Y170000002`, `Y-170000002`: years outside -9999..=9999 only.
    YYear(YYear),
    /// `2018/2019`, `2019-12-31/2020-01-15`, etc
    Interval(Date, Date),
    /// `2019/..` (open), `2019/` (unknown)
    IntervalFrom(Date, Terminal),
    /// `../2019` (open), `/2019` (unknown)
    IntervalTo(Terminal, Date),
}

/// A season in [Precision]: Spring=21, Summer=22, Autumn=23, Winter=24.
#[derive(Debug, Clone, Copy, PartialEq, Eq, PartialOrd, Ord, Hash, Structural)]
pub enum Season {
    /// 21
    Spring,
    /// 22
    Summer,
    /// 23
    Autumn,
    /// 24
    Winter,
}

/// The number that stands for a season in a date.
pub open spec fn season_number(s: Season) -> int {
    match s {
        Season::Spring => 21,
        Season::Summer => 22,
        Season::Autumn => 23,
        Season::Winter => 24,
    }
}

/// The season of a number 21..=24.
pub open spec fn season_of(n: int) -> Season {
    if n == 21 {
        Season::Spring
    } else if n == 22 {
        Season::Summer
    } else if n == 23 {
        Season::Autumn
    } else {
        Season::Winter
    }
}

impl Season {
    /// The number of this season in a date, 21..=24.
    pub fn number(self) -> (r: u32)
        ensures
            r == season_number(self),
    {
        match self {
            Season::Spring => 21,
            Season::Summer => 22,
            Season::Autumn => 23,
            Season::Winter => 24,
        }
    }

    /// The season of a number 21..=24.
    pub fn from_u32(value: u32) -> (r: Self)
        requires
            21 <= value <= 24,
        ensures
            r == season_of(value as int),
            season_number(r) == value,
    {
        if value == 21 {
            Season::Spring
        } else if value == 22 {
            Season::Summer
        } else if value == 23 {
            Season::Autumn
        } else {
            Season::Winter
        }
    }

    /// The season of a number, or None when it is not 21..=24.
    pub fn from_u32_opt(value: u32) -> (r: Option<Self>)
        ensures
            r is Some <==> 21 <= value <= 24,
            r matches Some(s) ==> s == season_of(value as int) && season_number(s) == value,
    {
        if 21 <= value && value <= 24 {
            Some(Self::from_u32(value))
        } else {
            None
        }
    }
}

/// An enum used to conveniently match on a [Date]. The `i32` field in each is a year.
#[derive(Debug, Clone, Copy, PartialEq, Eq, Structural)]
pub enum Precision {
    /// `19XX` => `Century(1900)`.
    Century(i32),
    /// `193X` => `Decade(1930)`.
    Decade(i32),
    /// `1936` => `Year(1936)`.
    Year(i32),
    /// `1933-22` => `Season(1933, Season::Summer)`.
    Season(i32, Season),
    /// `1936-08` => `Month(1936, 08)`. Month is `1..=12`.
    Month(i32, u32),
    /// `1931-08-19` => `Day(1931, 08, 19)`; a full date.
    Day(i32, u32, u32),
    /// `1931-XX` => `MonthOfYear(1931)`; a non-specific month in a particular year.
    MonthOfYear(i32),
    /// `1931-XX-XX` => `DayOfYear(1931)`; a non-specific day in a particular year.
    DayOfYear(i32),
    /// `1931-08-XX` => `DayOfMonth(1931, 08)`; a non-specific day in a particular month.
    DayOfMonth(i32, u32),
}

/// Represents a 5+ digit, signed year like `Y12345`, `Y-17000`.
#[derive(Debug, Clone, Copy, PartialEq, Eq, Hash, Structural)]
pub struct YYear(pub(crate) i64);

/// A year of at most four digits: -9999..=9999.
pub open spec fn inside_9999(v: int) -> bool {
    -9999 <= v <= 9999
}

/// Specifies the number of Xs in `2019`/`201X`/`20XX`.
#[derive(Debug, Copy, Clone, PartialEq, Eq, Structural)]
pub enum YearDigits {
    /// `2019`
    NoX,
    /// `201X`
    X,
    /// `20XX`
    XX,
}

/// A possibly-unspecified date component (month or day).
#[derive(Debug, Copy, Clone, PartialEq, Eq, PartialOrd, Ord, Hash, Structural)]
pub enum Component {
    /// The component has a value that was specified in the EDTF
    Value(u32),
    /// An `-XX` masked out component
    Unspecified,
}

/// One end of an interval in a [Matcher].
#[derive(Debug, Copy, Clone, PartialEq, Eq, Structural)]
pub enum MatchTerminal {
    /// An actual date in an interval
    Fixed(Precision, Certainty),
    /// `..`
    Open,
    /// Null terminal. `/2020`
    Unknown,
}

/// An enum used to conveniently match on an [Edtf].
#[derive(Debug, Copy, Clone, PartialEq, Eq, Structural)]
pub enum Matcher {
    /// A single date with its precision and certainty.
    Date(Precision, Certainty),
    /// A timestamp.
    DateTime(DateTime),
    /// A `Y`-year.
    Scientific(i64),
    /// An interval; at least one end is [MatchTerminal::Fixed].
    Interval(MatchTerminal, MatchTerminal),
}

/// A month or day as written, before validation: `XX` or two digits.
#[derive(Debug, Copy, Clone, PartialEq, Eq, Structural)]
pub enum UnvalidatedDMEnum {
    /// `XX`
    Unspecified,
    /// Two digits.
    Unmasked(u8),
}

/// A date as written, before validation.
#[derive(Debug, Copy, Clone, PartialEq, Eq, Structural)]
pub struct UnvalidatedDate {
    /// The year, already multiplied out for `X` digits.
    pub year: i32,
    /// How many digits of the year are `X`.
    pub year_mask: YearMask,
    pub month: Option<UnvalidatedDMEnum>,
    pub day: Option<UnvalidatedDMEnum>,
    pub certainty: Certainty,
}

/// The flags a validated month or day carries.
pub open(crate) spec fn dm_flags_for(e: UnvalidatedDMEnum) -> DMFlags {
    match e {
        UnvalidatedDMEnum::Unspecified => DMFlags {
            certainty: Certainty::Certain,
            mask: DMMask::Unspecified,
        },
        UnvalidatedDMEnum::Unmasked(_) => DMFlags {
            certainty: Certainty::Certain,
            mask: DMMask::Unmasked,
        },
    }
}

/// The value stored for a month or day: 1 stands in for `XX`.
pub open(crate) spec fn dm_stored(e: UnvalidatedDMEnum) -> int {
    match e {
        UnvalidatedDMEnum::Unspecified => 1,
        UnvalidatedDMEnum::Unmasked(v) => v as int,
    }
}

/// A month or day that can be stored: `XX`, or a value 1..=31.
pub open(crate) spec fn dm_packable(e: Option<UnvalidatedDMEnum>) -> bool {
    match e {
        Some(x) => 1 <= dm_stored(x) <= 31,
        None => true,
    }
}

/// The byte stored for an optional month or day; 0 when absent.
pub open(crate) spec fn dm_raw(e: Option<UnvalidatedDMEnum>) -> u8 {
    match e {
        Some(x) => PackedU8::spec_pack(dm_stored(x), dm_flags_for(x)).0,
        None => 0,
    }
}

/// The value of a month or day unless it is `XX` or absent.
pub open(crate) spec fn dm_value(e: Option<UnvalidatedDMEnum>) -> Option<int> {
    match e {
        Some(UnvalidatedDMEnum::Unmasked(v)) => Some(v as int),
        _ => None,
    }
}

/// The `X` rules: only the rightmost digits of a date are unspecified. Allowed are no `X`
/// at all, `201X`/`20XX` without month, `2019-XX`, `2019-XX-XX` and `2019-07-XX`.
pub open(crate) spec fn masks_ok(
    ymask: YearMask,
    month: Option<UnvalidatedDMEnum>,
    day: Option<UnvalidatedDMEnum>,
) -> bool {
    let mm = month matches Some(UnvalidatedDMEnum::Unspecified);
    let dm = day matches Some(UnvalidatedDMEnum::Unspecified);
    if ymask != YearMask::Unmasked {
        month is None && day is None
    } else {
        match (month, day) {
            (None, None) => true,
            (Some(_), None) => true,
            (Some(_), Some(_)) => !mm || dm,
            (None, Some(_)) => false,
        }
    }
}

/// The rules on the values of month and day: a month 1..=12 or a season 21..=24 alone, a
/// month 1..=12 with a real day. A season with a day, `XX` included, is `Invalid`; other
/// values are `OutOfRange`. `XX` parts have no value; `day_written` says whether a day is
/// written at all.
pub open(crate) spec fn values_rule(
    year: int,
    month: Option<int>,
    day: Option<int>,
    day_written: bool,
) -> Result<(), crate::ParseError> {
    match (month, day) {
        (Some(m), Some(d)) => if m > 12 {
            Err(crate::ParseError::Invalid)
        } else if 1 <= m && spec_valid_date(year, m, d) {
            Ok(())
        } else {
            Err(crate::ParseError::OutOfRange)
        },
        (Some(m), None) => if 1 <= m <= 12 {
            Ok(())
        } else if 21 <= m <= 24 {
            if day_written {
                Err(crate::ParseError::Invalid)
            } else {
                Ok(())
            }
        } else {
            Err(crate::ParseError::OutOfRange)
        },
        (None, None) => Ok(()),
        (None, Some(_)) => Err(crate::ParseError::OutOfRange),
    }
}

/// What validating a written date gives, checking in this order: month and day can be
/// stored (`OutOfRange`), a day needs a month (`OutOfRange`), the `X` rules (`Invalid`), the
/// values, and the year fits (`OutOfRange`).
pub open(crate) spec fn spec_validate_date(u: UnvalidatedDate) -> Result<Date, crate::ParseError> {
    if !dm_packable(u.month) || !dm_packable(u.day) {
        Err(crate::ParseError::OutOfRange)
    } else if u.month is None && u.day is Some {
        Err(crate::ParseError::OutOfRange)
    } else if !masks_ok(u.year_mask, u.month, u.day) {
        Err(crate::ParseError::Invalid)
    } else {
        match values_rule(u.year as int, dm_value(u.month), dm_value(u.day), u.day is Some) {
            Err(e) => Err(e),
            Ok(_) => if !year_range_ok(u.year as int) {
                Err(crate::ParseError::OutOfRange)
            } else {
                Ok(
                    Date {
                        year: PackedYear::spec_pack(
                            u.year as int,
                            YearFlags { certainty: Certainty::Certain, mask: u.year_mask },
                        ),
                        month: dm_raw(u.month),
                        day: dm_raw(u.day),
                        certainty: u.certainty,
                    },
                )
            },
        }
    }
}

/// A stored month or day byte read back as written: `XX` or its value.
pub open(crate) spec fn dm_of_raw(raw: u8) -> Option<UnvalidatedDMEnum> {
    if raw == 0 {
        None
    } else if dm_flags_of((raw & 7) as int).mask == DMMask::Unspecified {
        Some(UnvalidatedDMEnum::Unspecified)
    } else {
        Some(UnvalidatedDMEnum::Unmasked((raw >> 3) as u8))
    }
}

impl Date {
    /// The date as it would be written.
    pub open(crate) spec fn written(self) -> UnvalidatedDate {
        UnvalidatedDate {
            year: self.year.spec_year() as i32,
            year_mask: self.year.spec_flags().mask,
            month: dm_of_raw(self.month),
            day: dm_of_raw(self.day),
            certainty: self.certainty,
        }
    }

    /// Every `Date` is exactly what validation makes of the way it is written.
    #[verifier::type_invariant]
    pub open(crate) spec fn wf(self) -> bool {
        spec_validate_date(self.written()) == Ok::<Date, crate::ParseError>(self)
    }

    /// The year.
    pub open(crate) spec fn spec_year(self) -> int {
        self.year.spec_year()
    }

    /// How many digits of the year are `X`.
    pub open(crate) spec fn spec_year_mask(self) -> YearMask {
        self.year.spec_flags().mask
    }

    /// The month as written: absent, `XX` or a value.
    pub open(crate) spec fn spec_month(self) -> Option<UnvalidatedDMEnum> {
        dm_of_raw(self.month)
    }

    /// The day as written: absent, `XX` or a value.
    pub open(crate) spec fn spec_day(self) -> Option<UnvalidatedDMEnum> {
        dm_of_raw(self.day)
    }

    /// The certainty of the whole date.
    pub open(crate) spec fn spec_certainty(self) -> Certainty {
        self.certainty
    }
}

} // verus!
