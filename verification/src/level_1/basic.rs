//! Parsing level 1 EDTF, building dates and reading them back.

use vstd::prelude::*;

use crate::calendar::spec_valid_date;
use crate::common::spec_datetime_validate;
use crate::text::{ascii_bytes, ascii_input, is_ascii_text};
use crate::{DateComplete, DateTime, ParseError};
use super::packed::{year_range_ok, PackedYear, YearFlags, YearMask};
use super::parser::{date_certainty, level1, sp_date_certainty, sp_level1, ParsedEdtf};
use super::{
    dm_of_raw, inside_9999, season_of, spec_validate_date, Certainty, Component, Date, Edtf,
    MatchTerminal, Matcher, Precision, Season, Terminal, UnvalidatedDMEnum, UnvalidatedDate,
    YYear, YearDigits,
};

verus! {

/// A level 1 EDTF from bytes: `Invalid` when the grammar does not match, else the first error
/// of validation (left end before right end), else the value.
pub open(crate) spec fn spec_parse1(s: Seq<u8>) -> Result<Edtf, ParseError> {
    match sp_level1(s) {
        None => Err(ParseError::Invalid),
        Some(ParsedEdtf::Date(d)) => match spec_validate_date(d) {
            Ok(x) => Ok(Edtf::Date(x)),
            Err(e) => Err(e),
        },
        Some(ParsedEdtf::YYear(v)) => if inside_9999(v as int) {
            Err(ParseError::Invalid)
        } else {
            Ok(Edtf::YYear(YYear(v)))
        },
        Some(ParsedEdtf::Interval(a, b)) => match spec_validate_date(a) {
            Err(e) => Err(e),
            Ok(x) => match spec_validate_date(b) {
                Err(e) => Err(e),
                Ok(y) => Ok(Edtf::Interval(x, y)),
            },
        },
        Some(ParsedEdtf::IntervalFrom(a, t)) => match spec_validate_date(a) {
            Err(e) => Err(e),
            Ok(x) => Ok(Edtf::IntervalFrom(x, t)),
        },
        Some(ParsedEdtf::IntervalTo(t, a)) => match spec_validate_date(a) {
            Err(e) => Err(e),
            Ok(x) => Ok(Edtf::IntervalTo(t, x)),
        },
        Some(ParsedEdtf::DateTime(d, t)) => match spec_datetime_validate(d, t) {
            Ok(dt) => Ok(Edtf::DateTime(dt)),
            Err(e) => Err(e),
        },
    }
}

/// A level 1 EDTF from text: non-ASCII text is `Invalid`.
pub open(crate) spec fn spec_parse_edtf1(s: Seq<char>) -> Result<Edtf, ParseError> {
    if is_ascii_text(s) {
        spec_parse1(ascii_bytes(s))
    } else {
        Err(ParseError::Invalid)
    }
}

/// A level 1 date alone from bytes.
pub open(crate) spec fn spec_parse_date1(s: Seq<u8>) -> Result<Date, ParseError> {
    match sp_date_certainty(s, 0) {
        Some((d, e)) => if e == s.len() {
            spec_validate_date(d)
        } else {
            Err(ParseError::Invalid)
        },
        None => Err(ParseError::Invalid),
    }
}

/// How `year`, `month`, `day` are written as a date: a zero month or day, or one too large
/// for a byte, is absent.
pub open(crate) spec fn ymd_written(year: i32, month: u32, day: u32) -> UnvalidatedDate {
    UnvalidatedDate {
        year,
        year_mask: YearMask::Unmasked,
        month: if month == 0 || month > 255 {
            None
        } else {
            Some(UnvalidatedDMEnum::Unmasked(month as u8))
        },
        day: if day == 0 || day > 255 {
            None
        } else {
            Some(UnvalidatedDMEnum::Unmasked(day as u8))
        },
        certainty: Certainty::Certain,
    }
}

/// The validated date, or None.
pub open(crate) spec fn validated(u: UnvalidatedDate) -> Option<Date> {
    match spec_validate_date(u) {
        Ok(x) => Some(x),
        Err(_) => None,
    }
}

/// The first year of the century that `x` lies in, counting toward zero: 2019 is in 2000,
/// -2019 in -2000 (written `-20XX`).
pub open(crate) spec fn century_start(x: int) -> int {
    100 * crate::common::trunc_div(x, 100)
}

/// The first year of the decade that `x` lies in, counting toward zero.
pub open(crate) spec fn decade_start(x: int) -> int {
    10 * crate::common::trunc_div(x, 10)
}

/// A month or day number given to [Date::from_precision_opt], as written; None when it is
/// outside 1..=31.
pub open(crate) spec fn precision_dm(v: u32) -> Option<UnvalidatedDMEnum> {
    if 1 <= v <= 31 {
        Some(UnvalidatedDMEnum::Unmasked(v as u8))
    } else {
        None
    }
}

/// How a [Precision] is written as a date; None when a given month or day is 0 or above 31.
pub open(crate) spec fn precision_written(prec: Precision) -> Option<UnvalidatedDate> {
    let mk = |y: int, ym: YearMask, m: Option<UnvalidatedDMEnum>, d: Option<UnvalidatedDMEnum>|
        UnvalidatedDate {
            year: y as i32,
            year_mask: ym,
            month: m,
            day: d,
            certainty: Certainty::Certain,
        };
    match prec {
        Precision::Century(x) => Some(mk(century_start(x as int), YearMask::TwoDigits, None, None)),
        Precision::Decade(x) => Some(mk(decade_start(x as int), YearMask::OneDigit, None, None)),
        Precision::Year(x) => Some(mk(x as int, YearMask::Unmasked, None, None)),
        Precision::Season(x, s) => Some(
            mk(
                x as int,
                YearMask::Unmasked,
                Some(UnvalidatedDMEnum::Unmasked(super::season_number(s) as u8)),
                None,
            ),
        ),
        Precision::Month(x, m) => if precision_dm(m) is None {
            None
        } else {
            Some(mk(x as int, YearMask::Unmasked, precision_dm(m), None))
        },
        Precision::Day(x, m, d) => if precision_dm(m) is None || precision_dm(d) is None {
            None
        } else {
            Some(mk(x as int, YearMask::Unmasked, precision_dm(m), precision_dm(d)))
        },
        Precision::MonthOfYear(x) => Some(
            mk(x as int, YearMask::Unmasked, Some(UnvalidatedDMEnum::Unspecified), None),
        ),
        Precision::DayOfMonth(x, m) => if precision_dm(m) is None {
            None
        } else {
            Some(
                mk(
                    x as int,
                    YearMask::Unmasked,
                    precision_dm(m),
                    Some(UnvalidatedDMEnum::Unspecified),
                ),
            )
        },
        Precision::DayOfYear(x) => Some(
            mk(
                x as int,
                YearMask::Unmasked,
                Some(UnvalidatedDMEnum::Unspecified),
                Some(UnvalidatedDMEnum::Unspecified),
            ),
        ),
    }
}

impl Date {
    /// The precision of a date: what its parts and `X` digits say it names.
    pub open(crate) spec fn spec_precision(self) -> Precision {
        let y = self.spec_year() as i32;
        match (self.spec_month(), self.spec_day()) {
            (Some(UnvalidatedDMEnum::Unmasked(m)), None) => if 1 <= m <= 12 {
                Precision::Month(y, m as u32)
            } else {
                Precision::Season(y, season_of(m as int))
            },
            (Some(UnvalidatedDMEnum::Unspecified), None) => Precision::MonthOfYear(y),
            (Some(UnvalidatedDMEnum::Unspecified), Some(_)) => Precision::DayOfYear(y),
            (Some(UnvalidatedDMEnum::Unmasked(m)), Some(UnvalidatedDMEnum::Unspecified)) => {
                Precision::DayOfMonth(y, m as u32)
            },
            (Some(UnvalidatedDMEnum::Unmasked(m)), Some(UnvalidatedDMEnum::Unmasked(d))) => {
                Precision::Day(y, m as u32, d as u32)
            },
            (None, _) => match self.spec_year_mask() {
                YearMask::Unmasked => Precision::Year(y),
                YearMask::OneDigit => Precision::Decade(y),
                YearMask::TwoDigits => Precision::Century(y),
            },
        }
    }

    /// The calendar day this date names, when it names one exactly.
    pub open(crate) spec fn spec_complete(self) -> Option<(int, int, int)> {
        match (self.spec_month(), self.spec_day()) {
            (Some(UnvalidatedDMEnum::Unmasked(m)), Some(UnvalidatedDMEnum::Unmasked(d))) => {
                if self.spec_year_mask() == YearMask::Unmasked && m <= 12 {
                    Some((self.spec_year(), m as int, d as int))
                } else {
                    None
                }
            },
            _ => None,
        }
    }
}

/// A month or day byte read back as written.
fn dm_part(raw: u8) -> (r: Option<UnvalidatedDMEnum>)
    ensures
        r == dm_of_raw(raw),
{
    if raw == 0 {
        return None;
    }
    let b = raw & 7;
    if b / 4 == 1 {
        Some(UnvalidatedDMEnum::Unspecified)
    } else {
        Some(UnvalidatedDMEnum::Unmasked(raw >> 3))
    }
}

impl Date {
    /// The month as written.
    pub(crate) fn month_part(&self) -> (r: Option<UnvalidatedDMEnum>)
        ensures
            r == self.spec_month(),
    {
        dm_part(self.month)
    }

    /// The day as written.
    pub(crate) fn day_part(&self) -> (r: Option<UnvalidatedDMEnum>)
        ensures
            r == self.spec_day(),
    {
        dm_part(self.day)
    }

    /// Facts that every date has, from its invariant.
    pub(crate) proof fn lemma_facts(self)
        requires
            self.wf(),
        ensures
            year_range_ok(self.spec_year()),
            self.written().year == self.spec_year(),
            self.spec_month() is None ==> self.spec_day() is None,
            self.spec_year_mask() != YearMask::Unmasked ==> self.spec_month() is None,
            match (self.spec_month(), self.spec_day()) {
                (Some(UnvalidatedDMEnum::Unmasked(m)), None) => 1 <= m <= 12 || 21 <= m <= 24,
                (Some(UnvalidatedDMEnum::Unmasked(m)), Some(UnvalidatedDMEnum::Unmasked(d))) => 1
                    <= m <= 12 && spec_valid_date(self.spec_year(), m as int, d as int),
                (Some(UnvalidatedDMEnum::Unspecified), Some(d)) => d
                    == UnvalidatedDMEnum::Unspecified,
                _ => true,
            },
            match self.spec_month() {
                Some(UnvalidatedDMEnum::Unmasked(m)) => 1 <= m <= 31,
                _ => true,
            },
            match self.spec_day() {
                Some(UnvalidatedDMEnum::Unmasked(d)) => 1 <= d <= 31,
                _ => true,
            },
    {
        let u = self.written();
        crate::level_1::packed::lemma_packed_year_roundtrip(
            u.year,
            YearFlags { certainty: Certainty::Certain, mask: u.year_mask },
        );
    }

    /// Parses a Date from a string. This is not part of the EDTF spec: it does not accept
    /// intervals or timestamps.
    pub fn parse(input: &str) -> (r: Result<Self, ParseError>)
        ensures
            r == (if is_ascii_text(input@) {
                spec_parse_date1(ascii_bytes(input@))
            } else {
                Err(ParseError::Invalid)
            }),
    {
        let s = match ascii_input(input) {
            Some(b) => b,
            None => return Err(ParseError::Invalid),
        };
        match date_certainty(s, 0) {
            Some((d, e)) => if e == s.len() {
                d.validate()
            } else {
                Err(ParseError::Invalid)
            },
            None => Err(ParseError::Invalid),
        }
    }

    /// Creates a Date from a year, month and day. A month or day of zero is absent, so a day
    /// needs a month. Returns None on invalid input, including dates that do not exist, like
    /// February 29 of a common year, and months or days out of any range. Month is `1..=12`,
    /// or a season `21..=24` without a day.
    pub fn from_ymd_opt(year: i32, month: u32, day: u32) -> (r: Option<Self>)
        ensures
            r == (if month > 255 || day > 255 {
                None
            } else {
                validated(ymd_written(year, month, day))
            }),
            r matches Some(x) ==> x.written() == ymd_written(year, month, day),
    {
        if month > 255 || day > 255 {
            return None;
        }
        let m = if month == 0 {
            None
        } else {
            Some(UnvalidatedDMEnum::Unmasked(month as u8))
        };
        let d = if day == 0 {
            None
        } else {
            Some(UnvalidatedDMEnum::Unmasked(day as u8))
        };
        let u = UnvalidatedDate {
            year,
            year_mask: YearMask::Unmasked,
            month: m,
            day: d,
            certainty: Certainty::Certain,
        };
        proof {
            if spec_validate_date(u) is Ok {
                super::validate::lemma_written_roundtrip(u);
            }
        }
        match u.validate() {
            Ok(x) => Some(x),
            Err(_) => None,
        }
    }

    /// Like [Date::from_ymd_opt], for a valid year, month and day.
    pub fn from_ymd(year: i32, month: u32, day: u32) -> (r: Self)
        requires
            month <= 255,
            day <= 255,
            spec_validate_date(ymd_written(year, month, day)) is Ok,
        ensures
            Some(r) == validated(ymd_written(year, month, day)),
            r.written() == ymd_written(year, month, day),
    {
        match Self::from_ymd_opt(year, month, day) {
            Some(x) => x,
            None => {
                vstd::pervasive::unreached()
            },
        }
    }

    /// A date with no month or day, e.g. `2021`; the year must be in range.
    pub fn from_year(year: i32) -> (r: Self)
        requires
            year_range_ok(year as int),
        ensures
            Some(r) == validated(ymd_written(year, 0, 0)),
            r.written() == ymd_written(year, 0, 0),
    {
        Self::from_ymd(year, 0, 0)
    }

    /// A date with no day, e.g. `2021-04`; the month must be 1..=12 or a season.
    pub fn from_ym(year: i32, month: u32) -> (r: Self)
        requires
            month <= 255,
            spec_validate_date(ymd_written(year, month, 0)) is Ok,
        ensures
            Some(r) == validated(ymd_written(year, month, 0)),
            r.written() == ymd_written(year, month, 0),
    {
        Self::from_ymd(year, month, 0)
    }

    /// Whether a year fits in a date: `i32::MIN >> 4 .. i32::MAX >> 4`, the upper end
    /// excluded, to leave room for the packed flags.
    pub fn year_in_range(year: i32) -> (r: bool)
        ensures
            r == year_range_ok(year as int),
    {
        PackedYear::check_range_ok(year)
    }

    /// Gets the year. Dates always have one; for `201X` it is 2010.
    pub fn year(&self) -> (r: i32)
        ensures
            r == self.spec_year(),
    {
        let (y, _) = self.year.unpack();
        y
    }

    /// Gets the season, when the month is one (21..=24).
    pub fn season(&self) -> (r: Option<Season>)
        ensures
            r == (match self.spec_month() {
                Some(UnvalidatedDMEnum::Unmasked(m)) => if 21 <= m <= 24 {
                    Some(season_of(m as int))
                } else {
                    None
                },
                _ => None,
            }),
    {
        match self.month_part() {
            Some(UnvalidatedDMEnum::Unmasked(m)) => Season::from_u32_opt(m as u32),
            _ => None,
        }
    }

    /// Gets the month: absent, unspecified (`XX`), or a value 1..=12. A season is no month.
    pub fn month(&self) -> (r: Option<Component>)
        ensures
            r == (match self.spec_month() {
                None => None,
                Some(UnvalidatedDMEnum::Unspecified) => Some(Component::Unspecified),
                Some(UnvalidatedDMEnum::Unmasked(m)) => if 1 <= m <= 12 {
                    Some(Component::Value(m as u32))
                } else {
                    None
                },
            }),
    {
        match self.month_part() {
            None => None,
            Some(UnvalidatedDMEnum::Unspecified) => Some(Component::Unspecified),
            Some(UnvalidatedDMEnum::Unmasked(m)) => if 1 <= m && m <= 12 {
                Some(Component::Value(m as u32))
            } else {
                None
            },
        }
    }

    /// Gets the day: absent, unspecified (`XX`), or its value.
    pub fn day(&self) -> (r: Option<Component>)
        ensures
            r == (match self.spec_day() {
                None => None,
                Some(UnvalidatedDMEnum::Unspecified) => Some(Component::Unspecified),
                Some(UnvalidatedDMEnum::Unmasked(d)) => Some(Component::Value(d as u32)),
            }),
    {
        match self.day_part() {
            None => None,
            Some(UnvalidatedDMEnum::Unspecified) => Some(Component::Unspecified),
            Some(UnvalidatedDMEnum::Unmasked(d)) => Some(Component::Value(d as u32)),
        }
    }

    /// The day of a complete date as a level 1 date; its year must be in range.
    pub fn from_complete(complete: DateComplete) -> (r: Self)
        requires
            year_range_ok(complete.spec_year() as int),
        ensures
            r.written() == ymd_written(
                complete.spec_year(),
                complete.spec_month() as u32,
                complete.spec_day() as u32,
            ),
    {
        proof {
            use_type_invariant(complete);
        }
        Self::from_ymd(complete.year(), complete.month(), complete.day())
    }

    /// The same date with another certainty, which applies to the date as a whole.
    pub fn and_certainty(&self, certainty: Certainty) -> (r: Self)
        ensures
            r.written() == (UnvalidatedDate { certainty, ..self.written() }),
            r.spec_certainty() == certainty,
            r.spec_year() == self.spec_year(),
            r.spec_year_mask() == self.spec_year_mask(),
            r.spec_month() == self.spec_month(),
            r.spec_day() == self.spec_day(),
    {
        proof {
            use_type_invariant(self);
            let u = self.written();
            let v = UnvalidatedDate { certainty, ..u };
            assert(spec_validate_date(v) == Ok::<Date, ParseError>(Date { certainty, ..*self }));
        }
        Date { year: self.year, month: self.month, day: self.day, certainty }
    }

    /// The certainty of the whole date.
    pub fn certainty(&self) -> (r: Certainty)
        ensures
            r == self.spec_certainty(),
    {
        self.certainty
    }

    /// What the date names, for matching on it.
    pub fn precision(&self) -> (r: Precision)
        ensures
            r == self.spec_precision(),
    {
        proof {
            use_type_invariant(self);
            self.lemma_facts();
        }
        let (y, yf) = self.year.unpack();
        match (self.month_part(), self.day_part()) {
            (Some(UnvalidatedDMEnum::Unmasked(m)), None) => if 1 <= m && m <= 12 {
                Precision::Month(y, m as u32)
            } else {
                Precision::Season(y, Season::from_u32(m as u32))
            },
            (Some(UnvalidatedDMEnum::Unspecified), None) => Precision::MonthOfYear(y),
            (Some(UnvalidatedDMEnum::Unspecified), Some(_)) => Precision::DayOfYear(y),
            (Some(UnvalidatedDMEnum::Unmasked(m)), Some(UnvalidatedDMEnum::Unspecified)) => {
                Precision::DayOfMonth(y, m as u32)
            },
            (Some(UnvalidatedDMEnum::Unmasked(m)), Some(UnvalidatedDMEnum::Unmasked(d))) => {
                Precision::Day(y, m as u32, d as u32)
            },
            (None, _) => match yf.mask {
                YearMask::Unmasked => Precision::Year(y),
                YearMask::OneDigit => Precision::Decade(y),
                YearMask::TwoDigits => Precision::Century(y),
            },
        }
    }

    /// [Date::precision] and [Date::certainty] together.
    pub fn precision_certainty(&self) -> (r: (Precision, Certainty))
        ensures
            r == (self.spec_precision(), self.spec_certainty()),
    {
        (self.precision(), self.certainty())
    }

    /// The calendar day, when the date names one exactly (no `X`, a month 1..=12 and a day).
    pub fn complete(&self) -> (r: Option<DateComplete>)
        ensures
            match self.spec_complete() {
                Some((y, m, d)) => r matches Some(c) && c.spec_year() == y && c.spec_month() == m
                    && c.spec_day() == d,
                None => r is None,
            },
    {
        proof {
            use_type_invariant(self);
            self.lemma_facts();
        }
        let (year, yf) = self.year.unpack();
        match (self.month_part(), self.day_part()) {
            (Some(UnvalidatedDMEnum::Unmasked(m)), Some(UnvalidatedDMEnum::Unmasked(d))) => {
                match yf.mask {
                    YearMask::Unmasked => {},
                    _ => return None,
                }
                if m > 12 {
                    return None;
                }
                Some(DateComplete { year, month: m, day: d })
            },
            _ => None,
        }
    }

    /// A date from its [Precision]; `Century` and `Decade` round toward zero. None when a
    /// given month or day is 0 or above 31, or the result is not a valid date.
    pub fn from_precision_opt(prec: Precision) -> (r: Option<Self>)
        ensures
            r == (match precision_written(prec) {
                Some(u) => validated(u),
                None => None,
            }),
    {
        let m = |v: u32| -> (o: Option<UnvalidatedDMEnum>)
            ensures
                o == precision_dm(v),
            {
                if 1 <= v && v <= 31 {
                    Some(UnvalidatedDMEnum::Unmasked(v as u8))
                } else {
                    None
                }
            };
        let (y, ym, mo, d): (i32, YearMask, Option<UnvalidatedDMEnum>, Option<UnvalidatedDMEnum>) =
            match prec {
            Precision::Century(x) => (century_of(x), YearMask::TwoDigits, None, None),
            Precision::Decade(x) => (decade_of(x), YearMask::OneDigit, None, None),
            Precision::Year(x) => (x, YearMask::Unmasked, None, None),
            Precision::Season(x, s) => (
                x,
                YearMask::Unmasked,
                Some(UnvalidatedDMEnum::Unmasked(s.number() as u8)),
                None,
            ),
            Precision::Month(x, mm) => {
                if mm == 0 || mm > 31 {
                    return None;
                }
                (x, YearMask::Unmasked, m(mm), None)
            },
            Precision::Day(x, mm, dd) => {
                if mm == 0 || mm > 31 || dd == 0 || dd > 31 {
                    return None;
                }
                (x, YearMask::Unmasked, m(mm), m(dd))
            },
            Precision::MonthOfYear(x) => (
                x,
                YearMask::Unmasked,
                Some(UnvalidatedDMEnum::Unspecified),
                None,
            ),
            Precision::DayOfMonth(x, mm) => {
                if mm == 0 || mm > 31 {
                    return None;
                }
                (x, YearMask::Unmasked, m(mm), Some(UnvalidatedDMEnum::Unspecified))
            },
            Precision::DayOfYear(x) => (
                x,
                YearMask::Unmasked,
                Some(UnvalidatedDMEnum::Unspecified),
                Some(UnvalidatedDMEnum::Unspecified),
            ),
        };
        let u = UnvalidatedDate { year: y, year_mask: ym, month: mo, day: d, certainty: Certainty::Certain };
        match u.validate() {
            Ok(x) => Some(x),
            Err(_) => None,
        }
    }

    /// Like [Date::from_precision_opt], for a precision that makes a valid date.
    pub fn from_precision(prec: Precision) -> (r: Self)
        requires
            precision_written(prec) matches Some(u) && spec_validate_date(u) is Ok,
        ensures
            Some(r) == validated(precision_written(prec)->0),
    {
        match Self::from_precision_opt(prec) {
            Some(x) => x,
            None => {
                vstd::pervasive::unreached()
            },
        }
    }
}

/// The first year of the century of `x`, toward zero.
fn century_of(x: i32) -> (r: i32)
    ensures
        r == century_start(x as int),
{
    let a = x as i64;
    let r: i64 = if a >= 0 {
        a - a % 100
    } else {
        -((-a) - (-a) % 100)
    };
    r as i32
}

/// The first year of the decade of `x`, toward zero.
fn decade_of(x: i32) -> (r: i32)
    ensures
        r == decade_start(x as int),
{
    let a = x as i64;
    let r: i64 = if a >= 0 {
        a - a % 10
    } else {
        -((-a) - (-a) % 10)
    };
    r as i32
}

} // verus!

verus! {

impl YYear {
    /// A `Y`-year lies outside -9999..=9999.
    #[verifier::type_invariant]
    pub open(crate) spec fn wf(self) -> bool {
        !inside_9999(self.0 as int)
    }

    /// The year.
    pub open(crate) spec fn spec_value(self) -> i64 {
        self.0
    }

    /// Get the year this represents.
    pub fn year(&self) -> (r: i64)
        ensures
            r == self.spec_value(),
            !inside_9999(r as int),
    {
        proof {
            use_type_invariant(self);
        }
        self.0
    }

    /// Gets the year. Like [YYear::year] but takes `self`.
    pub fn value(self) -> (r: i64)
        ensures
            r == self.spec_value(),
            !inside_9999(r as int),
    {
        proof {
            use_type_invariant(&self);
        }
        self.0
    }

    /// A `Y`-year, or None when the value has fewer than five digits.
    pub fn new_opt(value: i64) -> (r: Option<Self>)
        ensures
            r is Some <==> !inside_9999(value as int),
            r matches Some(y) ==> y.spec_value() == value,
    {
        if -9999 <= value && value <= 9999 {
            None
        } else {
            Some(YYear(value))
        }
    }

    /// A `Y`-year from a value of five or more digits.
    pub fn new(value: i64) -> (r: Self)
        requires
            !inside_9999(value as int),
        ensures
            r.spec_value() == value,
    {
        YYear(value)
    }

    /// A `Y`-year, or, for a value of at most four digits, the calendar year as an
    /// [Edtf::Date].
    pub fn new_or_cal(value: i64) -> (r: Result<Self, Edtf>)
        ensures
            !inside_9999(value as int) ==> (r matches Ok(y) && y.spec_value() == value),
            inside_9999(value as int) ==> (r matches Err(Edtf::Date(d)) && Some(d) == validated(
                ymd_written(value as i32, 0, 0),
            )),
    {
        if -9999 <= value && value <= 9999 {
            let d = Date::from_ymd(value as i32, 0, 0);
            Err(Edtf::Date(d))
        } else {
            Ok(YYear(value))
        }
    }
}

impl Component {
    /// The value, or None when unspecified.
    pub fn value(self) -> (r: Option<u32>)
        ensures
            r == (match self {
                Component::Value(v) => Some(v),
                Component::Unspecified => None,
            }),
    {
        match self {
            Component::Value(v) => Some(v),
            Component::Unspecified => None,
        }
    }
}

/// The stored mask for a number of `X` digits.
pub open spec fn digits_mask(d: YearDigits) -> YearMask {
    match d {
        YearDigits::NoX => YearMask::Unmasked,
        YearDigits::X => YearMask::OneDigit,
        YearDigits::XX => YearMask::TwoDigits,
    }
}

impl YearDigits {
    /// The number of `X` digits as stored in a date.
    pub fn to_mask(self) -> (r: YearMask)
        ensures
            r == digits_mask(self),
    {
        match self {
            YearDigits::NoX => YearMask::Unmasked,
            YearDigits::X => YearMask::OneDigit,
            YearDigits::XX => YearMask::TwoDigits,
        }
    }

    /// The number of `X` digits of a stored mask.
    pub fn from_mask(mask: YearMask) -> (r: Self)
        ensures
            digits_mask(r) == mask,
    {
        match mask {
            YearMask::Unmasked => YearDigits::NoX,
            YearMask::OneDigit => YearDigits::X,
            YearMask::TwoDigits => YearDigits::XX,
        }
    }
}

impl Terminal {
    /// The [MatchTerminal] of an open or unknown end.
    pub fn as_match_terminal(self) -> (r: MatchTerminal)
        ensures
            r == (match self {
                Terminal::Open => MatchTerminal::Open,
                Terminal::Unknown => MatchTerminal::Unknown,
            }),
    {
        match self {
            Terminal::Open => MatchTerminal::Open,
            Terminal::Unknown => MatchTerminal::Unknown,
        }
    }
}

/// An [Edtf] for matching on.
pub open(crate) spec fn spec_matcher(e: Edtf) -> Matcher {
    match e {
        Edtf::Date(d) => Matcher::Date(d.spec_precision(), d.spec_certainty()),
        Edtf::DateTime(d) => Matcher::DateTime(d),
        Edtf::YYear(y) => Matcher::Scientific(y.spec_value()),
        Edtf::Interval(a, b) => Matcher::Interval(
            MatchTerminal::Fixed(a.spec_precision(), a.spec_certainty()),
            MatchTerminal::Fixed(b.spec_precision(), b.spec_certainty()),
        ),
        Edtf::IntervalFrom(a, t) => Matcher::Interval(
            MatchTerminal::Fixed(a.spec_precision(), a.spec_certainty()),
            if t == Terminal::Open {
                MatchTerminal::Open
            } else {
                MatchTerminal::Unknown
            },
        ),
        Edtf::IntervalTo(t, a) => Matcher::Interval(
            if t == Terminal::Open {
                MatchTerminal::Open
            } else {
                MatchTerminal::Unknown
            },
            MatchTerminal::Fixed(a.spec_precision(), a.spec_certainty()),
        ),
    }
}

impl Date {
    /// This date as a fixed end of an interval.
    fn as_terminal(&self) -> (r: MatchTerminal)
        ensures
            r == MatchTerminal::Fixed(self.spec_precision(), self.spec_certainty()),
    {
        MatchTerminal::Fixed(self.precision(), self.certainty())
    }
}

impl Edtf {
    /// Parses Bytes of level 1 EDTF.
    fn parse_bytes(s: &[u8]) -> (r: Result<Self, ParseError>)
        ensures
            r == spec_parse1(s@),
    {
        match level1(s) {
            None => Err(ParseError::Invalid),
            Some(ParsedEdtf::Date(d)) => match d.validate() {
                Ok(x) => Ok(Edtf::Date(x)),
                Err(e) => Err(e),
            },
            Some(ParsedEdtf::YYear(v)) => match YYear::new_opt(v) {
                Some(y) => Ok(Edtf::YYear(y)),
                None => Err(ParseError::Invalid),
            },
            Some(ParsedEdtf::Interval(a, b)) => {
                let x = match a.validate() {
                    Ok(x) => x,
                    Err(e) => return Err(e),
                };
                let y = match b.validate() {
                    Ok(y) => y,
                    Err(e) => return Err(e),
                };
                Ok(Edtf::Interval(x, y))
            },
            Some(ParsedEdtf::IntervalFrom(a, t)) => match a.validate() {
                Ok(x) => Ok(Edtf::IntervalFrom(x, t)),
                Err(e) => Err(e),
            },
            Some(ParsedEdtf::IntervalTo(t, a)) => match a.validate() {
                Ok(x) => Ok(Edtf::IntervalTo(t, x)),
                Err(e) => Err(e),
            },
            Some(ParsedEdtf::DateTime(d, t)) => match DateTime::validate(d, t) {
                Ok(dt) => Ok(Edtf::DateTime(dt)),
                Err(e) => Err(e),
            },
        }
    }

    /// Parse a Level 1 EDTF.
    pub fn parse(input: &str) -> (r: Result<Self, ParseError>)
        ensures
            r == spec_parse_edtf1(input@),
    {
        match ascii_input(input) {
            Some(b) => Self::parse_bytes(b),
            None => Err(ParseError::Invalid),
        }
    }

    /// If self is an [Edtf::Date], return it.
    pub fn as_date(&self) -> (r: Option<Date>)
        ensures
            r == (match *self {
                Edtf::Date(d) => Some(d),
                _ => None,
            }),
    {
        match self {
            Edtf::Date(d) => Some(*d),
            _ => None,
        }
    }

    /// If self is an [Edtf::DateTime], return it.
    pub fn as_datetime(&self) -> (r: Option<DateTime>)
        ensures
            r == (match *self {
                Edtf::DateTime(d) => Some(d),
                _ => None,
            }),
    {
        match self {
            Edtf::DateTime(d) => Some(*d),
            _ => None,
        }
    }

    /// An enum that is easier to match against for intervals of all kinds.
    pub fn as_matcher(&self) -> (r: Matcher)
        ensures
            r == spec_matcher(*self),
    {
        match self {
            Edtf::Date(d) => Matcher::Date(d.precision(), d.certainty()),
            Edtf::DateTime(d) => Matcher::DateTime(*d),
            Edtf::YYear(y) => Matcher::Scientific(y.value()),
            Edtf::Interval(a, b) => Matcher::Interval(a.as_terminal(), b.as_terminal()),
            Edtf::IntervalFrom(a, t) => Matcher::Interval(a.as_terminal(), t.as_match_terminal()),
            Edtf::IntervalTo(t, a) => Matcher::Interval(t.as_match_terminal(), a.as_terminal()),
        }
    }

    /// The two ends, when this is an interval of any kind.
    pub fn as_interval(&self) -> (r: Option<(MatchTerminal, MatchTerminal)>)
        ensures
            r == (match spec_matcher(*self) {
                Matcher::Interval(a, b) => Some((a, b)),
                _ => None,
            }),
    {
        match self.as_matcher() {
            Matcher::Interval(a, b) => Some((a, b)),
            _ => None,
        }
    }
}

} // verus!

verus! {

/// A date made from a precision names that precision again: reading the precision of
/// [Date::from_precision_opt]'s date gives back what it was made from, for a precision
/// already in its own terms (a century or decade at its first year, a month 1..=12 rather
/// than a season number).
pub proof fn lemma_precision_of_from_precision(p: Precision, d: Date)
    requires
        precision_written(p) matches Some(u) && validated(u) == Some(d),
        p matches Precision::Century(x) ==> x == century_start(x as int),
        p matches Precision::Decade(x) ==> x == decade_start(x as int),
        p matches Precision::Month(_, m) ==> m <= 12,
    ensures
        d.spec_precision() == p,
{
    let u = precision_written(p)->0;
    super::validate::lemma_written_roundtrip(u);
    assert(d.written() == u);
    assert(d.spec_month() == u.month && d.spec_day() == u.day);
    assert(d.spec_year() == u.year && d.spec_year_mask() == u.year_mask);
    if let Precision::Season(x, s) = p {
        assert(season_of(super::season_number(s)) == s);
    }
}

/// The parts a date is made of are the parts of its precision: `Date::from_ymd(y, m, d)`
/// has precision `Day(y, m, d)` (month and day in their places), `Date::from_ymd(y, m, 0)`
/// has `Month(y, m)` for a month and `Season` for a season, and `Date::from_ymd(y, 0, 0)`
/// has `Year(y)`.
pub proof fn lemma_precision_of_ymd(y: i32, m: u32, dd: u32, d: Date)
    requires
        m <= 255,
        dd <= 255,
        validated(ymd_written(y, m, dd)) == Some(d),
    ensures
        m != 0 && dd != 0 ==> d.spec_precision() == Precision::Day(y, m, dd),
        1 <= m <= 12 && dd == 0 ==> d.spec_precision() == Precision::Month(y, m),
        21 <= m <= 24 && dd == 0 ==> d.spec_precision() == Precision::Season(y, season_of(m as int)),
        m == 0 ==> d.spec_precision() == Precision::Year(y),
        d.spec_certainty() == Certainty::Certain,
{
    let u = ymd_written(y, m, dd);
    super::validate::lemma_written_roundtrip(u);
    assert(d.written() == u);
    assert(d.spec_month() == u.month && d.spec_day() == u.day);
    assert(d.spec_year() == y && d.spec_year_mask() == YearMask::Unmasked);
}

/// The open or unknown end of a half-open interval is kept in its matcher: `../2019`
/// matches as `(Open, Fixed(..))`, `2019/` as `(Fixed(..), Unknown)`; the fixed end is the
/// date's precision and certainty, and a single date matches as its precision and certainty.
pub proof fn lemma_matcher_terminals(e: Edtf)
    ensures
        e matches Edtf::IntervalTo(t, d) ==> spec_matcher(e) matches Matcher::Interval(a, b) && (
        a == MatchTerminal::Open <==> t == Terminal::Open) && (a == MatchTerminal::Unknown
            <==> t == Terminal::Unknown) && b == MatchTerminal::Fixed(
            d.spec_precision(),
            d.spec_certainty(),
        ),
        e matches Edtf::IntervalFrom(d, t) ==> spec_matcher(e) matches Matcher::Interval(a, b) && (
        b == MatchTerminal::Open <==> t == Terminal::Open) && (b == MatchTerminal::Unknown
            <==> t == Terminal::Unknown) && a == MatchTerminal::Fixed(
            d.spec_precision(),
            d.spec_certainty(),
        ),
        e matches Edtf::Interval(d1, d2) ==> spec_matcher(e) == Matcher::Interval(
            MatchTerminal::Fixed(d1.spec_precision(), d1.spec_certainty()),
            MatchTerminal::Fixed(d2.spec_precision(), d2.spec_certainty()),
        ),
        e matches Edtf::Date(d) ==> spec_matcher(e) == Matcher::Date(
            d.spec_precision(),
            d.spec_certainty(),
        ),
{
}

} // verus!
