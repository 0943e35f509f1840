//! # EDTF Level 0
//!
//! Dates `YYYY`, `YYYY-MM`, `YYYY-MM-DD`; timestamps `YYYY-MM-DDThh:mm:ss` with an optional
//! time zone (`Z`, `+04`, `+04:30`); and intervals `date/date`.

use vstd::prelude::*;

use crate::calendar::{is_valid_complete_date, spec_valid_date};
use crate::common::{
    date_time, fmt_datetime, lift, push_datetime, sp_date_time, sp_two, spec_datetime_validate,
    two_digits, byte_is,
};
use crate::scan::{at, fixed_digits, fmt_uint, pow10, push_uint, read_fixed};
use crate::text::{ascii_bytes, ascii_input, bytes_text, bytes_to_string, is_ascii_text};
use crate::{DateTime, ParseError};
use vstd::string::StringSliceAdditionalSpecFns;

verus! {

/// An EDTF level 0 date: `YYYY`, `YYYY-MM` or `YYYY-MM-DD`.
#[derive(Debug, Copy, Clone, PartialEq, Eq, Hash, Structural)]
pub struct Date {
    pub(crate) year: i32,
    /// 0 when absent.
    pub(crate) month: u8,
    /// 0 when absent.
    pub(crate) day: u8,
}

/// A level 0 date's parts are acceptable: year 0..=9999, a month only with a year, a day only
/// with a month, a month 1..=12 and a day that exists in that month.
pub open spec fn valid_date0(year: int, month: int, day: int) -> bool {
    &&& 0 <= year <= 9999
    &&& (month == 0 ==> day == 0)
    &&& (month != 0 && day == 0 ==> 1 <= month <= 12)
    &&& (month != 0 && day != 0 ==> spec_valid_date(year, month, day))
}

/// What checking a level 0 date gives: the first failing rule's error, or the date.
pub open(crate) spec fn spec_validate_date0(y: i32, m: u8, d: u8) -> Result<Date, ParseError> {
    if y > 9999 || y < 0 {
        Err(ParseError::OutOfRange)
    } else if m != 0 && d != 0 && !spec_valid_date(y as int, m as int, d as int) {
        Err(ParseError::OutOfRange)
    } else if m != 0 && d == 0 && m > 12 {
        Err(ParseError::OutOfRange)
    } else if m == 0 && d != 0 {
        Err(ParseError::OutOfRange)
    } else {
        Ok(Date { year: y, month: m, day: d })
    }
}

impl Date {
    /// Year 0..=9999.
    pub open(crate) spec fn spec_year(self) -> i32 {
        self.year
    }

    /// Month, 0 when absent.
    pub open(crate) spec fn spec_month(self) -> u8 {
        self.month
    }

    /// Day, 0 when absent.
    pub open(crate) spec fn spec_day(self) -> u8 {
        self.day
    }

    /// Every level 0 date is acceptable.
    #[verifier::type_invariant]
    pub open(crate) spec fn wf(self) -> bool {
        valid_date0(self.year as int, self.month as int, self.day as int)
    }

    /// Checks the parts of a date.
    fn validate(y: i32, m: u8, d: u8) -> (r: Result<Self, ParseError>)
        ensures
            r == spec_validate_date0(y, m, d),
    {
        if y > 9999 || y < 0 {
            return Err(ParseError::OutOfRange);
        }
        if m != 0 {
            if d != 0 {
                if is_valid_complete_date(y, m, d).is_err() {
                    return Err(ParseError::OutOfRange);
                }
            } else if m > 12 {
                return Err(ParseError::OutOfRange);
            }
        } else if d != 0 {
            return Err(ParseError::OutOfRange);
        }
        Ok(Date { year: y, month: m, day: d })
    }

    /// Returns a year in the range 0000..=9999.
    pub fn year(self) -> (r: i32)
        ensures
            r == self.spec_year(),
            0 <= r <= 9999,
    {
        proof {
            use_type_invariant(&self);
        }
        self.year
    }

    /// 0 if absent. Guaranteed to be absent if [Self::day] is also absent.
    pub fn month(self) -> (r: u32)
        ensures
            r == self.spec_month(),
            r <= 12,
    {
        proof {
            use_type_invariant(&self);
        }
        self.month as u32
    }

    /// 0 if absent.
    pub fn day(self) -> (r: u32)
        ensures
            r == self.spec_day(),
            r <= 31,
    {
        proof {
            use_type_invariant(&self);
        }
        self.day as u32
    }

    /// Returns None if year < 0 or year > 9999 or the date is invalid (April 31, February 29 in
    /// a common year, a day without a month, month > 12, June 400, etc.). A month or day of 0
    /// counts as absent.
    pub fn from_ymd_opt(year: i32, month: u32, day: u32) -> (r: Option<Self>)
        ensures
            r is Some <==> month <= 255 && day <= 255 && valid_date0(
                year as int,
                month as int,
                day as int,
            ),
            r matches Some(x) ==> x.spec_year() == year && x.spec_month() == month
                && x.spec_day() == day,
    {
        if month > 255 || day > 255 {
            return None;
        }
        match Self::validate(year, month as u8, day as u8) {
            Ok(x) => Some(x),
            Err(_) => None,
        }
    }

    /// Like [Date::from_ymd_opt], for parts that are acceptable.
    pub fn from_ymd(year: i32, month: u32, day: u32) -> (r: Self)
        requires
            valid_date0(year as int, month as int, day as int),
        ensures
            r.spec_year() == year && r.spec_month() == month && r.spec_day() == day,
    {
        match Self::from_ymd_opt(year, month, day) {
            Some(x) => x,
            None => {
                proof {
                    assert(false);
                }
                Date { year: 0, month: 0, day: 0 }
            },
        }
    }
}

/// A level 0 EDTF.
#[derive(Debug, Copy, Clone, PartialEq, Eq, Hash, Structural)]
pub enum Edtf {
    /// A single date, of varying precision.
    Date(Date),
    /// Two dates separated by a slash, representing an inclusive interval.
    Interval(Date, Date),
    /// A time stamp with optional time zone information.
    DateTime(DateTime),
}

impl Edtf {
    /// If self is an [Edtf::Date], return it.
    pub fn as_date(&self) -> (r: Option<Date>)
        ensures
            r == (match *self {
                Edtf::Date(d) => Some(d),
                _ => None,
            }),
    {
        match self {
            Edtf::Date(d) => Some(*d),
            _ => None,
        }
    }

    /// If self is an [Edtf::Interval], return it.
    pub fn as_interval(&self) -> (r: Option<(Date, Date)>)
        ensures
            r == (match *self {
                Edtf::Interval(a, b) => Some((a, b)),
                _ => None,
            }),
    {
        match self {
            Edtf::Interval(a, b) => Some((*a, *b)),
            _ => None,
        }
    }

    /// If self is an [Edtf::DateTime], return it.
    pub fn as_datetime(&self) -> (r: Option<DateTime>)
        ensures
            r == (match *self {
                Edtf::DateTime(d) => Some(d),
                _ => None,
            }),
    {
        match self {
            Edtf::DateTime(d) => Some(*d),
            _ => None,
        }
    }
}

} // verus!

verus! {

/// A level 0 date at `pos`: four digits of year, then optionally `-MM`, then optionally
/// `-DD`. A hyphen must be followed by two digits that are not `00`.
pub open(crate) spec fn sp_date0(s: Seq<u8>, pos: int) -> Option<((i32, u8, u8), int)> {
    match fixed_digits(s, pos, 4) {
        None => None,
        Some(y) => if !at(s, pos + 4, 45) {
            Some(((y as i32, 0u8, 0u8), pos + 4))
        } else {
            match sp_two(s, pos + 5) {
                None => None,
                Some(m) => if m == 0 {
                    None
                } else if !at(s, pos + 7, 45) {
                    Some(((y as i32, m, 0u8), pos + 7))
                } else {
                    match sp_two(s, pos + 8) {
                        None => None,
                        Some(d) => if d == 0 {
                            None
                        } else {
                            Some(((y as i32, m, d), pos + 10))
                        },
                    }
                },
            }
        },
    }
}

/// What the level 0 grammar reads, before validation: dates as year, month and day, with 0
/// for an absent month or day.
#[derive(Debug, Copy, Clone, PartialEq, Eq)]
pub enum ParsedEdtf0 {
    Date((i32, u8, u8)),
    Interval((i32, u8, u8), (i32, u8, u8)),
    DateTime((i32, u8, u8), crate::common::UnvalidatedTime),
}

/// The level 0 grammar over a whole input: a timestamp, else `date/date`, else a date. The
/// first alternative that matches decides, and it must reach the end of the input.
pub open(crate) spec fn sp_level0(s: Seq<u8>) -> Option<ParsedEdtf0> {
    match sp_date_time(s) {
        Some((d, t)) => Some(ParsedEdtf0::DateTime(d, t)),
        None => match sp_date0(s, 0) {
            None => None,
            Some((a, p)) => {
                let range = if at(s, p, 47) {
                    sp_date0(s, p + 1)
                } else {
                    None
                };
                match range {
                    Some((b, e)) => if e == s.len() {
                        Some(ParsedEdtf0::Interval(a, b))
                    } else {
                        None
                    },
                    None => if p == s.len() {
                        Some(ParsedEdtf0::Date(a))
                    } else {
                        None
                    },
                }
            },
        },
    }
}

/// A level 0 EDTF from bytes: `Invalid` when the grammar does not match, else the first error
/// of validation, else the value.
pub open(crate) spec fn spec_parse0(s: Seq<u8>) -> Result<Edtf, ParseError> {
    match sp_level0(s) {
        None => Err(ParseError::Invalid),
        Some(ParsedEdtf0::Date(a)) => match spec_validate_date0(a.0, a.1, a.2) {
            Ok(d) => Ok(Edtf::Date(d)),
            Err(e) => Err(e),
        },
        Some(ParsedEdtf0::Interval(a, b)) => match spec_validate_date0(a.0, a.1, a.2) {
            Err(e) => Err(e),
            Ok(d1) => match spec_validate_date0(b.0, b.1, b.2) {
                Err(e) => Err(e),
                Ok(d2) => Ok(Edtf::Interval(d1, d2)),
            },
        },
        Some(ParsedEdtf0::DateTime(d, t)) => match spec_datetime_validate(d, t) {
            Ok(dt) => Ok(Edtf::DateTime(dt)),
            Err(e) => Err(e),
        },
    }
}

/// A level 0 EDTF from text: non-ASCII text is `Invalid`.
pub open(crate) spec fn spec_parse_edtf0(s: Seq<char>) -> Result<Edtf, ParseError> {
    if is_ascii_text(s) {
        spec_parse0(ascii_bytes(s))
    } else {
        Err(ParseError::Invalid)
    }
}

/// A level 0 date alone from bytes.
pub open(crate) spec fn spec_parse_date0(s: Seq<u8>) -> Result<Date, ParseError> {
    match sp_date0(s, 0) {
        Some((a, e)) => if e == s.len() {
            spec_validate_date0(a.0, a.1, a.2)
        } else {
            Err(ParseError::Invalid)
        },
        None => Err(ParseError::Invalid),
    }
}

/// Reads a level 0 date at `pos`.
fn date0(s: &[u8], pos: usize) -> (r: Option<((i32, u8, u8), usize)>)
    requires
        pos <= s.len(),
    ensures
        lift(r) == sp_date0(s@, pos as int),
        r matches Some((_, e)) ==> e <= s.len(),
{
    let y = match read_fixed(s, pos, 4) {
        Some(v) => v,
        None => return None,
    };
    proof {
        reveal_with_fuel(pow10, 5);
    }
    if !byte_is(s, pos + 4, 45) {
        return Some(((y as i32, 0, 0), pos + 4));
    }
    let m = match two_digits(s, pos + 5) {
        Some(v) => v,
        None => return None,
    };
    if m == 0 {
        return None;
    }
    if !byte_is(s, pos + 7, 45) {
        return Some(((y as i32, m, 0), pos + 7));
    }
    let d = match two_digits(s, pos + 8) {
        Some(v) => v,
        None => return None,
    };
    if d == 0 {
        return None;
    }
    Some(((y as i32, m, d), pos + 10))
}

/// Runs the level 0 grammar over a whole input.
pub fn level0(s: &[u8]) -> (r: Option<ParsedEdtf0>)
    ensures
        r == sp_level0(s@),
{
    if let Some((d, t)) = date_time(s) {
        return Some(ParsedEdtf0::DateTime(d, t));
    }
    let (a, p) = match date0(s, 0) {
        Some(x) => x,
        None => return None,
    };
    let range = if byte_is(s, p, 47) {
        date0(s, p + 1)
    } else {
        None
    };
    match range {
        Some((b, e)) => if e == s.len() {
            Some(ParsedEdtf0::Interval(a, b))
        } else {
            None
        },
        None => if p == s.len() {
            Some(ParsedEdtf0::Date(a))
        } else {
            None
        },
    }
}

impl Edtf {
    /// Parses a level 0 EDTF from ASCII bytes.
    fn parse_bytes(s: &[u8]) -> (r: Result<Self, ParseError>)
        ensures
            r == spec_parse0(s@),
    {
        match level0(s) {
            None => Err(ParseError::Invalid),
            Some(ParsedEdtf0::Date(a)) => match Date::validate(a.0, a.1, a.2) {
                Ok(d) => Ok(Edtf::Date(d)),
                Err(e) => Err(e),
            },
            Some(ParsedEdtf0::Interval(a, b)) => {
                let d1 = match Date::validate(a.0, a.1, a.2) {
                    Ok(d) => d,
                    Err(e) => return Err(e),
                };
                let d2 = match Date::validate(b.0, b.1, b.2) {
                    Ok(d) => d,
                    Err(e) => return Err(e),
                };
                Ok(Edtf::Interval(d1, d2))
            },
            Some(ParsedEdtf0::DateTime(d, t)) => match DateTime::validate(d, t) {
                Ok(dt) => Ok(Edtf::DateTime(dt)),
                Err(e) => Err(e),
            },
        }
    }

    /// Parses a Level 0 EDTF.
    pub fn parse(input: &str) -> (r: Result<Self, ParseError>)
        ensures
            r == spec_parse_edtf0(input@),
    {
        match ascii_input(input) {
            Some(b) => Self::parse_bytes(b),
            None => Err(ParseError::Invalid),
        }
    }
}

impl Date {
    /// Parses a Date from a string. This is not part of the EDTF spec: it does not accept
    /// intervals or timestamps.
    pub fn parse(input: &str) -> (r: Result<Self, ParseError>)
        ensures
            r == (if is_ascii_text(input@) {
                spec_parse_date0(ascii_bytes(input@))
            } else {
                Err(ParseError::Invalid)
            }),
    {
        let s = match ascii_input(input) {
            Some(b) => b,
            None => return Err(ParseError::Invalid),
        };
        match date0(s, 0) {
            Some((a, e)) => if e == s.len() {
                Date::validate(a.0, a.1, a.2)
            } else {
                Err(ParseError::Invalid)
            },
            None => Err(ParseError::Invalid),
        }
    }
}

} // verus!

verus! {

/// How a level 0 date is written: `YYYY`, `YYYY-MM` or `YYYY-MM-DD`.
pub open(crate) spec fn fmt_date0(d: Date) -> Seq<u8> {
    let y = d.year as int;
    let year = if y < 0 {
        seq![45u8] + fmt_uint((-y) as nat, 4)
    } else {
        fmt_uint(y as nat, 4)
    };
    if d.month == 0 {
        year
    } else if d.day == 0 {
        year + seq![45u8] + fmt_uint(d.month as nat, 2)
    } else {
        year + seq![45u8] + fmt_uint(d.month as nat, 2) + seq![45u8] + fmt_uint(d.day as nat, 2)
    }
}

/// How a level 0 EDTF is written.
pub open(crate) spec fn fmt_edtf0(e: Edtf) -> Seq<u8> {
    match e {
        Edtf::Date(d) => fmt_date0(d),
        Edtf::Interval(a, b) => fmt_date0(a) + seq![47u8] + fmt_date0(b),
        Edtf::DateTime(dt) => fmt_datetime(dt),
    }
}

proof fn lemma_fmt_date0_edtf(d: Date)
    ensures
        crate::text::all_edtf_bytes(fmt_date0(d)),
{
    let y = d.year as int;
    crate::common::lemma_fmt_uint_edtf((if y < 0 { -y } else { y }) as nat, 4);
    crate::common::lemma_fmt_uint_edtf(d.month as nat, 2);
    crate::common::lemma_fmt_uint_edtf(d.day as nat, 2);
    let f = fmt_date0(d);
    assert forall|i: int| 0 <= i < f.len() implies crate::text::is_edtf_byte(#[trigger] f[i]) by {
        assert(crate::text::all_edtf_bytes(fmt_uint(d.month as nat, 2)));
    }
}

proof fn lemma_fmt_edtf0_edtf(e: Edtf)
    ensures
        crate::text::all_edtf_bytes(fmt_edtf0(e)),
{
    match e {
        Edtf::Date(d) => lemma_fmt_date0_edtf(d),
        Edtf::Interval(a, b) => {
            lemma_fmt_date0_edtf(a);
            lemma_fmt_date0_edtf(b);
            crate::common::lemma_edtf_concat(fmt_date0(a), seq![47u8]);
            crate::common::lemma_edtf_concat(fmt_date0(a) + seq![47u8], fmt_date0(b));
        },
        Edtf::DateTime(dt) => crate::common::lemma_fmt_datetime_edtf(dt),
    }
}

fn push_date0(out: &mut Vec<u8>, d: &Date)
    ensures
        final(out)@ == old(out)@ + fmt_date0(*d),
{
    proof {
        use_type_invariant(d);
    }
    push_uint(out, d.year as u64, 4);
    if d.month != 0 {
        out.push(45);
        push_uint(out, d.month as u64, 2);
        if d.day != 0 {
            out.push(45);
            push_uint(out, d.day as u64, 2);
        }
    }
    assert(final(out)@ =~= old(out)@ + fmt_date0(*d));
}

impl Date {
    /// The EDTF text of this date.
    pub fn to_string(&self) -> (r: String)
        ensures
            r@ == bytes_text(fmt_date0(*self)),
    {
        let mut out: Vec<u8> = Vec::new();
        push_date0(&mut out, self);
        proof {
            lemma_fmt_date0_edtf(*self);
            assert(out@ =~= fmt_date0(*self));
        }
        bytes_to_string(&out)
    }
}

impl Edtf {
    /// The EDTF text of this value.
    pub fn to_string(&self) -> (r: String)
        ensures
            r@ == bytes_text(fmt_edtf0(*self)),
    {
        let mut out: Vec<u8> = Vec::new();
        match self {
            Edtf::Date(d) => push_date0(&mut out, d),
            Edtf::Interval(a, b) => {
                push_date0(&mut out, a);
                out.push(47);
                push_date0(&mut out, b);
            },
            Edtf::DateTime(dt) => push_datetime(&mut out, dt),
        }
        proof {
            lemma_fmt_edtf0_edtf(*self);
            assert(out@ =~= fmt_edtf0(*self));
        }
        bytes_to_string(&out)
    }
}

} // verus!

verus! {

proof fn lemma_date0_fmt(s: Seq<u8>, pos: int, a: (i32, u8, u8), e: int, x: Date)
    requires
        sp_date0(s, pos) == Some((a, e)),
        spec_validate_date0(a.0, a.1, a.2) == Ok::<Date, ParseError>(x),
    ensures
        fmt_date0(x) == s.subrange(pos, e),
{
    crate::common::lemma_four_fmt(s, pos);
    if x.month == 0 {
        assert(fmt_date0(x) =~= s.subrange(pos, e));
    } else {
        crate::common::lemma_two_fmt(s, pos + 5);
        if x.day == 0 {
            assert(fmt_date0(x) =~= s.subrange(pos, e));
        } else {
            crate::common::lemma_two_fmt(s, pos + 8);
            assert(fmt_date0(x) =~= s.subrange(pos, e));
        }
    }
}

/// Lossless formatting: a level 0 EDTF parsed from a text is written back as that text. The one
/// exception is a timestamp whose time zone is written `-00` or `-00:00`, which comes back with
/// `+`.
pub proof fn lemma_parse_format_roundtrip0(input: Seq<char>, e: Edtf)
    requires
        spec_parse_edtf0(input) == Ok::<Edtf, ParseError>(e),
        !(e is DateTime && crate::common::negative_zero_offset_at(ascii_bytes(input), 19)),
    ensures
        bytes_text(fmt_edtf0(e)) == input,
{
    let s = ascii_bytes(input);
    crate::text::lemma_ascii_roundtrip(input);
    match sp_level0(s) {
        Some(ParsedEdtf0::DateTime(d, t)) => {
            crate::common::lemma_datetime_fmt(s, e->DateTime_0);
        },
        Some(ParsedEdtf0::Interval(a, b)) => {
            let (a2, p) = sp_date0(s, 0)->0;
            let (b2, q) = sp_date0(s, p + 1)->0;
            let x = e->Interval_0;
            let y = e->Interval_1;
            lemma_date0_fmt(s, 0, a2, p, x);
            lemma_date0_fmt(s, p + 1, b2, q, y);
            assert(fmt_edtf0(e) =~= s.subrange(0, p) + seq![47u8] + s.subrange(p + 1, s.len() as int));
            assert(fmt_edtf0(e) =~= s);
        },
        Some(ParsedEdtf0::Date(a)) => {
            let (a2, p) = sp_date0(s, 0)->0;
            lemma_date0_fmt(s, 0, a2, p, e->Date_0);
            assert(s.subrange(0, s.len() as int) =~= s);
        },
        None => {},
    }
}

} // verus!

verus! {

/// A level 0 date at the start of some bytes, with the position after it, validated.
pub open(crate) spec fn spec_date_prefix(b: Seq<u8>) -> Result<(int, Date), ParseError> {
    match sp_date0(b, 0) {
        None => Err(ParseError::Invalid),
        Some((a, e)) => match spec_validate_date0(a.0, a.1, a.2) {
            Ok(d) => Ok((e, d)),
            Err(x) => Err(x),
        },
    }
}

/// Reads a level 0 date at the start of a text and returns the rest of the text after it:
/// `1985-0489898989` gives `89898989` and 1985-04. A hyphen must be followed by a month or
/// day.
pub fn date(input: &str) -> (r: Result<(&str, Date), ParseError>)
    ensures
        match spec_date_prefix(input.spec_bytes()) {
            Ok((e, d)) => if vstd::utf8::is_char_boundary(input.spec_bytes(), e) {
                r matches Ok((rest, d2)) && d2 == d && rest.spec_bytes() == input.spec_bytes().subrange(
                    e,
                    input.spec_bytes().len() as int,
                )
            } else {
                r == Err::<(&str, Date), ParseError>(ParseError::Invalid)
            },
            Err(x) => r == Err::<(&str, Date), ParseError>(x),
        },
{
    let s = input.as_bytes();
    let (a, e) = match date0(s, 0) {
        Some(x) => x,
        None => return Err(ParseError::Invalid),
    };
    let d = match Date::validate(a.0, a.1, a.2) {
        Ok(d) => d,
        Err(x) => return Err(x),
    };
    if !input.is_char_boundary(e) {
        return Err(ParseError::Invalid);
    }
    let (_, rest) = input.split_at(e);
    Ok((rest, d))
}

} // verus!
