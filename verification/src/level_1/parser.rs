//! The level 1 grammar over ASCII bytes, as specification functions and as the parsers that
//! follow them.

use vstd::prelude::*;

use crate::common::{byte_is, date_time, lift, sp_date_time, sp_two, two_digits, UnvalidatedTime};
use crate::scan::{
    all_digits, at, digit_run, digits_value, fixed_digits, lemma_run_len, pow10, read_bounded,
    read_fixed, run_len,
};
use super::packed::YearMask;
use super::{Certainty, Terminal, UnvalidatedDMEnum, UnvalidatedDate};

verus! {

/// An optional `-`, then exactly `n` digits. A minus before zero is refused.
pub open(crate) spec fn sp_year_signed(s: Seq<u8>, pos: int, n: nat) -> Option<(int, int)> {
    let neg = at(s, pos, 45);
    let p = if neg {
        pos + 1
    } else {
        pos
    };
    match fixed_digits(s, p, n) {
        None => None,
        Some(v) => if neg && v == 0 {
            None
        } else {
            Some((if neg { -(v as int) } else { v as int }, p + n))
        },
    }
}

/// A signed two-digit year prefix followed by `XX`: `20XX` is 2000.
pub open(crate) spec fn sp_year_xx(s: Seq<u8>, pos: int) -> Option<(int, int)> {
    match sp_year_signed(s, pos, 2) {
        Some((i, p)) => if at(s, p, 88) && at(s, p + 1, 88) {
            Some((i * 100, p + 2))
        } else {
            None
        },
        None => None,
    }
}

/// A signed three-digit year prefix followed by `X`: `201X` is 2010.
pub open(crate) spec fn sp_year_x(s: Seq<u8>, pos: int) -> Option<(int, int)> {
    match sp_year_signed(s, pos, 3) {
        Some((i, p)) => if at(s, p, 88) {
            Some((i * 10, p + 1))
        } else {
            None
        },
        None => None,
    }
}

/// A year: `20XX`, else `201X`, else four digits; each with an optional minus.
pub open(crate) spec fn sp_year_maybe_mask(s: Seq<u8>, pos: int) -> Option<((int, YearMask), int)> {
    match sp_year_xx(s, pos) {
        Some((y, p)) => Some(((y, YearMask::TwoDigits), p)),
        None => match sp_year_x(s, pos) {
            Some((y, p)) => Some(((y, YearMask::OneDigit), p)),
            None => match sp_year_signed(s, pos, 4) {
                Some((y, p)) => Some(((y, YearMask::Unmasked), p)),
                None => None,
            },
        },
    }
}

/// A month or day: `XX`, else two digits.
pub open(crate) spec fn sp_dm(s: Seq<u8>, pos: int) -> Option<(UnvalidatedDMEnum, int)> {
    if at(s, pos, 88) && at(s, pos + 1, 88) {
        Some((UnvalidatedDMEnum::Unspecified, pos + 2))
    } else {
        match sp_two(s, pos) {
            Some(v) => Some((UnvalidatedDMEnum::Unmasked(v), pos + 2)),
            None => None,
        }
    }
}

/// An optional `-month`, and after it an optional `-day`. A hyphen that is not followed by a
/// month or day is left unread.
pub open(crate) spec fn sp_month_day(s: Seq<u8>, p: int) -> (
    Option<UnvalidatedDMEnum>,
    Option<UnvalidatedDMEnum>,
    int,
) {
    if at(s, p, 45) {
        match sp_dm(s, p + 1) {
            Some((m, q)) => if at(s, q, 45) {
                match sp_dm(s, q + 1) {
                    Some((d, r)) => (Some(m), Some(d), r),
                    None => (Some(m), None, q),
                }
            } else {
                (Some(m), None, q)
            },
            None => (None, None, p),
        }
    } else {
        (None, None, p)
    }
}

/// An optional `?`, `~` or `%`.
pub open(crate) spec fn sp_certainty(s: Seq<u8>, pos: int) -> (Certainty, int) {
    if at(s, pos, 63) {
        (Certainty::Uncertain, pos + 1)
    } else if at(s, pos, 126) {
        (Certainty::Approximate, pos + 1)
    } else if at(s, pos, 37) {
        (Certainty::ApproximateUncertain, pos + 1)
    } else {
        (Certainty::Certain, pos)
    }
}

/// A level 1 date at `pos`: a year, optionally month and day, and a certainty suffix.
#[verifier::opaque]
pub open(crate) spec fn sp_date_certainty(s: Seq<u8>, pos: int) -> Option<(UnvalidatedDate, int)> {
    match sp_year_maybe_mask(s, pos) {
        None => None,
        Some(((y, ym), p)) => {
            let (m, d, q) = sp_month_day(s, p);
            let (c, r) = sp_certainty(s, q);
            Some(
                (
                    UnvalidatedDate { year: y as i32, year_mask: ym, month: m, day: d, certainty: c },
                    r,
                ),
            )
        },
    }
}

/// `Y`, an optional minus, then five to a hundred digits whose value fits an `i64`.
pub open(crate) spec fn sp_yyear(s: Seq<u8>) -> Option<(i64, int)> {
    if !at(s, 0, 89) {
        None
    } else {
        let neg = at(s, 1, 45);
        let p: int = if neg {
            2
        } else {
            1
        };
        let k = run_len(s, p, 100);
        if k < 5 {
            None
        } else {
            let v = digits_value(s.subrange(p, p + k));
            if v > i64::MAX {
                None
            } else {
                Some(((if neg { -(v as int) } else { v as int }) as i64, p + k))
            }
        }
    }
}

/// What the level 1 grammar reads, before validation.
#[derive(Debug, Copy, Clone)]
pub enum ParsedEdtf {
    Date(UnvalidatedDate),
    YYear(i64),
    Interval(UnvalidatedDate, UnvalidatedDate),
    IntervalFrom(UnvalidatedDate, Terminal),
    IntervalTo(Terminal, UnvalidatedDate),
    DateTime((i32, u8, u8), UnvalidatedTime),
}

/// The whole input is one date.
pub open(crate) spec fn sp_single(s: Seq<u8>) -> Option<UnvalidatedDate> {
    match sp_date_certainty(s, 0) {
        Some((d, e)) => if e == s.len() {
            Some(d)
        } else {
            None
        },
        None => None,
    }
}

/// The whole input is `date/date`.
pub open(crate) spec fn sp_range(s: Seq<u8>) -> Option<(UnvalidatedDate, UnvalidatedDate)> {
    match sp_date_certainty(s, 0) {
        Some((d, e)) => if at(s, e, 47) {
            match sp_date_certainty(s, e + 1) {
                Some((d2, e2)) => if e2 == s.len() {
                    Some((d, d2))
                } else {
                    None
                },
                None => None,
            }
        } else {
            None
        },
        None => None,
    }
}

/// The whole input is `date/` (unknown end).
pub open(crate) spec fn sp_unknown_end(s: Seq<u8>) -> Option<UnvalidatedDate> {
    match sp_date_certainty(s, 0) {
        Some((d, e)) => if at(s, e, 47) && e + 1 == s.len() {
            Some(d)
        } else {
            None
        },
        None => None,
    }
}

/// The whole input is `/date` (unknown start).
pub open(crate) spec fn sp_unknown_start(s: Seq<u8>) -> Option<UnvalidatedDate> {
    if at(s, 0, 47) {
        match sp_date_certainty(s, 1) {
            Some((d, e)) => if e == s.len() {
                Some(d)
            } else {
                None
            },
            None => None,
        }
    } else {
        None
    }
}

/// The whole input is `date/..` (open end).
pub open(crate) spec fn sp_open_end(s: Seq<u8>) -> Option<UnvalidatedDate> {
    match sp_date_certainty(s, 0) {
        Some((d, e)) => if at(s, e, 47) && at(s, e + 1, 46) && at(s, e + 2, 46) && e + 3
            == s.len() {
            Some(d)
        } else {
            None
        },
        None => None,
    }
}

/// The whole input is `../date` (open start).
pub open(crate) spec fn sp_open_start(s: Seq<u8>) -> Option<UnvalidatedDate> {
    if at(s, 0, 46) && at(s, 1, 46) && at(s, 2, 47) {
        match sp_date_certainty(s, 3) {
            Some((d, e)) => if e == s.len() {
                Some(d)
            } else {
                None
            },
            None => None,
        }
    } else {
        None
    }
}

/// The level 1 grammar over a whole input. The alternatives are tried in this order: a
/// `Y`-year (which, once it matches, must reach the end), a date, a timestamp, `date/date`,
/// `date/`, `/date`, `date/..` and `../date`.
pub open(crate) spec fn sp_level1(s: Seq<u8>) -> Option<ParsedEdtf> {
    match sp_yyear(s) {
        Some((v, e)) => if e == s.len() {
            Some(ParsedEdtf::YYear(v))
        } else {
            None
        },
        None => match sp_single(s) {
            Some(d) => Some(ParsedEdtf::Date(d)),
            None => match sp_date_time(s) {
                Some((d, t)) => Some(ParsedEdtf::DateTime(d, t)),
                None => match sp_range(s) {
                    Some((a, b)) => Some(ParsedEdtf::Interval(a, b)),
                    None => match sp_unknown_end(s) {
                        Some(d) => Some(ParsedEdtf::IntervalFrom(d, Terminal::Unknown)),
                        None => match sp_unknown_start(s) {
                            Some(d) => Some(ParsedEdtf::IntervalTo(Terminal::Unknown, d)),
                            None => match sp_open_end(s) {
                                Some(d) => Some(ParsedEdtf::IntervalFrom(d, Terminal::Open)),
                                None => match sp_open_start(s) {
                                    Some(d) => Some(ParsedEdtf::IntervalTo(Terminal::Open, d)),
                                    None => None,
                                },
                            },
                        },
                    },
                },
            },
        },
    }
}

} // verus!

verus! {

/// Reads an optional `-` and exactly `n` digits at `pos`.
pub(crate) fn year_signed(s: &[u8], pos: usize, n: usize) -> (r: Option<(i32, usize)>)
    requires
        pos <= s.len(),
        1 <= n <= 4,
    ensures
        match sp_year_signed(s@, pos as int, n as nat) {
            Some((v, e)) => r == Some((v as i32, e as usize)) && -9999 <= v <= 9999 && e
                <= s.len() && (n == 2 ==> -99 <= v <= 99) && (n == 3 ==> -999 <= v <= 999),
            None => r is None,
        },
{
    let neg = byte_is(s, pos, 45);
    let p = if neg {
        pos + 1
    } else {
        pos
    };
    let v = match read_fixed(s, p, n) {
        Some(v) => v,
        None => return None,
    };
    proof {
        reveal_with_fuel(pow10, 5);
        crate::scan::lemma_pow10_mono(n as nat, 4);
    }
    if neg && v == 0 {
        return None;
    }
    let y: i32 = if neg {
        -(v as i32)
    } else {
        v as i32
    };
    Some((y, p + n))
}

/// Reads a year with its `X` digits at `pos`.
fn year_maybe_mask(s: &[u8], pos: usize) -> (r: Option<((i32, YearMask), usize)>)
    requires
        pos <= s.len(),
    ensures
        match sp_year_maybe_mask(s@, pos as int) {
            Some(((y, m), e)) => r == Some(((y as i32, m), e as usize)) && -9999 <= y <= 9999
                && e <= s.len(),
            None => r is None,
        },
{
    if let Some((i, p)) = year_signed(s, pos, 2) {
        if byte_is(s, p, 88) && byte_is(s, p + 1, 88) {
            return Some(((i * 100, YearMask::TwoDigits), p + 2));
        }
    }
    if let Some((i, p)) = year_signed(s, pos, 3) {
        if byte_is(s, p, 88) {
            return Some(((i * 10, YearMask::OneDigit), p + 1));
        }
    }
    match year_signed(s, pos, 4) {
        Some((y, p)) => Some(((y, YearMask::Unmasked), p)),
        None => None,
    }
}

/// Reads a month or day at `pos`.
fn dm(s: &[u8], pos: usize) -> (r: Option<(UnvalidatedDMEnum, usize)>)
    requires
        pos <= s.len(),
    ensures
        lift(r) == sp_dm(s@, pos as int),
        r matches Some((_, e)) ==> e <= s.len(),
{
    if byte_is(s, pos, 88) && byte_is(s, pos + 1, 88) {
        return Some((UnvalidatedDMEnum::Unspecified, pos + 2));
    }
    match two_digits(s, pos) {
        Some(v) => Some((UnvalidatedDMEnum::Unmasked(v), pos + 2)),
        None => None,
    }
}

/// Reads the optional month and day after a year ending at `p`.
fn month_day(s: &[u8], p: usize) -> (r: (Option<UnvalidatedDMEnum>, Option<UnvalidatedDMEnum>, usize))
    requires
        p <= s.len(),
    ensures
        (r.0, r.1, r.2 as int) == sp_month_day(s@, p as int),
        r.2 <= s.len(),
{
    if !byte_is(s, p, 45) {
        return (None, None, p);
    }
    match dm(s, p + 1) {
        Some((m, q)) => {
            if byte_is(s, q, 45) {
                match dm(s, q + 1) {
                    Some((d, r)) => (Some(m), Some(d), r),
                    None => (Some(m), None, q),
                }
            } else {
                (Some(m), None, q)
            }
        },
        None => (None, None, p),
    }
}

/// Reads an optional certainty suffix at `pos`.
fn certainty(s: &[u8], pos: usize) -> (r: (Certainty, usize))
    requires
        pos <= s.len(),
    ensures
        (r.0, r.1 as int) == sp_certainty(s@, pos as int),
        r.1 <= s.len(),
{
    if byte_is(s, pos, 63) {
        (Certainty::Uncertain, pos + 1)
    } else if byte_is(s, pos, 126) {
        (Certainty::Approximate, pos + 1)
    } else if byte_is(s, pos, 37) {
        (Certainty::ApproximateUncertain, pos + 1)
    } else {
        (Certainty::Certain, pos)
    }
}

/// Reads a level 1 date at `pos`.
pub fn date_certainty(s: &[u8], pos: usize) -> (r: Option<(UnvalidatedDate, usize)>)
    requires
        pos <= s.len(),
    ensures
        lift(r) == sp_date_certainty(s@, pos as int),
        r matches Some((_, e)) ==> e <= s.len(),
{
    proof {
        reveal(sp_date_certainty);
    }
    let ((y, ym), p) = match year_maybe_mask(s, pos) {
        Some(x) => x,
        None => return None,
    };
    let (m, d, q) = month_day(s, p);
    let (c, r) = certainty(s, q);
    Some((UnvalidatedDate { year: y, year_mask: ym, month: m, day: d, certainty: c }, r))
}

/// Reads a whole input of the form `Y` and five or more digits.
fn yyear(s: &[u8]) -> (r: Option<(i64, usize)>)
    ensures
        lift(r) == sp_yyear(s@),
        r matches Some((_, e)) ==> e <= s.len(),
{
    if !byte_is(s, 0, 89) {
        return None;
    }
    let neg = byte_is(s, 1, 45);
    let p: usize = if neg {
        2
    } else {
        1
    };
    let k = digit_run(s, p, 100);
    if k < 5 {
        return None;
    }
    proof {
        lemma_run_len(s@, p as int, 100);
    }
    let v = match read_bounded(s, p, p + k, 9223372036854775807u64) {
        Some(v) => v,
        None => return None,
    };
    let y: i64 = if neg {
        -(v as i64)
    } else {
        v as i64
    };
    Some((y, p + k))
}

/// The whole input is one date.
fn single(s: &[u8]) -> (r: Option<UnvalidatedDate>)
    ensures
        r == sp_single(s@),
{
    match date_certainty(s, 0) {
        Some((d, e)) => if e == s.len() {
            Some(d)
        } else {
            None
        },
        None => None,
    }
}

/// The whole input is `date/date`.
fn range(s: &[u8]) -> (r: Option<(UnvalidatedDate, UnvalidatedDate)>)
    ensures
        r == sp_range(s@),
{
    match date_certainty(s, 0) {
        Some((d, e)) => if byte_is(s, e, 47) {
            match date_certainty(s, e + 1) {
                Some((d2, e2)) => if e2 == s.len() {
                    Some((d, d2))
                } else {
                    None
                },
                None => None,
            }
        } else {
            None
        },
        None => None,
    }
}

/// The whole input is `date/`.
fn unknown_end(s: &[u8]) -> (r: Option<UnvalidatedDate>)
    ensures
        r == sp_unknown_end(s@),
{
    match date_certainty(s, 0) {
        Some((d, e)) => if byte_is(s, e, 47) && e + 1 == s.len() {
            Some(d)
        } else {
            None
        },
        None => None,
    }
}

/// The whole input is `/date`.
fn unknown_start(s: &[u8]) -> (r: Option<UnvalidatedDate>)
    ensures
        r == sp_unknown_start(s@),
{
    if !byte_is(s, 0, 47) {
        return None;
    }
    match date_certainty(s, 1) {
        Some((d, e)) => if e == s.len() {
            Some(d)
        } else {
            None
        },
        None => None,
    }
}

/// The whole input is `date/..`.
fn open_end(s: &[u8]) -> (r: Option<UnvalidatedDate>)
    ensures
        r == sp_open_end(s@),
{
    match date_certainty(s, 0) {
        Some((d, e)) => if byte_is(s, e, 47) && byte_is(s, e + 1, 46) && byte_is(s, e + 2, 46)
            && e + 3 == s.len() {
            Some(d)
        } else {
            None
        },
        None => None,
    }
}

/// The whole input is `../date`.
fn open_start(s: &[u8]) -> (r: Option<UnvalidatedDate>)
    ensures
        r == sp_open_start(s@),
{
    if !(byte_is(s, 0, 46) && byte_is(s, 1, 46) && byte_is(s, 2, 47)) {
        return None;
    }
    match date_certainty(s, 3) {
        Some((d, e)) => if e == s.len() {
            Some(d)
        } else {
            None
        },
        None => None,
    }
}

/// Runs the level 1 grammar over a whole input.
pub fn level1(s: &[u8]) -> (r: Option<ParsedEdtf>)
    ensures
        r == sp_level1(s@),
{
    if let Some((v, e)) = yyear(s) {
        return if e == s.len() {
            Some(ParsedEdtf::YYear(v))
        } else {
            None
        };
    }
    if let Some(d) = single(s) {
        return Some(ParsedEdtf::Date(d));
    }
    if let Some((d, t)) = date_time(s) {
        return Some(ParsedEdtf::DateTime(d, t));
    }
    if let Some((a, b)) = range(s) {
        return Some(ParsedEdtf::Interval(a, b));
    }
    if let Some(d) = unknown_end(s) {
        return Some(ParsedEdtf::IntervalFrom(d, Terminal::Unknown));
    }
    if let Some(d) = unknown_start(s) {
        return Some(ParsedEdtf::IntervalTo(Terminal::Unknown, d));
    }
    if let Some(d) = open_end(s) {
        return Some(ParsedEdtf::IntervalFrom(d, Terminal::Open));
    }
    if let Some(d) = open_start(s) {
        return Some(ParsedEdtf::IntervalTo(Terminal::Open, d));
    }
    None
}

} // verus!
