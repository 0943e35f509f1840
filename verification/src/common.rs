//! Pieces of the grammar shared by the levels: years, two-digit fields, the time of day and
//! time zones; their validation; and how a [DateTime] is written.

use vstd::prelude::*;

use crate::calendar::{is_valid_complete_date, spec_valid_date};
use crate::scan::{all_digits, at, digits_value, fixed, fixed_digits, fmt_uint, is_digit, pow10, push_uint, read_fixed};
use crate::{DateComplete, DateTime, ParseError, Time, TzOffset};

verus! {

/// A time zone as written, before its ranges are checked.
#[derive(Debug, Copy, Clone, PartialEq, Eq, Hash, Structural)]
pub enum UnvalidatedTz {
    /// No time zone given.
    Unspecified,
    /// `Z`
    Utc,
    /// `+04`, `-04`
    Hours { positive: bool, hh: u8 },
    /// `+04:30`, `-04:30`
    HoursMinutes { positive: bool, hh: u8, mm: u8 },
}

/// A time of day as written, before its ranges are checked.
#[derive(Debug, Copy, Clone, PartialEq, Eq, Hash, Structural)]
pub struct UnvalidatedTime {
    pub hh: u8,
    pub mm: u8,
    pub ss: u8,
    pub tz: UnvalidatedTz,
}

/// Drops the end position's type to `int`, for comparing with the grammar.
pub open(crate) spec fn lift<T>(r: Option<(T, usize)>) -> Option<(T, int)> {
    match r {
        Some((v, e)) => Some((v, e as int)),
        None => None,
    }
}

/// Two digits at `pos`.
pub open(crate) spec fn sp_two(s: Seq<u8>, pos: int) -> Option<u8> {
    match fixed_digits(s, pos, 2) {
        Some(v) => Some(v as u8),
        None => None,
    }
}

/// `+` (true) or `-` (false) at `pos`.
pub open(crate) spec fn sp_sign(s: Seq<u8>, pos: int) -> Option<bool> {
    if at(s, pos, 43) {
        Some(true)
    } else if at(s, pos, 45) {
        Some(false)
    } else {
        None
    }
}

/// A time zone at `pos`: `Z`, `+hh:mm`, or `+hh` (either sign).
pub open(crate) spec fn sp_tz(s: Seq<u8>, pos: int) -> Option<(UnvalidatedTz, int)> {
    if at(s, pos, 90) {
        Some((UnvalidatedTz::Utc, pos + 1))
    } else {
        match sp_sign(s, pos) {
            None => None,
            Some(positive) => match sp_two(s, pos + 1) {
                None => None,
                Some(hh) => if at(s, pos + 3, 58) && sp_two(s, pos + 4) is Some {
                    Some(
                        (
                            UnvalidatedTz::HoursMinutes {
                                positive,
                                hh,
                                mm: sp_two(s, pos + 4)->0,
                            },
                            pos + 6,
                        ),
                    )
                } else {
                    Some((UnvalidatedTz::Hours { positive, hh }, pos + 3))
                },
            },
        }
    }
}

/// `hh:mm:ss` at `pos`, followed by an optional time zone.
pub open(crate) spec fn sp_time(s: Seq<u8>, pos: int) -> Option<(UnvalidatedTime, int)> {
    if sp_two(s, pos) is Some && at(s, pos + 2, 58) && sp_two(s, pos + 3) is Some && at(
        s,
        pos + 5,
        58,
    ) && sp_two(s, pos + 6) is Some {
        let hh = sp_two(s, pos)->0;
        let mm = sp_two(s, pos + 3)->0;
        let ss = sp_two(s, pos + 6)->0;
        match sp_tz(s, pos + 8) {
            Some((tz, e)) => Some((UnvalidatedTime { hh, mm, ss, tz }, e)),
            None => Some((UnvalidatedTime { hh, mm, ss, tz: UnvalidatedTz::Unspecified }, pos + 8)),
        }
    } else {
        None
    }
}

/// `YYYY-MM-DD` at `pos`, four digits of year and non-zero month and day.
pub open(crate) spec fn sp_date_complete(s: Seq<u8>, pos: int) -> Option<((i32, u8, u8), int)> {
    if fixed_digits(s, pos, 4) is Some && at(s, pos + 4, 45) && sp_two(s, pos + 5) is Some
        && sp_two(s, pos + 5)->0 != 0 && at(s, pos + 7, 45) && sp_two(s, pos + 8) is Some
        && sp_two(s, pos + 8)->0 != 0 {
        Some(
            (
                (fixed_digits(s, pos, 4)->0 as i32, sp_two(s, pos + 5)->0, sp_two(s, pos + 8)->0),
                pos + 10,
            ),
        )
    } else {
        None
    }
}

/// The whole input is `YYYY-MM-DDThh:mm:ss` with an optional time zone.
pub open(crate) spec fn sp_date_time(s: Seq<u8>) -> Option<((i32, u8, u8), UnvalidatedTime)> {
    match sp_date_complete(s, 0) {
        None => None,
        Some((d, p)) => if at(s, p, 84) {
            match sp_time(s, p + 1) {
                Some((t, e)) => if e == s.len() {
                    Some((d, t))
                } else {
                    None
                },
                None => None,
            }
        } else {
            None
        },
    }
}

/// Reads two digits at `pos`.
pub fn two_digits(s: &[u8], pos: usize) -> (r: Option<u8>)
    ensures
        r == sp_two(s@, pos as int),
{
    match read_fixed(s, pos, 2) {
        Some(v) => {
            proof {
                reveal_with_fuel(pow10, 3);
            }
            Some(v as u8)
        },
        None => None,
    }
}

/// Whether the byte at `pos` is `c`.
pub fn byte_is(s: &[u8], pos: usize, c: u8) -> (r: bool)
    ensures
        r == at(s@, pos as int, c),
{
    pos < s.len() && s[pos] == c
}

/// Reads a `+` or `-` at `pos`.
pub fn sign(s: &[u8], pos: usize) -> (r: Option<bool>)
    ensures
        r == sp_sign(s@, pos as int),
{
    if byte_is(s, pos, 43) {
        Some(true)
    } else if byte_is(s, pos, 45) {
        Some(false)
    } else {
        None
    }
}

/// Reads a time zone at `pos`.
pub fn tz_offset(s: &[u8], pos: usize) -> (r: Option<(UnvalidatedTz, usize)>)
    requires
        pos <= s.len(),
    ensures
        lift(r) == sp_tz(s@, pos as int),
        r matches Some((_, e)) ==> e <= s.len(),
{
    if byte_is(s, pos, 90) {
        return Some((UnvalidatedTz::Utc, pos + 1));
    }
    let positive = match sign(s, pos) {
        Some(p) => p,
        None => return None,
    };
    let hh = match two_digits(s, pos + 1) {
        Some(h) => h,
        None => return None,
    };
    if byte_is(s, pos + 3, 58) {
        if let Some(mm) = two_digits(s, pos + 4) {
            return Some((UnvalidatedTz::HoursMinutes { positive, hh, mm }, pos + 6));
        }
    }
    Some((UnvalidatedTz::Hours { positive, hh }, pos + 3))
}

/// Reads `hh:mm:ss` and an optional time zone at `pos`.
pub fn time(s: &[u8], pos: usize) -> (r: Option<(UnvalidatedTime, usize)>)
    requires
        pos <= s.len(),
    ensures
        lift(r) == sp_time(s@, pos as int),
        r matches Some((_, e)) ==> e <= s.len(),
{
    let hh = match two_digits(s, pos) {
        Some(v) => v,
        None => return None,
    };
    if !byte_is(s, pos + 2, 58) {
        return None;
    }
    let mm = match two_digits(s, pos + 3) {
        Some(v) => v,
        None => return None,
    };
    if !byte_is(s, pos + 5, 58) {
        return None;
    }
    let ss = match two_digits(s, pos + 6) {
        Some(v) => v,
        None => return None,
    };
    match tz_offset(s, pos + 8) {
        Some((tz, e)) => Some((UnvalidatedTime { hh, mm, ss, tz }, e)),
        None => Some((UnvalidatedTime { hh, mm, ss, tz: UnvalidatedTz::Unspecified }, pos + 8)),
    }
}

/// Reads `YYYY-MM-DD` at `pos`.
pub fn date_complete(s: &[u8], pos: usize) -> (r: Option<((i32, u8, u8), usize)>)
    requires
        pos <= s.len(),
    ensures
        lift(r) == sp_date_complete(s@, pos as int),
        r matches Some((_, e)) ==> e <= s.len(),
{
    let y = match read_fixed(s, pos, 4) {
        Some(v) => v,
        None => return None,
    };
    proof {
        reveal_with_fuel(pow10, 5);
    }
    if !byte_is(s, pos + 4, 45) {
        return None;
    }
    let m = match two_digits(s, pos + 5) {
        Some(v) => v,
        None => return None,
    };
    if m == 0 || !byte_is(s, pos + 7, 45) {
        return None;
    }
    let d = match two_digits(s, pos + 8) {
        Some(v) => v,
        None => return None,
    };
    if d == 0 {
        return None;
    }
    Some(((y as i32, m, d), pos + 10))
}

/// Reads a whole input of the form `YYYY-MM-DDThh:mm:ss[zone]`.
pub fn date_time(s: &[u8]) -> (r: Option<((i32, u8, u8), UnvalidatedTime)>)
    ensures
        r == sp_date_time(s@),
{
    let (d, p) = match date_complete(s, 0) {
        Some(x) => x,
        None => return None,
    };
    if !byte_is(s, p, 84) {
        return None;
    }
    match time(s, p + 1) {
        Some((t, e)) => if e == s.len() {
            Some((d, t))
        } else {
            None
        },
        None => None,
    }
}

} // verus!

verus! {

/// The offset a written time zone stands for, or `OutOfRange` when its hours exceed 23 or its
/// minutes exceed 59.
pub open(crate) spec fn spec_tz_validate(tz: UnvalidatedTz) -> Result<TzOffset, ParseError> {
    match tz {
        UnvalidatedTz::Unspecified => Ok(TzOffset::Unspecified),
        UnvalidatedTz::Utc => Ok(TzOffset::Utc),
        UnvalidatedTz::Hours { positive, hh } => if hh > 23 {
            Err(ParseError::OutOfRange)
        } else {
            Ok(TzOffset::Hours(if positive { hh as i32 } else { (-(hh as int)) as i32 }))
        },
        UnvalidatedTz::HoursMinutes { positive, hh, mm } => if hh > 23 || mm > 59 {
            Err(ParseError::OutOfRange)
        } else {
            let mins = 60 * hh + mm;
            Ok(TzOffset::Minutes(if positive { mins as i32 } else { (-(mins as int)) as i32 }))
        },
    }
}

/// The time a written time stands for: the zone is checked first, then the clock.
pub open(crate) spec fn spec_time_validate(t: UnvalidatedTime) -> Result<Time, ParseError> {
    match spec_tz_validate(t.tz) {
        Err(e) => Err(e),
        Ok(tz) => if crate::valid_clock(t.hh as int, t.mm as int, t.ss as int) {
            Ok(Time { hh: t.hh, mm: t.mm, ss: t.ss, tz })
        } else {
            Err(ParseError::OutOfRange)
        },
    }
}

/// The timestamp a written date and time stand for: the date is checked first.
pub open(crate) spec fn spec_datetime_validate(d: (i32, u8, u8), t: UnvalidatedTime) -> Result<
    DateTime,
    ParseError,
> {
    if !spec_valid_date(d.0 as int, d.1 as int, d.2 as int) {
        Err(ParseError::OutOfRange)
    } else {
        match spec_time_validate(t) {
            Err(e) => Err(e),
            Ok(time) => Ok(DateTime { date: DateComplete { year: d.0, month: d.1, day: d.2 }, time }),
        }
    }
}

impl UnvalidatedTz {
    /// Checks the ranges of a written time zone.
    pub fn validate(self) -> (r: Result<TzOffset, ParseError>)
        ensures
            r == spec_tz_validate(self),
            r matches Ok(tz) ==> crate::tz_in_range(tz),
    {
        match self {
            UnvalidatedTz::Unspecified => Ok(TzOffset::Unspecified),
            UnvalidatedTz::Utc => Ok(TzOffset::Utc),
            UnvalidatedTz::Hours { positive, hh } => {
                if hh > 23 {
                    return Err(ParseError::OutOfRange);
                }
                let h = hh as i32;
                Ok(TzOffset::Hours(if positive { h } else { -h }))
            },
            UnvalidatedTz::HoursMinutes { positive, hh, mm } => {
                if hh > 23 || mm > 59 {
                    return Err(ParseError::OutOfRange);
                }
                let mins = 60 * hh as i32 + mm as i32;
                Ok(TzOffset::Minutes(if positive { mins } else { -mins }))
            },
        }
    }
}

impl UnvalidatedTime {
    /// Checks the ranges of a written time. Leap seconds are only allowed at 23:59.
    pub fn validate(self) -> (r: Result<Time, ParseError>)
        ensures
            r == spec_time_validate(self),
    {
        let tz = match self.tz.validate() {
            Ok(tz) => tz,
            Err(e) => return Err(e),
        };
        if self.hh > 23 || self.mm > 59 || self.ss > 60 {
            return Err(ParseError::OutOfRange);
        }
        if self.ss == 60 && !(self.hh == 23 && self.mm == 59) {
            return Err(ParseError::OutOfRange);
        }
        Ok(Time { hh: self.hh, mm: self.mm, ss: self.ss, tz })
    }
}

impl DateTime {
    /// Checks a written date and time.
    pub fn validate(date: (i32, u8, u8), time: UnvalidatedTime) -> (r: Result<Self, ParseError>)
        ensures
            r == spec_datetime_validate(date, time),
    {
        let d = match is_valid_complete_date(date.0, date.1, date.2) {
            Ok(d) => d,
            Err(e) => return Err(e),
        };
        let t = match time.validate() {
            Ok(t) => t,
            Err(e) => return Err(e),
        };
        Ok(DateTime { date: d, time: t })
    }
}

/// Rust's truncating division, for a positive divisor.
pub open(crate) spec fn trunc_div(a: int, b: int) -> int {
    if a >= 0 {
        a / b
    } else {
        -((-a) / b)
    }
}

/// Rust's remainder (sign of the dividend), for a positive divisor.
pub open(crate) spec fn trunc_rem(a: int, b: int) -> int {
    a - b * trunc_div(a, b)
}

/// An integer as Rust's `{:0w}` writes it: a minus sign counts towards the width.
pub open(crate) spec fn fmt_signed(v: int, w: nat) -> Seq<u8> {
    if v < 0 {
        seq![45u8] + fmt_uint((-v) as nat, if w >= 1 { (w - 1) as nat } else { 0 })
    } else {
        fmt_uint(v as nat, w)
    }
}

/// An integer as Rust's `{:+03}` writes it: always a sign, then at least two digits.
pub open(crate) spec fn fmt_plus2(v: int) -> Seq<u8> {
    if v < 0 {
        seq![45u8] + fmt_uint((-v) as nat, 2)
    } else {
        seq![43u8] + fmt_uint(v as nat, 2)
    }
}

/// How a time zone is written after the seconds.
pub open(crate) spec fn fmt_tz(tz: TzOffset) -> Seq<u8> {
    match tz {
        TzOffset::Unspecified => Seq::empty(),
        TzOffset::Utc => seq![90u8],
        TzOffset::Hours(h) => fmt_plus2(trunc_rem(h as int, 24)),
        TzOffset::Minutes(m) => {
            let a = (if m < 0 { -(m as int) } else { m as int }) as nat;
            (if m < 0 {
                seq![45u8]
            } else {
                seq![43u8]
            }) + fmt_uint(a / 60, 2) + seq![58u8] + fmt_uint(a % 60, 2)
        },
    }
}

/// How a timestamp is written: `YYYY-MM-DDThh:mm:ss` and the time zone.
pub open(crate) spec fn fmt_datetime(dt: DateTime) -> Seq<u8> {
    fmt_signed(dt.date.year as int, 4) + seq![45u8] + fmt_uint(dt.date.month as nat, 2) + seq![
        45u8,
    ] + fmt_uint(dt.date.day as nat, 2) + seq![84u8] + fmt_uint(dt.time.hh as nat, 2) + seq![58u8]
        + fmt_uint(dt.time.mm as nat, 2) + seq![58u8] + fmt_uint(dt.time.ss as nat, 2) + fmt_tz(
        dt.time.tz,
    )
}

/// Appends `v` as `{:0w}` writes it.
pub fn push_signed(out: &mut Vec<u8>, v: i64, w: usize)
    requires
        v > i64::MIN,
        w >= 1,
    ensures
        final(out)@ == old(out)@ + fmt_signed(v as int, w as nat),
{
    if v < 0 {
        out.push(45);
        push_uint(out, (-v) as u64, w - 1);
        assert(final(out)@ =~= old(out)@ + fmt_signed(v as int, w as nat));
    } else {
        push_uint(out, v as u64, w);
    }
}

/// Appends `v` as `{:+03}` writes it.
pub fn push_plus2(out: &mut Vec<u8>, v: i64)
    requires
        v > i64::MIN,
    ensures
        final(out)@ == old(out)@ + fmt_plus2(v as int),
{
    if v < 0 {
        out.push(45);
        push_uint(out, (-v) as u64, 2);
    } else {
        out.push(43);
        push_uint(out, v as u64, 2);
    }
    assert(final(out)@ =~= old(out)@ + fmt_plus2(v as int));
}

/// Appends a time zone as it is written.
pub fn push_tz(out: &mut Vec<u8>, tz: TzOffset)
    requires
        crate::tz_in_range(tz),
    ensures
        final(out)@ == old(out)@ + fmt_tz(tz),
{
    match tz {
        TzOffset::Unspecified => {
            assert(old(out)@ + fmt_tz(tz) =~= old(out)@);
        },
        TzOffset::Utc => {
            out.push(90);
            assert(final(out)@ =~= old(out)@ + fmt_tz(tz));
        },
        TzOffset::Hours(h) => {
            push_plus2(out, h as i64);
        },
        TzOffset::Minutes(m) => {
            let a: i64 = if m < 0 { -(m as i64) } else { m as i64 };
            if m < 0 {
                out.push(45);
            } else {
                out.push(43);
            }
            push_uint(out, (a / 60) as u64, 2);
            out.push(58);
            push_uint(out, (a % 60) as u64, 2);
            assert(final(out)@ =~= old(out)@ + fmt_tz(tz));
        },
    }
}

/// Appends a timestamp as it is written.
#[verifier::spinoff_prover]
#[verifier::rlimit(40)]
pub fn push_datetime(out: &mut Vec<u8>, dt: &DateTime)
    ensures
        final(out)@ == old(out)@ + fmt_datetime(*dt),
{
    proof {
        use_type_invariant(dt.date);
        use_type_invariant(dt.time);
    }
    push_signed(out, dt.date.year as i64, 4);
    out.push(45);
    push_uint(out, dt.date.month as u64, 2);
    out.push(45);
    push_uint(out, dt.date.day as u64, 2);
    out.push(84);
    push_uint(out, dt.time.hh as u64, 2);
    out.push(58);
    push_uint(out, dt.time.mm as u64, 2);
    out.push(58);
    push_uint(out, dt.time.ss as u64, 2);
    push_tz(out, dt.time.tz);
    assert(final(out)@ =~= old(out)@ + fmt_datetime(*dt));
}

} // verus!

verus! {

/// Two digits that were read are written back the same way.
pub proof fn lemma_two_fmt(s: Seq<u8>, pos: int)
    requires
        sp_two(s, pos) is Some,
    ensures
        fmt_uint(sp_two(s, pos)->0 as nat, 2) == s.subrange(pos, pos + 2),
        sp_two(s, pos)->0 < 100,
        0 <= pos,
        pos + 2 <= s.len(),
{
    let t = s.subrange(pos, pos + 2);
    crate::scan::lemma_digits_value_bound(t);
    reveal_with_fuel(pow10, 3);
    crate::scan::lemma_fixed_roundtrip(t);
    crate::scan::lemma_fmt_uint_fixed(digits_value(t), 2);
}

/// Four digits that were read are written back the same way.
pub proof fn lemma_four_fmt(s: Seq<u8>, pos: int)
    requires
        fixed_digits(s, pos, 4) is Some,
    ensures
        fmt_uint(fixed_digits(s, pos, 4)->0, 4) == s.subrange(pos, pos + 4),
        fixed_digits(s, pos, 4)->0 < 10000,
        0 <= pos,
        pos + 4 <= s.len(),
{
    let t = s.subrange(pos, pos + 4);
    crate::scan::lemma_digits_value_bound(t);
    reveal_with_fuel(pow10, 5);
    crate::scan::lemma_fixed_roundtrip(t);
    crate::scan::lemma_fmt_uint_fixed(digits_value(t), 4);
}

/// The time zone starting at byte `pos` is written `-00` or `-00:00`: a zero offset, whose
/// sign is lost when it is read.
pub open(crate) spec fn negative_zero_offset_at(s: Seq<u8>, pos: int) -> bool {
    &&& at(s, pos, 45)
    &&& sp_two(s, pos + 1) == Some(0u8)
    &&& !(at(s, pos + 3, 58) && sp_two(s, pos + 4) is Some && sp_two(s, pos + 4) != Some(0u8))
}

/// A time zone that was read is written back the same way, except that `-00` and `-00:00`
/// come back with a plus sign.
pub proof fn lemma_tz_fmt(s: Seq<u8>, pos: int, tz: UnvalidatedTz, e: int, off: TzOffset)
    requires
        sp_tz(s, pos) == Some((tz, e)),
        spec_tz_validate(tz) == Ok::<TzOffset, ParseError>(off),
        !negative_zero_offset_at(s, pos),
    ensures
        fmt_tz(off) == s.subrange(pos, e),
{
    if at(s, pos, 90) {
        assert(s.subrange(pos, e) =~= seq![90u8]);
    } else {
        let hh = sp_two(s, pos + 1)->0;
        lemma_two_fmt(s, pos + 1);
        if at(s, pos + 3, 58) && sp_two(s, pos + 4) is Some {
            let mm = sp_two(s, pos + 4)->0;
            lemma_two_fmt(s, pos + 4);
            let mins = 60 * hh + mm;
            assert(mins / 60 == hh && mins % 60 == mm) by {
                assert((60 * hh + mm) / 60 == hh && (60 * hh + mm) % 60 == mm) by (nonlinear_arith)
                    requires
                        mm <= 59,
                ;
            }
            assert(s[pos] == 45 ==> mins > 0);
            assert(fmt_tz(off) =~= s.subrange(pos, e));
        } else {
            if s[pos] == 45 {
                assert(hh != 0);
            }
            assert(fmt_tz(off) =~= s.subrange(pos, e));
        }
    }
}

/// A timestamp that was read is written back the same way, unless its time zone is `-00` or
/// `-00:00`.
pub proof fn lemma_datetime_fmt(s: Seq<u8>, dt: DateTime)
    requires
        sp_date_time(s) matches Some((d, t)) && spec_datetime_validate(d, t) == Ok::<
            DateTime,
            ParseError,
        >(dt),
        !negative_zero_offset_at(s, 19),
    ensures
        fmt_datetime(dt) == s,
{
    lemma_four_fmt(s, 0);
    lemma_two_fmt(s, 5);
    lemma_two_fmt(s, 8);
    lemma_two_fmt(s, 11);
    lemma_two_fmt(s, 14);
    lemma_two_fmt(s, 17);
    let off = dt.time.tz;
    match sp_tz(s, 19) {
        Some((tz, e)) => {
            lemma_tz_fmt(s, 19, tz, e, off);
        },
        None => {
            assert(s.subrange(19, 19) =~= Seq::<u8>::empty());
        },
    }
    let e = s.len() as int;
    assert(fmt_datetime(dt) =~= s.subrange(0, 4) + seq![45u8] + s.subrange(5, 7) + seq![45u8]
        + s.subrange(8, 10) + seq![84u8] + s.subrange(11, 13) + seq![58u8] + s.subrange(14, 16)
        + seq![58u8] + s.subrange(17, 19) + s.subrange(19, e));
    assert(fmt_datetime(dt) =~= s);
}

} // verus!

verus! {

/// Written numbers are made of EDTF characters.
pub proof fn lemma_fmt_uint_edtf(v: nat, w: nat)
    ensures
        crate::text::all_edtf_bytes(fmt_uint(v, w)),
{
    crate::scan::lemma_fmt_uint_value(v, w);
    let f = fmt_uint(v, w);
    assert forall|i: int| 0 <= i < f.len() implies crate::text::is_edtf_byte(#[trigger] f[i]) by {
        assert(is_digit(f[i]));
    }
}

/// Joining texts made of EDTF characters gives such a text.
pub proof fn lemma_edtf_concat(a: Seq<u8>, b: Seq<u8>)
    requires
        crate::text::all_edtf_bytes(a),
        crate::text::all_edtf_bytes(b),
    ensures
        crate::text::all_edtf_bytes(a + b),
{
    assert forall|i: int| 0 <= i < (a + b).len() implies crate::text::is_edtf_byte(
        #[trigger] (a + b)[i],
    ) by {
        if i < a.len() {
            assert((a + b)[i] == a[i]);
        } else {
            assert((a + b)[i] == b[i - a.len()]);
        }
    }
}

/// A written timestamp is made of EDTF characters.
pub proof fn lemma_fmt_datetime_edtf(dt: DateTime)
    ensures
        crate::text::all_edtf_bytes(fmt_datetime(dt)),
{
    let y = dt.date.year as int;
    lemma_fmt_uint_edtf((if y < 0 { -y } else { y }) as nat, 3);
    lemma_fmt_uint_edtf(y as nat, 4);
    lemma_fmt_uint_edtf(dt.date.month as nat, 2);
    lemma_fmt_uint_edtf(dt.date.day as nat, 2);
    lemma_fmt_uint_edtf(dt.time.hh as nat, 2);
    lemma_fmt_uint_edtf(dt.time.mm as nat, 2);
    lemma_fmt_uint_edtf(dt.time.ss as nat, 2);
    let f = fmt_datetime(dt);
    let tz = fmt_tz(dt.time.tz);
    match dt.time.tz {
        TzOffset::Hours(h) => {
            let v = trunc_rem(h as int, 24);
            lemma_fmt_uint_edtf((if v < 0 { -v } else { v }) as nat, 2);
        },
        TzOffset::Minutes(m) => {
            let a = (if m < 0 { -(m as int) } else { m as int }) as nat;
            lemma_fmt_uint_edtf(a / 60, 2);
            lemma_fmt_uint_edtf(a % 60, 2);
            let sg = if m < 0 {
                seq![45u8]
            } else {
                seq![43u8]
            };
            lemma_edtf_concat(sg, fmt_uint(a / 60, 2));
            lemma_edtf_concat(sg + fmt_uint(a / 60, 2), seq![58u8]);
            lemma_edtf_concat(sg + fmt_uint(a / 60, 2) + seq![58u8], fmt_uint(a % 60, 2));
        },
        _ => {},
    }
    assert forall|i: int| 0 <= i < f.len() implies crate::text::is_edtf_byte(#[trigger] f[i]) by {
        let ys = fmt_signed(y, 4);
        assert(crate::text::all_edtf_bytes(ys));
        assert(crate::text::all_edtf_bytes(tz));
        assert(crate::text::all_edtf_bytes(fmt_uint(dt.date.month as nat, 2)));
    }
}

} // verus!

verus! {

/// A time zone's sign and digits are its offset: `+hh` is `Hours(hh)` and `-hh` is
/// `Hours(-hh)`; `+hh:mm` is `Minutes(60 * hh + mm)` and `-hh:mm` is `Minutes(-(60 * hh + mm))`.
pub proof fn lemma_tz_sign(s: Seq<u8>, pos: int, tz: UnvalidatedTz, e: int, off: TzOffset)
    requires
        sp_tz(s, pos) == Some((tz, e)),
        spec_tz_validate(tz) == Ok::<TzOffset, ParseError>(off),
        !at(s, pos, 90),
    ensures
        s[pos] == 43u8 || s[pos] == 45u8,
        ({
            let plus = s[pos] == 43u8;
            let hh = digits_value(s.subrange(pos + 1, pos + 3)) as int;
            let mins = 60 * hh + digits_value(s.subrange(pos + 4, pos + 6));
            &&& e == pos + 3 ==> off == TzOffset::Hours(
                (if plus {
                    hh
                } else {
                    -hh
                }) as i32,
            )
            &&& e == pos + 6 ==> off == TzOffset::Minutes(
                (if plus {
                    mins
                } else {
                    -mins
                }) as i32,
            )
            &&& (e == pos + 3 || e == pos + 6)
        }),
{
    reveal_with_fuel(pow10, 3);
    let t = s.subrange(pos + 1, pos + 3);
    assert(fixed_digits(s, pos + 1, 2) is Some);
    crate::scan::lemma_digits_value_bound(t);
    assert(sp_two(s, pos + 1)->0 == digits_value(t));
    if e == pos + 6 {
        let t2 = s.subrange(pos + 4, pos + 6);
        crate::scan::lemma_digits_value_bound(t2);
        assert(sp_two(s, pos + 4)->0 == digits_value(t2));
    }
}

/// A two-digit field as written: two digits that read back as the number.
proof fn lemma_fmt_two(v: nat)
    requires
        v < 100,
    ensures
        fmt_uint(v, 2).len() == 2,
        digits_value(fmt_uint(v, 2)) == v,
        all_digits(fmt_uint(v, 2)),
{
    reveal_with_fuel(pow10, 3);
    crate::scan::lemma_fmt_uint_fixed(v, 2);
    crate::scan::lemma_fixed_value(v, 2);
}

/// A time zone is written with its sign: `+` for an offset of zero or east of UTC, `-` for
/// one west of it, then the hours (and for minutes, `:` and the minutes past the hour) of
/// its size.
pub proof fn lemma_tz_written_sign(tz: TzOffset)
    requires
        crate::tz_in_range(tz),
    ensures
        tz matches TzOffset::Hours(h) ==> ({
            let f = fmt_tz(tz);
            &&& f.len() == 3
            &&& (f[0] == 43u8 <==> h >= 0)
            &&& (f[0] == 45u8 <==> h < 0)
            &&& digits_value(f.subrange(1, 3)) == (if h < 0 { -h } else { h as int })
        }),
        tz matches TzOffset::Minutes(m) ==> ({
            let f = fmt_tz(tz);
            let a: int = if m < 0 { -m } else { m as int };
            &&& f.len() == 6
            &&& (f[0] == 43u8 <==> m >= 0)
            &&& (f[0] == 45u8 <==> m < 0)
            &&& digits_value(f.subrange(1, 3)) == a / 60
            &&& f[3] == 58u8
            &&& digits_value(f.subrange(4, 6)) == a % 60
        }),
{
    match tz {
        TzOffset::Hours(h) => {
            let a: int = if h < 0 { -h } else { h as int };
            lemma_fmt_two(a as nat);
            let f = fmt_tz(tz);
            assert(f.subrange(1, 3) =~= fmt_uint(a as nat, 2));
        },
        TzOffset::Minutes(m) => {
            let a: int = if m < 0 { -m } else { m as int };
            lemma_fmt_two((a / 60) as nat);
            lemma_fmt_two((a % 60) as nat);
            let f = fmt_tz(tz);
            assert(f.subrange(1, 3) =~= fmt_uint((a / 60) as nat, 2));
            assert(f.subrange(4, 6) =~= fmt_uint((a % 60) as nat, 2));
        },
        _ => {},
    }
}

} // verus!
