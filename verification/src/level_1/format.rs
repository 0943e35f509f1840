//! How level 1 values are written, and the proof that parsing then writing gives back the
//! input.

use vstd::prelude::*;

use crate::common::{fmt_datetime, push_datetime, sp_date_time, spec_datetime_validate};
use crate::scan::{all_digits, at, digits_value, fixed, fixed_digits, fmt_uint, pow10, push_uint, run_len};
use crate::text::{all_edtf_bytes, ascii_bytes, bytes_text, bytes_to_string, is_edtf_byte};
use crate::ParseError;
use super::basic::{spec_parse1, spec_parse_edtf1};
use super::packed::YearMask;
use super::parser::{sp_certainty, sp_date_certainty, sp_dm, sp_level1, sp_month_day, sp_year_maybe_mask, sp_year_signed, sp_year_x, sp_year_xx, sp_yyear, sp_single, sp_range, sp_unknown_end, sp_unknown_start, sp_open_end, sp_open_start, ParsedEdtf};
use super::{Certainty, Date, Edtf, Terminal, UnvalidatedDMEnum, UnvalidatedDate, YYear};

verus! {

/// How a year is written: an optional minus, then four digits, or three digits and `X`, or
/// two digits and `XX`.
pub open(crate) spec fn fmt_year1(y: int, mask: YearMask) -> Seq<u8> {
    let a: nat = (if y < 0 { -y } else { y }) as nat;
    let sign = if y < 0 {
        seq![45u8]
    } else {
        Seq::<u8>::empty()
    };
    sign + match mask {
        YearMask::Unmasked => fmt_uint(a, 4),
        YearMask::OneDigit => fmt_uint(a / 10, 3) + seq![88u8],
        YearMask::TwoDigits => fmt_uint(a / 100, 2) + seq![88u8, 88u8],
    }
}

/// How a month or day is written after its hyphen: `XX` or two digits.
pub open(crate) spec fn fmt_dm(p: UnvalidatedDMEnum) -> Seq<u8> {
    match p {
        UnvalidatedDMEnum::Unspecified => seq![45u8, 88u8, 88u8],
        UnvalidatedDMEnum::Unmasked(v) => seq![45u8] + fmt_uint(v as nat, 2),
    }
}

/// How the month and day are written: a day only after a month.
pub open(crate) spec fn fmt_md(m: Option<UnvalidatedDMEnum>, d: Option<UnvalidatedDMEnum>) -> Seq<
    u8,
> {
    match m {
        None => Seq::empty(),
        Some(mm) => match d {
            None => fmt_dm(mm),
            Some(dd) => fmt_dm(mm) + fmt_dm(dd),
        },
    }
}

/// How a certainty is written: nothing, `?`, `~` or `%`.
pub open(crate) spec fn fmt_certainty(c: Certainty) -> Seq<u8> {
    match c {
        Certainty::Certain => Seq::empty(),
        Certainty::Uncertain => seq![63u8],
        Certainty::Approximate => seq![126u8],
        Certainty::ApproximateUncertain => seq![37u8],
    }
}

/// How a level 1 date is written.
pub open(crate) spec fn fmt_date1(d: Date) -> Seq<u8> {
    fmt_year1(d.spec_year(), d.spec_year_mask()) + fmt_md(d.spec_month(), d.spec_day())
        + fmt_certainty(d.spec_certainty())
}

/// How a `Y`-year is written: `Y`, an optional minus, then its digits.
pub open(crate) spec fn fmt_yyear(v: int) -> Seq<u8> {
    seq![89u8] + (if v < 0 {
        seq![45u8]
    } else {
        Seq::<u8>::empty()
    }) + fmt_uint((if v < 0 { -v } else { v }) as nat, 1)
}

/// How an open or unknown end is written: `..` or nothing.
pub open(crate) spec fn fmt_terminal(t: Terminal) -> Seq<u8> {
    match t {
        Terminal::Open => seq![46u8, 46u8],
        Terminal::Unknown => Seq::empty(),
    }
}

/// How a level 1 EDTF is written.
pub open(crate) spec fn fmt_edtf1(e: Edtf) -> Seq<u8> {
    match e {
        Edtf::Date(d) => fmt_date1(d),
        Edtf::Interval(a, b) => fmt_date1(a) + seq![47u8] + fmt_date1(b),
        Edtf::IntervalFrom(a, t) => fmt_date1(a) + seq![47u8] + fmt_terminal(t),
        Edtf::IntervalTo(t, a) => fmt_terminal(t) + seq![47u8] + fmt_date1(a),
        Edtf::YYear(y) => fmt_yyear(y.spec_value() as int),
        Edtf::DateTime(dt) => fmt_datetime(dt),
    }
}

/// Appends a year as it is written.
fn push_year1(out: &mut Vec<u8>, y: i32, mask: YearMask)
    requires
        y > i32::MIN,
    ensures
        final(out)@ == old(out)@ + fmt_year1(y as int, mask),
{
    let a: u64 = if y < 0 {
        out.push(45);
        (-(y as i64)) as u64
    } else {
        y as u64
    };
    match mask {
        YearMask::Unmasked => push_uint(out, a, 4),
        YearMask::OneDigit => {
            push_uint(out, a / 10, 3);
            out.push(88);
        },
        YearMask::TwoDigits => {
            push_uint(out, a / 100, 2);
            out.push(88);
            out.push(88);
        },
    }
    assert(final(out)@ =~= old(out)@ + fmt_year1(y as int, mask));
}

/// Appends a month or day with its hyphen.
fn push_dm(out: &mut Vec<u8>, p: UnvalidatedDMEnum)
    ensures
        final(out)@ == old(out)@ + fmt_dm(p),
{
    out.push(45);
    match p {
        UnvalidatedDMEnum::Unspecified => {
            out.push(88);
            out.push(88);
        },
        UnvalidatedDMEnum::Unmasked(v) => push_uint(out, v as u64, 2),
    }
    assert(final(out)@ =~= old(out)@ + fmt_dm(p));
}

/// Appends a certainty suffix.
fn push_certainty(out: &mut Vec<u8>, c: Certainty)
    ensures
        final(out)@ == old(out)@ + fmt_certainty(c),
{
    match c {
        Certainty::Certain => {},
        Certainty::Uncertain => out.push(63),
        Certainty::Approximate => out.push(126),
        Certainty::ApproximateUncertain => out.push(37),
    }
    assert(final(out)@ =~= old(out)@ + fmt_certainty(c));
}

/// Appends a level 1 date as it is written.
fn push_date1(out: &mut Vec<u8>, d: &Date)
    ensures
        final(out)@ == old(out)@ + fmt_date1(*d),
{
    proof {
        use_type_invariant(d);
        d.lemma_facts();
    }
    let (y, yf) = d.year.unpack();
    push_year1(out, y, yf.mask);
    let m = d.month_part();
    let dd = d.day_part();
    if let Some(mm) = m {
        push_dm(out, mm);
        if let Some(x) = dd {
            push_dm(out, x);
        }
    }
    push_certainty(out, d.certainty);
    assert(final(out)@ =~= old(out)@ + fmt_date1(*d));
}

/// Appends a `Y`-year as it is written.
fn push_yyear(out: &mut Vec<u8>, v: i64)
    ensures
        final(out)@ == old(out)@ + fmt_yyear(v as int),
{
    out.push(89);
    let a: u64 = if v < 0 {
        out.push(45);
        (0i128 - v as i128) as u64
    } else {
        v as u64
    };
    push_uint(out, a, 1);
    assert(final(out)@ =~= old(out)@ + fmt_yyear(v as int));
}

/// Appends an open or unknown end.
fn push_terminal(out: &mut Vec<u8>, t: Terminal)
    ensures
        final(out)@ == old(out)@ + fmt_terminal(t),
{
    match t {
        Terminal::Open => {
            out.push(46);
            out.push(46);
        },
        Terminal::Unknown => {},
    }
    assert(final(out)@ =~= old(out)@ + fmt_terminal(t));
}

/// Every byte of `a + b` is an EDTF byte when those of `a` and `b` are.
proof fn lemma_concat(a: Seq<u8>, b: Seq<u8>)
    requires
        all_edtf_bytes(a),
        all_edtf_bytes(b),
    ensures
        all_edtf_bytes(a + b),
{
    crate::common::lemma_edtf_concat(a, b);
}

/// Written dates are made of EDTF characters.
proof fn lemma_fmt_date1_edtf(d: Date)
    ensures
        all_edtf_bytes(fmt_date1(d)),
{
    let y = d.spec_year();
    let a: nat = (if y < 0 { -y } else { y }) as nat;
    crate::common::lemma_fmt_uint_edtf(a, 4);
    crate::common::lemma_fmt_uint_edtf(a / 10, 3);
    crate::common::lemma_fmt_uint_edtf(a / 100, 2);
    let yf = fmt_year1(y, d.spec_year_mask());
    assert(all_edtf_bytes(yf)) by {
        assert forall|i: int| 0 <= i < yf.len() implies is_edtf_byte(#[trigger] yf[i]) by {
            assert(all_edtf_bytes(fmt_uint(a, 4)));
        }
    }
    assert forall|p: UnvalidatedDMEnum| all_edtf_bytes(#[trigger] fmt_dm(p)) by {
        if let UnvalidatedDMEnum::Unmasked(v) = p {
            crate::common::lemma_fmt_uint_edtf(v as nat, 2);
            lemma_concat(seq![45u8], fmt_uint(v as nat, 2));
        }
    }
    let md = fmt_md(d.spec_month(), d.spec_day());
    if let (Some(m), Some(dd)) = (d.spec_month(), d.spec_day()) {
        lemma_concat(fmt_dm(m), fmt_dm(dd));
    }
    assert(all_edtf_bytes(md));
    lemma_concat(yf, md);
    lemma_concat(yf + md, fmt_certainty(d.spec_certainty()));
}

/// Written level 1 values are made of EDTF characters.
proof fn lemma_fmt_edtf1_edtf(e: Edtf)
    ensures
        all_edtf_bytes(fmt_edtf1(e)),
{
    match e {
        Edtf::Date(d) => lemma_fmt_date1_edtf(d),
        Edtf::Interval(a, b) => {
            lemma_fmt_date1_edtf(a);
            lemma_fmt_date1_edtf(b);
            lemma_concat(fmt_date1(a), seq![47u8]);
            lemma_concat(fmt_date1(a) + seq![47u8], fmt_date1(b));
        },
        Edtf::IntervalFrom(a, t) => {
            lemma_fmt_date1_edtf(a);
            lemma_concat(fmt_date1(a), seq![47u8]);
            lemma_concat(fmt_date1(a) + seq![47u8], fmt_terminal(t));
        },
        Edtf::IntervalTo(t, a) => {
            lemma_fmt_date1_edtf(a);
            lemma_concat(fmt_terminal(t), seq![47u8]);
            lemma_concat(fmt_terminal(t) + seq![47u8], fmt_date1(a));
        },
        Edtf::YYear(y) => {
            let v = y.spec_value() as int;
            crate::common::lemma_fmt_uint_edtf((if v < 0 { -v } else { v }) as nat, 1);
            let f = fmt_yyear(v);
            assert forall|i: int| 0 <= i < f.len() implies is_edtf_byte(#[trigger] f[i]) by {
                assert(all_edtf_bytes(fmt_uint((if v < 0 { -v } else { v }) as nat, 1)));
            }
        },
        Edtf::DateTime(dt) => crate::common::lemma_fmt_datetime_edtf(dt),
    }
}

impl Date {
    /// The EDTF text of this date.
    pub fn to_string(&self) -> (r: String)
        ensures
            r@ == bytes_text(fmt_date1(*self)),
    {
        let mut out: Vec<u8> = Vec::new();
        push_date1(&mut out, self);
        proof {
            lemma_fmt_date1_edtf(*self);
            assert(out@ =~= fmt_date1(*self));
        }
        bytes_to_string(&out)
    }
}

impl YYear {
    /// The EDTF text of this year: `Y` and its digits.
    pub fn to_string(&self) -> (r: String)
        ensures
            r@ == bytes_text(fmt_yyear(self.spec_value() as int)),
    {
        let mut out: Vec<u8> = Vec::new();
        push_yyear(&mut out, self.0);
        proof {
            lemma_fmt_edtf1_edtf(Edtf::YYear(*self));
            assert(out@ =~= fmt_yyear(self.spec_value() as int));
        }
        bytes_to_string(&out)
    }
}

impl Edtf {
    /// The EDTF text of this value.
    pub fn to_string(&self) -> (r: String)
        ensures
            r@ == bytes_text(fmt_edtf1(*self)),
    {
        let mut out: Vec<u8> = Vec::new();
        match self {
            Edtf::Date(d) => push_date1(&mut out, d),
            Edtf::Interval(a, b) => {
                push_date1(&mut out, a);
                out.push(47);
                push_date1(&mut out, b);
            },
            Edtf::IntervalFrom(a, t) => {
                push_date1(&mut out, a);
                out.push(47);
                push_terminal(&mut out, *t);
            },
            Edtf::IntervalTo(t, a) => {
                push_terminal(&mut out, *t);
                out.push(47);
                push_date1(&mut out, a);
            },
            Edtf::YYear(y) => push_yyear(&mut out, y.0),
            Edtf::DateTime(dt) => push_datetime(&mut out, dt),
        }
        proof {
            lemma_fmt_edtf1_edtf(*self);
            assert(out@ =~= fmt_edtf1(*self));
        }
        bytes_to_string(&out)
    }
}

} // verus!

verus! {

/// `n` digits that were read are written back the same way.
proof fn lemma_n_fmt(s: Seq<u8>, pos: int, n: nat)
    requires
        fixed_digits(s, pos, n) is Some,
        n >= 1,
    ensures
        fmt_uint(fixed_digits(s, pos, n)->0, n) == s.subrange(pos, pos + n),
        fixed_digits(s, pos, n)->0 < pow10(n),
        0 <= pos,
        pos + n <= s.len(),
{
    let t = s.subrange(pos, pos + n);
    crate::scan::lemma_digits_value_bound(t);
    crate::scan::lemma_fixed_roundtrip(t);
    crate::scan::lemma_fmt_uint_fixed(digits_value(t), n);
}

/// A signed year prefix that was read is written back the same way.
proof fn lemma_year_signed_fmt(s: Seq<u8>, pos: int, n: nat)
    requires
        sp_year_signed(s, pos, n) is Some,
        n >= 1,
    ensures
        ({
            let (i, p) = sp_year_signed(s, pos, n)->0;
            &&& (if i < 0 {
                seq![45u8]
            } else {
                Seq::<u8>::empty()
            }) + fmt_uint((if i < 0 { -i } else { i }) as nat, n) == s.subrange(pos, p)
            &&& 0 <= pos <= p <= s.len()
        }),
{
    let neg = at(s, pos, 45);
    let q = if neg {
        pos + 1
    } else {
        pos
    };
    lemma_n_fmt(s, q, n);
    let (i, p) = sp_year_signed(s, pos, n)->0;
    if neg {
        assert(s.subrange(pos, p) =~= seq![45u8] + s.subrange(q, p));
    } else {
        assert(s.subrange(pos, p) =~= Seq::<u8>::empty() + s.subrange(q, p));
    }
}

/// A year that was read is written back the same way.
proof fn lemma_year1_fmt(s: Seq<u8>, pos: int)
    requires
        sp_year_maybe_mask(s, pos) is Some,
    ensures
        ({
            let ((y, ym), p) = sp_year_maybe_mask(s, pos)->0;
            &&& fmt_year1(y, ym) == s.subrange(pos, p)
            &&& 0 <= pos <= p <= s.len()
            &&& -9999 <= y <= 9999
        }),
{
    let ((y, ym), p) = sp_year_maybe_mask(s, pos)->0;
    if sp_year_xx(s, pos) is Some {
        lemma_year_signed_fmt(s, pos, 2);
        let (i, q) = sp_year_signed(s, pos, 2)->0;
        lemma_n_fmt(s, if at(s, pos, 45) { pos + 1 } else { pos }, 2);
        reveal_with_fuel(pow10, 3);
        let a: int = if i < 0 { -i } else { i };
        assert(a < 100);
        assert((if y < 0 { -y } else { y }) / 100 == a);
        assert(s.subrange(pos, p) =~= s.subrange(pos, q) + seq![88u8, 88u8]);
        assert(fmt_year1(y, ym) =~= s.subrange(pos, p));
    } else if sp_year_x(s, pos) is Some {
        lemma_year_signed_fmt(s, pos, 3);
        let (i, q) = sp_year_signed(s, pos, 3)->0;
        lemma_n_fmt(s, if at(s, pos, 45) { pos + 1 } else { pos }, 3);
        reveal_with_fuel(pow10, 4);
        let a: int = if i < 0 { -i } else { i };
        assert(a < 1000);
        assert((if y < 0 { -y } else { y }) / 10 == a);
        assert(s.subrange(pos, p) =~= s.subrange(pos, q) + seq![88u8]);
        assert(fmt_year1(y, ym) =~= s.subrange(pos, p));
    } else {
        lemma_year_signed_fmt(s, pos, 4);
        lemma_n_fmt(s, if at(s, pos, 45) { pos + 1 } else { pos }, 4);
        reveal_with_fuel(pow10, 5);
        assert(fmt_year1(y, ym) =~= s.subrange(pos, p));
    }
}

/// A hyphen and a month or day that were read are written back the same way.
proof fn lemma_dm_fmt(s: Seq<u8>, pos: int)
    requires
        at(s, pos, 45),
        sp_dm(s, pos + 1) is Some,
    ensures
        ({
            let (x, e) = sp_dm(s, pos + 1)->0;
            fmt_dm(x) == s.subrange(pos, e) && pos < e <= s.len()
        }),
{
    let (x, e) = sp_dm(s, pos + 1)->0;
    if at(s, pos + 1, 88) && at(s, pos + 2, 88) {
        assert(fmt_dm(x) =~= s.subrange(pos, e));
    } else {
        crate::common::lemma_two_fmt(s, pos + 1);
        assert(fmt_dm(x) =~= s.subrange(pos, e));
    }
}

/// The month and day that were read are written back the same way.
proof fn lemma_md_fmt(s: Seq<u8>, p: int)
    requires
        0 <= p <= s.len(),
    ensures
        ({
            let (m, d, q) = sp_month_day(s, p);
            fmt_md(m, d) == s.subrange(p, q) && p <= q <= s.len()
        }),
{
    let (m, d, q) = sp_month_day(s, p);
    if at(s, p, 45) && sp_dm(s, p + 1) is Some {
        lemma_dm_fmt(s, p);
        let (mm, q1) = sp_dm(s, p + 1)->0;
        if at(s, q1, 45) && sp_dm(s, q1 + 1) is Some {
            lemma_dm_fmt(s, q1);
            assert(s.subrange(p, q) =~= s.subrange(p, q1) + s.subrange(q1, q));
        }
    } else {
        assert(s.subrange(p, q) =~= Seq::<u8>::empty());
    }
}

/// The certainty that was read is written back the same way.
proof fn lemma_certainty_fmt(s: Seq<u8>, q: int)
    requires
        0 <= q <= s.len(),
    ensures
        ({
            let (c, r) = sp_certainty(s, q);
            fmt_certainty(c) == s.subrange(q, r) && q <= r <= s.len()
        }),
{
    let (c, r) = sp_certainty(s, q);
    assert(fmt_certainty(c) =~= s.subrange(q, r));
}

/// A level 1 date that was read and validated is written back the same way.
proof fn lemma_date1_fmt(s: Seq<u8>, pos: int, u: UnvalidatedDate, e: int, x: Date)
    requires
        sp_date_certainty(s, pos) == Some((u, e)),
        spec_validate_date_ok(u, x),
    ensures
        fmt_date1(x) == s.subrange(pos, e),
        0 <= pos <= e <= s.len(),
{
    reveal(sp_date_certainty);
    super::validate::lemma_written_roundtrip(u);
    x.lemma_facts();
    lemma_year1_fmt(s, pos);
    let ((y, ym), p) = sp_year_maybe_mask(s, pos)->0;
    lemma_md_fmt(s, p);
    let (m, d, q) = sp_month_day(s, p);
    lemma_certainty_fmt(s, q);
    assert(x.spec_year() == y);
    assert(s.subrange(pos, e) =~= s.subrange(pos, p) + s.subrange(p, q) + s.subrange(q, e));
}

/// Validation turned `u` into `x`.
pub open(crate) spec fn spec_validate_date_ok(u: UnvalidatedDate, x: Date) -> bool {
    super::spec_validate_date(u) == Ok::<Date, ParseError>(x)
}

/// The digits of a `Y`-year start with a zero.
pub open(crate) spec fn yyear_leading_zero(s: Seq<u8>) -> bool {
    at(s, if at(s, 1, 45) { 2 } else { 1 }, 48)
}

/// A `Y`-year that was read is written back the same way, unless it has leading zeros.
proof fn lemma_yyear_fmt(s: Seq<u8>)
    requires
        sp_yyear(s) matches Some((v, end)) && end == s.len() && !super::inside_9999(v as int),
        !yyear_leading_zero(s),
    ensures
        match sp_yyear(s) {
            Some((v, _)) => fmt_yyear(v as int) == s,
            None => false,
        },
{
    let (v, end) = sp_yyear(s)->0;
    let neg = at(s, 1, 45);
    let p: int = if neg { 2 } else { 1 };
    let k = run_len(s, p, 100);
    crate::scan::lemma_run_len(s, p, 100);
    let t = s.subrange(p, p + k);
    crate::scan::lemma_uint_roundtrip(t);
    if neg {
        assert(s =~= seq![89u8] + seq![45u8] + t);
    } else {
        assert(s =~= seq![89u8] + Seq::<u8>::empty() + t);
    }
    assert(fmt_yyear(v as int) =~= s);
}

/// `date/date` that was read and validated is written back the same way.
proof fn lemma_range_fmt(s: Seq<u8>, a: UnvalidatedDate, b: UnvalidatedDate, x: Date, y: Date)
    requires
        sp_range(s) == Some((a, b)),
        spec_validate_date_ok(a, x),
        spec_validate_date_ok(b, y),
    ensures
        fmt_date1(x) + seq![47u8] + fmt_date1(y) == s,
{
    let n = s.len() as int;
    let (a1, e1) = sp_date_certainty(s, 0)->0;
    let (b1, e2) = sp_date_certainty(s, e1 + 1)->0;
    lemma_date1_fmt(s, 0, a, e1, x);
    lemma_date1_fmt(s, e1 + 1, b, e2, y);
    assert(s =~= s.subrange(0, e1) + seq![47u8] + s.subrange(e1 + 1, n));
}

/// `date/` that was read and validated is written back the same way.
proof fn lemma_unknown_end_fmt(s: Seq<u8>, a: UnvalidatedDate, x: Date)
    requires
        sp_unknown_end(s) == Some(a),
        spec_validate_date_ok(a, x),
    ensures
        fmt_date1(x) + seq![47u8] == s,
{
    let (a1, e1) = sp_date_certainty(s, 0)->0;
    assert(a1 == a && s[e1] == 47 && e1 + 1 == s.len());
    lemma_date1_fmt(s, 0, a, e1, x);
    assert(s =~= s.subrange(0, e1) + seq![47u8]);
}

/// `date/..` that was read and validated is written back the same way.
proof fn lemma_open_end_fmt(s: Seq<u8>, a: UnvalidatedDate, x: Date)
    requires
        sp_open_end(s) == Some(a),
        spec_validate_date_ok(a, x),
    ensures
        fmt_date1(x) + seq![47u8, 46u8, 46u8] == s,
{
    let (a1, e1) = sp_date_certainty(s, 0)->0;
    assert(a1 == a && e1 + 3 == s.len());
    lemma_date1_fmt(s, 0, a, e1, x);
    assert(s =~= s.subrange(0, e1) + seq![47u8, 46u8, 46u8]);
}

/// `/date` and `../date` that were read and validated are written back the same way.
proof fn lemma_to_fmt(s: Seq<u8>, a: UnvalidatedDate, x: Date, t: Terminal)
    requires
        t == Terminal::Unknown ==> sp_unknown_start(s) == Some(a),
        t == Terminal::Open ==> sp_open_start(s) == Some(a),
        spec_validate_date_ok(a, x),
    ensures
        fmt_terminal(t) + seq![47u8] + fmt_date1(x) == s,
{
    let n = s.len() as int;
    if t == Terminal::Unknown {
        let (a1, e1) = sp_date_certainty(s, 1)->0;
        lemma_date1_fmt(s, 1, a, e1, x);
        assert(s =~= Seq::<u8>::empty() + seq![47u8] + s.subrange(1, n));
    } else {
        let (a1, e1) = sp_date_certainty(s, 3)->0;
        lemma_date1_fmt(s, 3, a, e1, x);
        assert(s =~= seq![46u8, 46u8] + seq![47u8] + s.subrange(3, n));
    }
}

/// Lossless formatting: a level 1 EDTF parsed from a text is written back as that text. The
/// exceptions: a timestamp whose time zone is written `-00` or `-00:00` comes back with `+`,
/// and a `Y`-year written with leading zeros comes back without them.
#[verifier::rlimit(40)]
pub proof fn lemma_parse_format_roundtrip1(input: Seq<char>, e: Edtf)
    requires
        spec_parse_edtf1(input) == Ok::<Edtf, ParseError>(e),
        !(e is DateTime && crate::common::negative_zero_offset_at(ascii_bytes(input), 19)),
        !(e is YYear && yyear_leading_zero(ascii_bytes(input))),
    ensures
        bytes_text(fmt_edtf1(e)) == input,
{
    let s = ascii_bytes(input);
    crate::text::lemma_ascii_roundtrip(input);
    let n = s.len() as int;
    if sp_yyear(s) is Some {
        lemma_yyear_fmt(s);
    } else if sp_single(s) is Some {
        let (u, end) = sp_date_certainty(s, 0)->0;
        lemma_date1_fmt(s, 0, u, end, e->Date_0);
        assert(s.subrange(0, n) =~= s);
    } else if sp_date_time(s) is Some {
        crate::common::lemma_datetime_fmt(s, e->DateTime_0);
    } else {
        match sp_level1(s)->0 {
            ParsedEdtf::Interval(a, b) => lemma_range_fmt(s, a, b, e->Interval_0, e->Interval_1),
            ParsedEdtf::IntervalFrom(a, t) => {
                let x = e->IntervalFrom_0;
                if t == Terminal::Unknown {
                    lemma_unknown_end_fmt(s, a, x);
                    assert(fmt_edtf1(e) =~= fmt_date1(x) + seq![47u8]);
                } else {
                    lemma_open_end_fmt(s, a, x);
                    assert(fmt_edtf1(e) =~= fmt_date1(x) + seq![47u8, 46u8, 46u8]);
                }
            },
            ParsedEdtf::IntervalTo(t, a) => lemma_to_fmt(s, a, e->IntervalTo_1, t),
            _ => {},
        }
    }
}

} // verus!
