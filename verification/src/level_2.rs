//! # EDTF Level 2 (partial)
//!
//! Scientific years: `Y17E7` (17 times ten to the seventh), `Y157900S3` (three significant
//! digits), `1234S2` (a four-digit year with significant digits).

use vstd::prelude::*;

use crate::common::{byte_is, lift};
use crate::scan::{
    all_digits, at, digit_run, digits_value, fixed_digits, lemma_pow10_mono, lemma_run_len,
    num_digits, pow10, read_bounded, read_fixed, run_len,
};
use crate::text::{ascii_bytes, ascii_input, is_ascii_text};
use crate::ParseError;

verus! {

/// A year equal to `mantissa * 10^exponent`, to a precision of `sig_digits`.
#[derive(Debug, Copy, Clone, PartialEq, Eq, Structural)]
pub struct ScientificYear {
    /// Includes the sign.
    pub(crate) mantissa: i64,
    pub(crate) exponent: Option<u16>,
    pub(crate) sig_digits: Option<u16>,
}

/// A placeholder for level 2 calendar dates, which are not implemented.
#[derive(Debug, Copy, Clone, PartialEq, Eq, Structural)]
pub enum Date {
    Placeholder,
}

/// A level 2 EDTF: so far, scientific years.
#[derive(Debug, Copy, Clone, PartialEq, Eq, Structural)]
pub enum Edtf {
    Date(Date),
    Scientific(ScientificYear),
}

/// `mantissa * 10^exponent` when both the power of ten and the product fit in an `i64`.
pub open spec fn value_of(mantissa: int, exponent: nat) -> Option<int> {
    if pow10(exponent) > i64::MAX {
        None
    } else {
        let v = mantissa * pow10(exponent);
        if i64::MIN <= v <= i64::MAX {
            Some(v)
        } else {
            None
        }
    }
}

/// A year of at most four digits.
pub open spec fn inside_9999(v: int) -> bool {
    -9999 <= v <= 9999
}

/// The absolute value.
pub open spec fn abs(v: int) -> nat {
    (if v < 0 { -v } else { v }) as nat
}

/// `x` unless it is zero.
pub open spec fn nonzero(x: u16) -> Option<u16> {
    if x > 0 {
        Some(x)
    } else {
        None
    }
}

impl ScientificYear {
    /// The mantissa, with the sign.
    pub open(crate) spec fn spec_mantissa(self) -> i64 {
        self.mantissa
    }

    /// The exponent, if written.
    pub open(crate) spec fn spec_exponent(self) -> Option<u16> {
        self.exponent
    }

    /// The significant digits, if written.
    pub open(crate) spec fn spec_sig_digits(self) -> Option<u16> {
        self.sig_digits
    }

    /// The exponent, 0 when absent.
    pub open(crate) spec fn exp(self) -> nat {
        match self.exponent {
            Some(e) => e as nat,
            None => 0,
        }
    }

    /// The year, when it fits an `i64`.
    pub open(crate) spec fn spec_value_opt(self) -> Option<int> {
        value_of(self.mantissa as int, self.exp())
    }

    /// The year; every `ScientificYear` has one that fits an `i64`.
    pub open(crate) spec fn spec_value(self) -> int {
        self.spec_value_opt()->0
    }

    /// Every `ScientificYear` is one that validation accepts: its value fits an `i64`, its
    /// exponent is not written as zero, and its significant digits are between one and the
    /// number of digits of the value.
    #[verifier::type_invariant]
    pub open(crate) spec fn wf(self) -> bool {
        spec_validate_sci(self.mantissa, self.exponent, self.sig_digits) is Ok
    }
}

/// What validating a scientific year gives: `Invalid` when its value overflows, when its
/// exponent is written as zero, or when its significant digits are zero or more than the
/// digits of the value.
pub open(crate) spec fn spec_validate_sci(m: i64, e: Option<u16>, sd: Option<u16>) -> Result<
    ScientificYear,
    ParseError,
> {
    let exp: nat = match e {
        Some(x) => x as nat,
        None => 0,
    };
    match value_of(m as int, exp) {
        None => Err(ParseError::Invalid),
        Some(v) => if e == Some(0u16) {
            Err(ParseError::Invalid)
        } else {
            match sd {
                Some(d) => if d == 0 || d > num_digits(abs(v)) {
                    Err(ParseError::Invalid)
                } else {
                    Ok(ScientificYear { mantissa: m, exponent: e, sig_digits: sd })
                },
                None => Ok(ScientificYear { mantissa: m, exponent: e, sig_digits: sd }),
            }
        },
    }
}

/// `10^exp` and the product with `m`, checked for overflow.
fn value_opt(m: i64, exp: u16) -> (r: Option<i64>)
    ensures
        match value_of(m as int, exp as nat) {
            Some(v) => r == Some(v as i64),
            None => r is None,
        },
{
    let mut tens: i64 = 1;
    let mut i: u16 = 0;
    while i < exp
        invariant
            i <= exp,
            tens == pow10(i as nat),
            tens <= i64::MAX,
        decreases exp - i,
    {
        match tens.checked_mul(10) {
            Some(t) => {
                tens = t;
            },
            None => {
                proof {
                    lemma_pow10_mono(i as nat + 1, exp as nat);
                }
                return None;
            },
        }
        i = i + 1;
    }
    m.checked_mul(tens)
}

/// The number of decimal digits of `n` (one for zero), sign ignored.
pub fn n_base10_digits(n: i64) -> (r: u16)
    ensures
        r == num_digits(abs(n as int)),
{
    let mut v: u64 = if n < 0 {
        (0i128 - n as i128) as u64
    } else {
        n as u64
    };
    let ghost orig = v as nat;
    let mut count: u16 = 0;
    proof {
        lemma_count_digits(orig);
    }
    while v != 0
        invariant
            count + count_digits(v as nat) == count_digits(orig),
            count_digits(orig) <= 20,
        decreases v,
    {
        v = v / 10;
        count = count + 1;
    }
    proof {
        lemma_count_digits(orig);
    }
    if count > 1 {
        count
    } else {
        1
    }
}

/// The number of decimal digits of `v`, zero for zero.
pub open spec fn count_digits(v: nat) -> nat
    decreases v,
{
    if v == 0 {
        0
    } else {
        1 + count_digits(v / 10)
    }
}

proof fn lemma_count_digits(v: nat)
    requires
        v <= u64::MAX,
    ensures
        num_digits(v) == (if count_digits(v) >= 1 { count_digits(v) } else { 1 }),
        count_digits(v) <= 20,
    decreases v,
{
    reveal_with_fuel(count_digits, 2);
    if v >= 10 {
        lemma_count_digits(v / 10);
        reveal_with_fuel(pow10, 21);
        crate::scan::lemma_num_digits_le(v, 20);
    }
}

impl ScientificYear {
    /// Checks a scientific year: its value fits an `i64`, its exponent is not written as zero
    /// and its significant digits are 1 up to the number of digits of the value.
    pub(crate) fn validate(m: i64, e: Option<u16>, sd: Option<u16>) -> (r: Result<Self, ParseError>)
        ensures
            r == spec_validate_sci(m, e, sd),
    {
        let exp: u16 = match e {
            Some(x) => x,
            None => 0,
        };
        let v = match value_opt(m, exp) {
            Some(v) => v,
            None => return Err(ParseError::Invalid),
        };
        if e == Some(0u16) {
            return Err(ParseError::Invalid);
        }
        if let Some(d) = sd {
            let num = n_base10_digits(v);
            if d == 0 || d > num {
                return Err(ParseError::Invalid);
            }
        }
        Ok(ScientificYear { mantissa: m, exponent: e, sig_digits: sd })
    }

    /// A scientific year from its parts as stored; validation must accept them.
    pub fn raw(m: i64, e: Option<u16>, s: Option<u16>) -> (r: Self)
        requires
            spec_validate_sci(m, e, s) is Ok,
        ensures
            r.spec_mantissa() == m,
            r.spec_exponent() == e,
            r.spec_sig_digits() == s,
    {
        ScientificYear { mantissa: m, exponent: e, sig_digits: s }
    }

    /// Gets the value of a scientific year, `mantissa * 10^exponent`.
    pub fn value(&self) -> (r: i64)
        ensures
            r == self.spec_value(),
    {
        proof {
            use_type_invariant(self);
        }
        let exp: u16 = match self.exponent {
            Some(x) => x,
            None => 0,
        };
        match value_opt(self.mantissa, exp) {
            Some(v) => v,
            None => vstd::pervasive::unreached(),
        }
    }

    /// Gets the mantissa, with its sign.
    pub fn mantissa(&self) -> (r: i64)
        ensures
            r == self.spec_mantissa(),
    {
        self.mantissa
    }

    /// Gets the exponent; 0 means absent.
    pub fn exponent(&self) -> (r: u16)
        ensures
            r == self.exp(),
    {
        match self.exponent {
            Some(e) => e,
            None => 0,
        }
    }

    /// Gets the number of significant digits; 0 means absent.
    pub fn sig_digits(&self) -> (r: u16)
        ensures
            r == (match self.spec_sig_digits() {
                Some(s) => s,
                None => 0u16,
            }),
    {
        match self.sig_digits {
            Some(s) => s,
            None => 0,
        }
    }
}

/// The smaller of two numbers.
pub open spec fn min_nat(a: nat, b: nat) -> nat {
    if a <= b {
        a
    } else {
        b
    }
}

/// A scientific year with its significant digits set to `sig`, limited to the number of
/// digits of the value; zero removes them when the value has more than four digits.
pub open(crate) spec fn spec_and_sd(y: ScientificYear, sig: u16) -> ScientificYear {
    let v = y.spec_value();
    let sd = min_nat(num_digits(abs(v)), sig as nat);
    if sd == 0 {
        if !inside_9999(v) {
            ScientificYear { sig_digits: None, ..y }
        } else {
            y
        }
    } else {
        ScientificYear { sig_digits: Some(sd as u16), ..y }
    }
}

/// What [ScientificYear::new_or_cal] gives: `Err(None)` when the value overflows, a
/// calendar date when the value has at most four digits and neither exponent nor
/// significant digits, else the scientific year.
pub open(crate) spec fn spec_new_or_cal(m: i64, e: u16, sd: u16) -> Result<ScientificYear, Option<Edtf>> {
    match spec_validate_sci(m, nonzero(e), None) {
        Err(_) => Err(None),
        Ok(s) => {
            let x = spec_and_sd(s, sd);
            if x.sig_digits is None && x.exp() == 0 && inside_9999(x.spec_value()) {
                Err(Some(Edtf::Date(Date::Placeholder)))
            } else {
                Ok(x)
            }
        },
    }
}

/// A positive number without its trailing zeros, and how many there were.
pub open spec fn strip_zeros(a: nat) -> (nat, nat)
    decreases a,
{
    if a > 0 && a % 10 == 0 {
        let (b, k) = strip_zeros(a / 10);
        (b, k + 1)
    } else {
        (a, 0)
    }
}

/// The signed mantissa of `n` without trailing zeros.
pub open spec fn stripped_mantissa(n: int) -> int {
    if n < 0 {
        -(strip_zeros(abs(n)).0 as int)
    } else {
        strip_zeros(abs(n)).0 as int
    }
}

/// What [ScientificYear::auto_opt] gives for a year: None for a year of at most four
/// digits without trailing zeros; the year as it is when it has more than four digits and at
/// most two trailing zeros; else the year with its trailing zeros in the exponent.
pub open(crate) spec fn spec_auto_opt(n: i64) -> Option<ScientificYear> {
    let m = stripped_mantissa(n as int);
    let e = strip_zeros(abs(n as int)).1;
    if inside_9999(n as int) && e == 0 {
        None
    } else if !inside_9999(m) && e <= 2 {
        Some(ScientificYear { mantissa: n, exponent: None, sig_digits: None })
    } else {
        Some(ScientificYear { mantissa: m as i64, exponent: nonzero(e as u16), sig_digits: None })
    }
}

proof fn lemma_strip_zeros(a: nat)
    requires
        a > 0,
    ensures
        strip_zeros(a).0 * pow10(strip_zeros(a).1) == a,
        strip_zeros(a).0 > 0,
        strip_zeros(a).0 % 10 != 0,
        strip_zeros(a).0 <= a,
        pow10(strip_zeros(a).1) <= a,
        a % 10 != 0 ==> strip_zeros(a).1 == 0,
        a <= u64::MAX ==> strip_zeros(a).1 <= 19,
    decreases a,
{
    if a % 10 == 0 {
        lemma_strip_zeros(a / 10);
        let (b, k) = strip_zeros(a / 10);
        assert(pow10(k + 1) == 10 * pow10(k));
        assert(b * (10 * pow10(k)) == (b * pow10(k)) * 10) by (nonlinear_arith);
        assert(a == (a / 10) * 10);
    } else {
        assert(pow10(0) == 1);
    }
    let (b, k) = strip_zeros(a);
    if a <= u64::MAX && k > 19 {
        lemma_pow10_mono(20, k);
        reveal_with_fuel(pow10, 21);
        assert(false);
    }
}

/// The value of the scientific year that [spec_auto_opt] gives is the year.
proof fn lemma_auto_value(n: i64)
    requires
        n != 0,
    ensures
        spec_auto_opt(n) matches Some(s) ==> s.wf() && s.spec_value() == n,
{
    let a = abs(n as int);
    lemma_strip_zeros(a);
    let (b, k) = strip_zeros(a);
    if spec_auto_opt(n) is Some {
        let s = spec_auto_opt(n)->0;
        if !(!inside_9999(stripped_mantissa(n as int)) && k <= 2) {
            assert(s.exp() == k);
            lemma_pow10_mono(0, k);
            assert(b <= b * pow10(k)) by (nonlinear_arith)
                requires
                    pow10(k) >= 1,
            ;
            if a > i64::MAX {
                assert(a % 10 != 0);
            }
            assert(pow10(k) <= i64::MAX);
            if n < 0 {
                assert((-(b as int)) * pow10(k) == -(b * pow10(k))) by (nonlinear_arith);
            }
        } else {
            assert(s.exp() == 0);
            assert(pow10(0) == 1);
        }
    }
}

impl ScientificYear {
    /// Sets the significant digits to `sig_digits`, limited to the number of decimal digits
    /// of the value. Zero removes them, when the value is outside -9999..=9999.
    pub fn and_sd(&self, sig_digits: u16) -> (r: Self)
        ensures
            r == spec_and_sd(*self, sig_digits),
            r.spec_value() == self.spec_value(),
    {
        proof {
            use_type_invariant(self);
        }
        let val = self.value();
        let dig = n_base10_digits(val);
        let sd = if dig <= sig_digits {
            dig
        } else {
            sig_digits
        };
        if sd == 0 {
            if val < -9999 || val > 9999 {
                ScientificYear { sig_digits: None, ..*self }
            } else {
                *self
            }
        } else {
            ScientificYear { sig_digits: Some(sd), ..*self }
        }
    }

    /// Creates a scientific year without panicking. A zero exponent or zero significant
    /// digits means none; significant digits are limited to the digits of the value.
    /// `Err(None)` when the value overflows an `i64`; `Err(Some(Edtf::Date(..)))` when it has
    /// at most four digits and neither exponent nor significant digits, as such a year is a
    /// calendar date.
    pub fn new_or_cal(mantissa: i64, exponent: u16, sig_digits: u16) -> (r: Result<
        Self,
        Option<Edtf>,
    >)
        ensures
            r == spec_new_or_cal(mantissa, exponent, sig_digits),
    {
        let e = if exponent > 0 {
            Some(exponent)
        } else {
            None
        };
        let s = match Self::validate(mantissa, e, None) {
            Ok(s) => s,
            Err(_) => return Err(None),
        };
        let x = s.and_sd(sig_digits);
        let v = x.value();
        if x.sig_digits.is_none() && x.exponent() == 0 && -9999 <= v && v <= 9999 {
            return Err(Some(Edtf::Date(Date::Placeholder)));
        }
        Ok(x)
    }

    /// Creates a scientific year that [ScientificYear::new_or_cal] accepts.
    pub fn new(mantissa: i64, exponent: u16, sig_digits: u16) -> (r: Self)
        requires
            spec_new_or_cal(mantissa, exponent, sig_digits) is Ok,
        ensures
            Ok::<ScientificYear, Option<Edtf>>(r) == spec_new_or_cal(mantissa, exponent, sig_digits),
    {
        match Self::new_or_cal(mantissa, exponent, sig_digits) {
            Ok(x) => x,
            Err(_) => vstd::pervasive::unreached(),
        }
    }

    /// Puts the trailing zeros of a year in an exponent, except for years of more than four
    /// digits with at most two trailing zeros, which are kept as they are. None for a year of
    /// at most four digits without trailing zeros (`Y1751` is not EDTF), zero among them.
    pub fn auto_opt(n: i64) -> (r: Option<Self>)
        ensures
            r == spec_auto_opt(n),
            r matches Some(s) ==> s.spec_value() == n,
    {
        if n == 0 {
            return None;
        }
        proof {
            lemma_auto_value(n);
            lemma_strip_zeros(abs(n as int));
        }
        let mut a: u64 = if n < 0 {
            (0i128 - n as i128) as u64
        } else {
            n as u64
        };
        let ghost orig = a as nat;
        let mut e: u16 = 0;
        while a % 10 == 0
            invariant
                a > 0,
                strip_zeros(orig).0 == strip_zeros(a as nat).0,
                strip_zeros(orig).1 == strip_zeros(a as nat).1 + e,
                strip_zeros(orig).1 <= 19,
            decreases a,
        {
            a = a / 10;
            e = e + 1;
        }
        let m: i64 = if n < 0 {
            (0i128 - a as i128) as i64
        } else {
            a as i64
        };
        if -9999 <= n && n <= 9999 && e == 0 {
            return None;
        }
        if (m < -9999 || m > 9999) && e <= 2 {
            return Some(ScientificYear { mantissa: n, exponent: None, sig_digits: None });
        }
        Some(ScientificYear { mantissa: m, exponent: if e > 0 { Some(e) } else { None }, sig_digits: None })
    }

    /// Like [ScientificYear::auto_opt], for a year it accepts.
    pub fn auto(n: i64) -> (r: Self)
        requires
            spec_auto_opt(n) is Some,
        ensures
            Some(r) == spec_auto_opt(n),
            r.spec_value() == n,
    {
        match Self::auto_opt(n) {
            Some(x) => x,
            None => vstd::pervasive::unreached(),
        }
    }

    /// Runs the year through [ScientificYear::auto_opt], keeping its significant digits;
    /// unchanged when that gives None (for zero, or a short year without trailing zeros).
    pub fn normalise(&self) -> (r: Self)
        ensures
            r == (match spec_auto_opt(self.spec_value() as i64) {
                Some(s) => spec_and_sd(
                    s,
                    match self.spec_sig_digits() {
                        Some(d) => d,
                        None => 0u16,
                    },
                ),
                None => *self,
            }),
            r.spec_value() == self.spec_value(),
    {
        let v = self.value();
        match Self::auto_opt(v) {
            Some(s) => s.and_sd(self.sig_digits()),
            None => *self,
        }
    }
}

/// The range of years that the significant digits cover: the years that agree with the value
/// in its significant digits, from the value with its other digits set to zero to the same
/// with them set to nine (for a negative value, from nines to zeros: -1950 to two digits
/// covers -1999..=-1900). Without significant digits, the value alone.
pub open(crate) spec fn spec_range(y: ScientificYear) -> (int, int) {
    let v = y.spec_value();
    match y.sig_digits {
        Some(sd) => if sd != 0 {
            let nd = num_digits(abs(v));
            let w: nat = if nd >= sd { (nd - sd) as nat } else { 0 };
            let t = pow10(w) as int;
            let z = v - crate::common::trunc_rem(v, t);
            if v >= 0 {
                (z, z + t - 1)
            } else {
                (z - t + 1, z)
            }
        } else {
            (v, v)
        },
        None => (v, v),
    }
}

impl ScientificYear {
    /// Gets the range of values covered by the significant digits:
    /// `ScientificYear::new(1950, 0, 2)` covers 1900..=1999 and `new(-1950, 0, 2)` covers
    /// -1999..=-1900. The estimate itself is [ScientificYear::value], which the range
    /// contains. The range must fit an `i64`.
    pub fn range(&self) -> (r: core::ops::RangeInclusive<i64>)
        requires
            i64::MIN <= spec_range(*self).0,
            spec_range(*self).1 <= i64::MAX,
        ensures
            r@.start == spec_range(*self).0,
            r@.end == spec_range(*self).1,
            !r@.exhausted,
            r@.start <= self.spec_value() <= r@.end,
            self.spec_sig_digits() is None ==> r@.start == self.spec_value() == r@.end,
    {
        proof {
            use_type_invariant(self);
        }
        let val = self.value();
        let sd = match self.sig_digits {
            Some(x) => x,
            None => 0,
        };
        if sd == 0 {
            return core::ops::RangeInclusive::new(val, val);
        }
        let n_dig = n_base10_digits(val);
        proof {
            let a = abs(val as int);
            reveal_with_fuel(pow10, 20);
            assert(a < pow10(19));
            crate::scan::lemma_num_digits_le(a, 19);
        }
        let w: u16 = if n_dig >= sd {
            n_dig - sd
        } else {
            0
        };
        proof {
            lemma_pow10_mono(w as nat, 18);
            reveal_with_fuel(pow10, 19);
            assert(value_of(1, w as nat) == Some(pow10(w as nat) as int));
        }
        let tens: i64 = match value_opt(1, w) {
            Some(t) => t,
            None => vstd::pervasive::unreached(),
        };
        let v = val as i128;
        let t = tens as i128;
        let rem: i128 = if v >= 0 {
            v % t
        } else {
            -((-v) % t)
        };
        let z = v - rem;
        let (start, end) = if v >= 0 {
            (z, z + t - 1)
        } else {
            (z - t + 1, z)
        };
        proof {
            lemma_pow10_mono(0, w as nat);
            assert(t == pow10(w as nat));
            let ghost wn: nat = w as nat;
            assert(wn == (if n_dig >= sd { (n_dig - sd) as nat } else { 0 }));
            if v >= 0 {
                vstd::arithmetic::div_mod::lemma_mod_pos_bound(v as int, t as int);
                vstd::arithmetic::div_mod::lemma_fundamental_div_mod(v as int, t as int);
            } else {
                vstd::arithmetic::div_mod::lemma_mod_pos_bound(-v as int, t as int);
                vstd::arithmetic::div_mod::lemma_fundamental_div_mod(-v as int, t as int);
            }
        }
        proof {
            let vi = v as int;
            let ti = t as int;
            if v >= 0 {
                vstd::arithmetic::div_mod::lemma_fundamental_div_mod(vi, ti);
                assert(rem == vi % ti);
                assert(crate::common::trunc_rem(vi, ti) == vi - ti * (vi / ti));
            } else {
                vstd::arithmetic::div_mod::lemma_fundamental_div_mod(-vi, ti);
                assert(rem == -((-vi) % ti));
                assert(crate::common::trunc_div(vi, ti) == -((-vi) / ti));
                assert(ti * (-((-vi) / ti)) == -(ti * ((-vi) / ti))) by (nonlinear_arith);
                assert(crate::common::trunc_rem(vi, ti) == vi + ti * ((-vi) / ti));
            }
            assert(rem == crate::common::trunc_rem(v as int, t as int));
            let sr = spec_range(*self);
            assert(sr.0 == start);
            assert(sr.1 == end);
        }
        core::ops::RangeInclusive::new(start as i64, end as i64)
    }
}

/// An unsigned number as Rust's `{}` writes it.
pub open spec fn fmt_num(v: nat) -> Seq<u8> {
    crate::scan::fmt_uint(v, 1)
}

/// How a scientific year is written: `Y`, the mantissa, then `E` and the exponent and `S` and
/// the significant digits when present.
pub open(crate) spec fn fmt_sci(y: ScientificYear) -> Seq<u8> {
    let m = y.mantissa as int;
    seq![89u8] + (if m < 0 {
        seq![45u8]
    } else {
        Seq::<u8>::empty()
    }) + fmt_num(abs(m)) + match y.exponent {
        Some(e) => seq![69u8] + fmt_num(e as nat),
        None => Seq::<u8>::empty(),
    } + match y.sig_digits {
        Some(d) => seq![83u8] + fmt_num(d as nat),
        None => Seq::<u8>::empty(),
    }
}

impl ScientificYear {
    /// The EDTF text of this year: `Y17E7S3`.
    pub fn to_string(&self) -> (r: String)
        ensures
            r@ == crate::text::bytes_text(fmt_sci(*self)),
    {
        let mut out: Vec<u8> = Vec::new();
        out.push(89);
        let m = self.mantissa;
        let a: u64 = if m < 0 {
            out.push(45);
            (0i128 - m as i128) as u64
        } else {
            m as u64
        };
        crate::scan::push_uint(&mut out, a, 1);
        if let Some(e) = self.exponent {
            out.push(69);
            crate::scan::push_uint(&mut out, e as u64, 1);
        }
        if let Some(d) = self.sig_digits {
            out.push(83);
            crate::scan::push_uint(&mut out, d as u64, 1);
        }
        proof {
            let f = fmt_sci(*self);
            assert(out@ =~= f);
            crate::common::lemma_fmt_uint_edtf(abs(m as int), 1);
            let en: nat = match self.exponent {
                Some(e) => e as nat,
                None => 0,
            };
            let sn: nat = match self.sig_digits {
                Some(d) => d as nat,
                None => 0,
            };
            crate::common::lemma_fmt_uint_edtf(en, 1);
            crate::common::lemma_fmt_uint_edtf(sn, 1);
            assert forall|i: int| 0 <= i < f.len() implies crate::text::is_edtf_byte(
                #[trigger] f[i],
            ) by {
                assert(crate::text::all_edtf_bytes(fmt_num(abs(m as int))));
                assert(crate::text::all_edtf_bytes(fmt_num(en)));
                assert(crate::text::all_edtf_bytes(fmt_num(sn)));
            }
        }
        crate::text::bytes_to_string(&out)
    }
}

/// An optional minus, then `min` to a hundred digits whose value fits an `i64`.
pub open(crate) spec fn sp_mantissa_digits(s: Seq<u8>, pos: int, min: nat) -> Option<(i64, int)> {
    let neg = at(s, pos, 45);
    let p = if neg {
        pos + 1
    } else {
        pos
    };
    let k = run_len(s, p, 100);
    if k < min {
        None
    } else {
        let v = digits_value(s.subrange(p, p + k));
        if v > i64::MAX {
            None
        } else {
            Some(((if neg { -(v as int) } else { v as int }) as i64, p + k))
        }
    }
}

/// One or more digits at `pos`: the position after them.
pub open(crate) spec fn sp_digit1(s: Seq<u8>, pos: int) -> Option<int> {
    let k = run_len(s, pos, s.len());
    if pos >= 0 && k > 0 {
        Some(pos + k)
    } else {
        None
    }
}

/// The digits in `a..b` as a `u16`, when they fit.
pub open(crate) spec fn u16_of(s: Seq<u8>, a: int, b: int) -> Option<u16> {
    let v = digits_value(s.subrange(a, b));
    if v > 65535 {
        None
    } else {
        Some(v as u16)
    }
}

/// An exponent as read: a zero exponent is no exponent.
pub open(crate) spec fn exponent_read(e: u16) -> Option<u16> {
    nonzero(e)
}

/// The head of a `Y`-year: `Y`, a mantissa of one or more digits and `E` with digits, else
/// `Y` and a mantissa of five or more digits. Gives the mantissa, where the exponent's
/// digits are, and the position after the head.
pub open(crate) spec fn sp_sci_head(s: Seq<u8>) -> Option<(i64, Option<(int, int)>, int)> {
    if !at(s, 0, 89) {
        None
    } else {
        let alt1 = match sp_mantissa_digits(s, 1, 1) {
            Some((m, p)) => if at(s, p, 69) {
                match sp_digit1(s, p + 1) {
                    Some(q) => Some((m, Some((p + 1, q)), q)),
                    None => None,
                }
            } else {
                None
            },
            None => None,
        };
        match alt1 {
            Some(x) => Some(x),
            None => match sp_mantissa_digits(s, 1, 5) {
                Some((m, p)) => Some((m, None, p)),
                None => None,
            },
        }
    }
}

/// A scientific year as written over a whole input, before validation: `Y`-forms with an
/// optional `S` part, or a four-digit year with `S`.
pub open(crate) spec fn sp_level2(s: Seq<u8>) -> Option<(i64, Option<u16>, Option<u16>)> {
    if at(s, 0, 89) {
        match sp_sci_head(s) {
            None => None,
            Some((m, espan, p)) => {
                let has_s = at(s, p, 83) && sp_digit1(s, p + 1) is Some;
                let q = if has_s {
                    sp_digit1(s, p + 1)->0
                } else {
                    p
                };
                let e = match espan {
                    Some((a, b)) => u16_of(s, a, b),
                    None => Some(0u16),
                };
                let sd = if has_s {
                    u16_of(s, p + 1, q)
                } else {
                    Some(0u16)
                };
                if e is None || sd is None || q != s.len() {
                    None
                } else {
                    Some(
                        (
                            m,
                            exponent_read(e->0),
                            if has_s {
                                Some(sd->0)
                            } else {
                                None
                            },
                        ),
                    )
                }
            },
        }
    } else {
        match crate::level_1::parser::sp_year_signed(s, 0, 4) {
            None => None,
            Some((y, p)) => if at(s, p, 83) && sp_digit1(s, p + 1) is Some {
                let q = sp_digit1(s, p + 1)->0;
                match u16_of(s, p + 1, q) {
                    Some(sd) => if q == s.len() {
                        Some((y as i64, None, Some(sd)))
                    } else {
                        None
                    },
                    None => None,
                }
            } else {
                None
            },
        }
    }
}

/// A level 2 EDTF from bytes.
pub open(crate) spec fn spec_parse2(s: Seq<u8>) -> Result<Edtf, ParseError> {
    match sp_level2(s) {
        None => Err(ParseError::Invalid),
        Some((m, e, sd)) => match spec_validate_sci(m, e, sd) {
            Ok(y) => Ok(Edtf::Scientific(y)),
            Err(x) => Err(x),
        },
    }
}

/// Reads an optional minus and `min` to a hundred digits at `pos`.
fn mantissa_digits(s: &[u8], pos: usize, min: usize) -> (r: Option<(i64, usize)>)
    requires
        pos <= s.len(),
    ensures
        lift(r) == sp_mantissa_digits(s@, pos as int, min as nat),
        r matches Some((_, e)) ==> e <= s.len(),
{
    let neg = byte_is(s, pos, 45);
    let p = if neg {
        pos + 1
    } else {
        pos
    };
    let k = digit_run(s, p, 100);
    if k < min {
        return None;
    }
    proof {
        lemma_run_len(s@, p as int, 100);
    }
    if k == 0 {
        proof {
            assert(s@.subrange(p as int, p as int).len() == 0);
        }
        return Some((0, p));
    }
    let v = match read_bounded(s, p, p + k, 9223372036854775807u64) {
        Some(v) => v,
        None => return None,
    };
    let m: i64 = if neg {
        -(v as i64)
    } else {
        v as i64
    };
    Some((m, p + k))
}

/// Reads one or more digits at `pos`, giving the position after them.
fn digit1(s: &[u8], pos: usize) -> (r: Option<usize>)
    requires
        pos <= s.len(),
    ensures
        match sp_digit1(s@, pos as int) {
            Some(e) => r == Some(e as usize) && e <= s.len() && all_digits(
                s@.subrange(pos as int, e),
            ),
            None => r is None,
        },
{
    let k = digit_run(s, pos, s.len());
    proof {
        lemma_run_len(s@, pos as int, s.len() as nat);
    }
    if k == 0 {
        None
    } else {
        Some(pos + k)
    }
}

/// Reads the digits in `a..b` as a `u16`.
fn read_u16(s: &[u8], a: usize, b: usize) -> (r: Option<u16>)
    requires
        a <= b <= s.len(),
        all_digits(s@.subrange(a as int, b as int)),
    ensures
        r == u16_of(s@, a as int, b as int),
{
    match read_bounded(s, a, b, 65535) {
        Some(v) => Some(v as u16),
        None => None,
    }
}

/// Reads the head of a `Y`-year.
fn sci_head(s: &[u8]) -> (r: Option<(i64, Option<(usize, usize)>, usize)>)
    ensures
        match sp_sci_head(s@) {
            Some((m, espan, p)) => r matches Some((m2, espan2, p2)) && m2 == m && p2 == p
                && p <= s.len() && match espan {
                Some((a, b)) => espan2 == Some((a as usize, b as usize)) && a <= b <= s.len()
                    && all_digits(s@.subrange(a, b)),
                None => espan2 is None,
            },
            None => r is None,
        },
{
    if !byte_is(s, 0, 89) {
        return None;
    }
    if let Some((m, p)) = mantissa_digits(s, 1, 1) {
        if byte_is(s, p, 69) {
            if let Some(q) = digit1(s, p + 1) {
                return Some((m, Some((p + 1, q)), q));
            }
        }
    }
    match mantissa_digits(s, 1, 5) {
        Some((m, p)) => Some((m, None, p)),
        None => None,
    }
}

/// Reads a scientific year over a whole input, before validation.
fn level2(s: &[u8]) -> (r: Option<(i64, Option<u16>, Option<u16>)>)
    ensures
        r == sp_level2(s@),
{
    if byte_is(s, 0, 89) {
        let (m, espan, p) = match sci_head(s) {
            Some(x) => x,
            None => return None,
        };
        let s_end = if byte_is(s, p, 83) {
            digit1(s, p + 1)
        } else {
            None
        };
        let q = match s_end {
            Some(q) => q,
            None => p,
        };
        let e: Option<u16> = match espan {
            Some((a, b)) => read_u16(s, a, b),
            None => Some(0),
        };
        let sd: Option<u16> = match s_end {
            Some(q) => read_u16(s, p + 1, q),
            None => Some(0),
        };
        match (e, sd) {
            (Some(ev), Some(sv)) => {
                if q != s.len() {
                    return None;
                }
                let exp = if ev > 0 {
                    Some(ev)
                } else {
                    None
                };
                Some((m, exp, if s_end.is_some() { Some(sv) } else { None }))
            },
            _ => None,
        }
    } else {
        let (y, p) = match crate::level_1::parser::year_signed(s, 0, 4) {
            Some(x) => x,
            None => return None,
        };
        if !byte_is(s, p, 83) {
            return None;
        }
        let q = match digit1(s, p + 1) {
            Some(q) => q,
            None => return None,
        };
        match read_u16(s, p + 1, q) {
            Some(sd) => if q == s.len() {
                Some((y as i64, None, Some(sd)))
            } else {
                None
            },
            None => None,
        }
    }
}

/// The text of a number: its digits, as many as the number has, and their value.
proof fn lemma_fmt_num(v: nat)
    ensures
        all_digits(fmt_num(v)),
        fmt_num(v).len() == num_digits(v),
        digits_value(fmt_num(v)) == v,
{
    crate::scan::lemma_num_digits_bound(v);
    crate::scan::lemma_fixed_value(v, num_digits(v));
}

/// The digits of a number end where the text that follows them starts with a non-digit.
proof fn lemma_num_run(s: Seq<u8>, pos: int, v: nat, cap: nat)
    requires
        0 <= pos,
        pos + num_digits(v) <= s.len(),
        s.subrange(pos, pos + num_digits(v)) == fmt_num(v),
        num_digits(v) <= cap,
        pos + num_digits(v) == s.len() || !crate::scan::is_digit(s[pos + num_digits(v)]),
    ensures
        run_len(s, pos, cap) == num_digits(v),
        digits_value(s.subrange(pos, pos + num_digits(v))) == v,
{
    lemma_fmt_num(v);
    crate::scan::lemma_run_len_exact(s, pos, num_digits(v), cap);
}

/// Where the mantissa's digits start in the text of `y`: after `Y` and an optional minus.
pub open(crate) spec fn sci_p0(y: ScientificYear) -> int {
    if y.mantissa < 0 {
        2
    } else {
        1
    }
}

/// Where the mantissa's digits end in the text of `y`.
pub open(crate) spec fn sci_p(y: ScientificYear) -> int {
    sci_p0(y) + num_digits(abs(y.mantissa as int))
}

/// Where the exponent part ends in the text of `y`.
pub open(crate) spec fn sci_q(y: ScientificYear) -> int {
    match y.exponent {
        Some(e) => sci_p(y) + 1 + num_digits(e as nat),
        None => sci_p(y),
    }
}

/// The layout of the text of a scientific year: `Y`, the sign, the mantissa's digits, the
/// exponent part and the significant digits part, each where [sci_p0], [sci_p] and [sci_q]
/// say.
proof fn lemma_fmt_sci_layout(y: ScientificYear)
    ensures
        ({
            let s = fmt_sci(y);
            let a = abs(y.mantissa as int);
            &&& sci_q(y) <= s.len()
            &&& s[0] == 89u8
            &&& (y.mantissa < 0 ==> s[1] == 45u8)
            &&& (y.mantissa >= 0 ==> crate::scan::is_digit(s[1]))
            &&& s.subrange(sci_p0(y), sci_p(y)) == fmt_num(a)
            &&& (y.exponent matches Some(e) ==> s[sci_p(y)] == 69u8 && s.subrange(
                sci_p(y) + 1,
                sci_q(y),
            ) == fmt_num(e as nat))
            &&& (y.sig_digits matches Some(d) ==> s[sci_q(y)] == 83u8 && s.subrange(
                sci_q(y) + 1,
                s.len() as int,
            ) == fmt_num(d as nat))
            &&& (y.sig_digits is None ==> sci_q(y) == s.len())
        }),
{
    let s = fmt_sci(y);
    let m = y.mantissa as int;
    let a = abs(m);
    let sign = if m < 0 {
        seq![45u8]
    } else {
        Seq::<u8>::empty()
    };
    let dm = fmt_num(a);
    let es = match y.exponent {
        Some(e) => seq![69u8] + fmt_num(e as nat),
        None => Seq::<u8>::empty(),
    };
    let ss = match y.sig_digits {
        Some(d) => seq![83u8] + fmt_num(d as nat),
        None => Seq::<u8>::empty(),
    };
    lemma_fmt_num(a);
    let head = seq![89u8] + sign + dm;
    let he = head + es;
    assert(s =~= he + ss);
    assert(head.len() == sci_p(y));
    assert(he.len() == sci_q(y)) by {
        if let Some(e) = y.exponent {
            lemma_fmt_num(e as nat);
        }
    }
    assert(s.subrange(sci_p0(y), sci_p(y)) =~= dm);
    if m >= 0 {
        assert(s[1] == dm[0]);
    }
    if let Some(e) = y.exponent {
        lemma_fmt_num(e as nat);
        assert(s[sci_p(y)] == es[0]);
        assert(s.subrange(sci_p(y) + 1, sci_q(y)) =~= fmt_num(e as nat));
    }
    if let Some(d) = y.sig_digits {
        assert(s[sci_q(y)] == ss[0]);
        assert(s.subrange(sci_q(y) + 1, s.len() as int) =~= fmt_num(d as nat));
    }
}

/// Reading the mantissa at position 1 of the text of `y`.
proof fn lemma_sci_mantissa_read(y: ScientificYear, min: nat)
    requires
        y.mantissa != i64::MIN,
        num_digits(abs(y.mantissa as int)) >= min,
    ensures
        sp_mantissa_digits(fmt_sci(y), 1, min) == Some((y.mantissa, sci_p(y))),
{
    let s = fmt_sci(y);
    let a = abs(y.mantissa as int);
    lemma_fmt_sci_layout(y);
    assert(a < pow10(19)) by {
        reveal_with_fuel(pow10, 20);
    }
    crate::scan::lemma_num_digits_le(a, 19);
    assert(sci_p(y) == s.len() || s[sci_p(y)] == 69u8 || s[sci_p(y)] == 83u8) by {
        if y.exponent is None && y.sig_digits is Some {
            assert(sci_q(y) == sci_p(y));
        }
    }
    lemma_num_run(s, sci_p0(y), a, 100);
}

/// A scientific year that validation accepts, written with an exponent or with a mantissa of
/// more than four digits, reads back from its text as itself. (A mantissa of at most four
/// digits without exponent is not a `Y`-year, and `i64::MIN` has no positive counterpart to
/// read its digits into.)
pub proof fn lemma_format_parse_roundtrip2(y: ScientificYear)
    requires
        spec_validate_sci(y.spec_mantissa(), y.spec_exponent(), y.spec_sig_digits())
            == Ok::<ScientificYear, ParseError>(y),
        y.spec_mantissa() != i64::MIN,
        y.spec_exponent() is Some || !inside_9999(y.spec_mantissa() as int),
    ensures
        spec_parse2(fmt_sci(y)) == Ok::<Edtf, ParseError>(Edtf::Scientific(y)),
{
    let s = fmt_sci(y);
    let a = abs(y.mantissa as int);
    let p = sci_p(y);
    let q = sci_q(y);
    lemma_fmt_sci_layout(y);
    crate::scan::lemma_num_digits_bound(a);
    lemma_sci_mantissa_read(y, 1);
    assert(at(s, 0, 89));
    match y.exponent {
        Some(e) => {
            lemma_fmt_num(e as nat);
            assert(q == s.len() || s[q] == 83u8);
            lemma_num_run(s, p + 1, e as nat, s.len() as nat);
            assert(sp_digit1(s, p + 1) == Some(q));
            assert(sp_sci_head(s) == Some((y.mantissa, Some((p + 1, q)), q)));
            assert(u16_of(s, p + 1, q) == Some(e));
        },
        None => {
            assert(!at(s, p, 69));
            assert(num_digits(a) >= 5) by {
                if num_digits(a) <= 4 {
                    crate::scan::lemma_pow10_mono(num_digits(a), 4);
                    reveal_with_fuel(pow10, 5);
                }
            }
            lemma_sci_mantissa_read(y, 5);
            assert(sp_sci_head(s) == Some((y.mantissa, None::<(int, int)>, p)));
        },
    }
    match y.sig_digits {
        Some(d) => {
            lemma_fmt_num(d as nat);
            lemma_num_run(s, q + 1, d as nat, s.len() as nat);
            assert(sp_digit1(s, q + 1) == Some(s.len() as int));
            assert(u16_of(s, q + 1, s.len() as int) == Some(d));
        },
        None => {},
    }
    assert(sp_level2(s) == Some((y.mantissa, y.exponent, y.sig_digits)));
}

/// A `Y`-year's text that formatting does not write back as it was: one without the leading
/// `Y` (`1234S2`), a number written with a leading zero (`Y017E7`, `Y17E07`, `Y12345S03`), a
/// minus before a zero mantissa (`Y-0E5`), or a zero exponent (`Y12345E0`).
pub open(crate) spec fn sci_text_noncanonical(s: Seq<u8>) -> bool {
    !at(s, 0, 89) || match sp_sci_head(s) {
        None => false,
        Some((m, espan, p)) => {
            let p0: int = if at(s, 1, 45) {
                2
            } else {
                1
            };
            let pm: int = match espan {
                Some((a, _)) => a - 1,
                None => p,
            };
            ||| (at(s, p0, 48) && pm - p0 > 1)
            ||| (at(s, 1, 45) && m == 0)
            ||| (espan matches Some((a, _)) && at(s, a, 48))
            ||| (at(s, p, 83) && at(s, p + 1, 48))
        },
    }
}

/// Digits without a leading zero are the text of their value.
proof fn lemma_digits_text(s: Seq<u8>, a: int, b: int)
    requires
        0 <= a < b <= s.len(),
        all_digits(s.subrange(a, b)),
        !(s[a] == 48u8 && b - a > 1),
    ensures
        fmt_num(digits_value(s.subrange(a, b))) == s.subrange(a, b),
        s[a] != 48u8 ==> digits_value(s.subrange(a, b)) > 0,
{
    let t = s.subrange(a, b);
    assert(t[0] == s[a]);
    crate::scan::lemma_uint_roundtrip(t);
    if s[a] != 48u8 {
        crate::scan::lemma_digits_value_lower(t);
        crate::scan::lemma_pow10_mono(0, (t.len() - 1) as nat);
    }
}

/// The mantissa part of a canonical `Y`-year's text is the text of the mantissa read.
proof fn lemma_sci_text_mantissa(s: Seq<u8>, min: nat)
    requires
        sp_mantissa_digits(s, 1, min) is Some,
        min >= 1,
        1 < s.len(),
        ({
            let (m, p) = sp_mantissa_digits(s, 1, min)->0;
            let p0: int = if at(s, 1, 45) {
                2
            } else {
                1
            };
            &&& !(at(s, p0, 48) && p - p0 > 1)
            &&& !(at(s, 1, 45) && m == 0)
        }),
    ensures
        ({
            let (m, p) = sp_mantissa_digits(s, 1, min)->0;
            &&& p <= s.len()
            &&& s.subrange(1, p) == (if m < 0 {
                seq![45u8]
            } else {
                Seq::<u8>::empty()
            }) + fmt_num(abs(m as int))
            &&& (p == s.len() || !crate::scan::is_digit(s[p]))
        }),
{
    let (m, p) = sp_mantissa_digits(s, 1, min)->0;
    let neg = at(s, 1, 45);
    let p0: int = if neg {
        2
    } else {
        1
    };
    let k = run_len(s, p0, 100);
    lemma_run_len(s, p0, 100);
    assert(k >= 1);
    let d = s.subrange(p0, p);
    let v = digits_value(d);
    lemma_digits_text(s, p0, p);
    assert(abs(m as int) == v);
    if neg {
        assert(m < 0);
        assert(s.subrange(1, p) =~= seq![45u8] + d);
    } else {
        assert(s.subrange(1, p) =~= Seq::<u8>::empty() + d);
    }
    if k == 100 && p < s.len() && crate::scan::is_digit(s[p]) {
        crate::scan::lemma_digits_value_lower(d);
        crate::scan::lemma_pow10_mono(19, 99);
        reveal_with_fuel(pow10, 20);
        assert(false);
    }
}

/// Lossless formatting at level 2: a scientific year parsed from a canonical `Y`-year text is
/// written back as that text (see [sci_text_noncanonical] for the texts it rewrites).
pub proof fn lemma_parse_format_roundtrip2(input: Seq<char>, y: ScientificYear)
    requires
        is_ascii_text(input),
        spec_parse2(ascii_bytes(input)) == Ok::<Edtf, ParseError>(Edtf::Scientific(y)),
        !sci_text_noncanonical(ascii_bytes(input)),
    ensures
        crate::text::bytes_text(fmt_sci(y)) == input,
{
    let s = ascii_bytes(input);
    crate::text::lemma_ascii_roundtrip(input);
    lemma_sci_text_roundtrip(s, y);
}

/// Where the mantissa's digits end in a `Y`-year's text.
pub open(crate) spec fn sci_mantissa_end(s: Seq<u8>) -> int {
    match sp_sci_head(s) {
        Some((_, Some((a, _)), _)) => a - 1,
        Some((_, None, p)) => p,
        None => 0,
    }
}

/// The head of a canonical `Y`-year's text: `Y`, the text of the mantissa, and an `E` with
/// digits when there is an exponent.
proof fn lemma_sci_text_head(s: Seq<u8>)
    requires
        sp_sci_head(s) is Some,
        !sci_text_noncanonical(s),
    ensures
        ({
            let (m, espan, p) = sp_sci_head(s)->0;
            let pm = sci_mantissa_end(s);
            &&& 1 <= pm <= p <= s.len()
            &&& s.subrange(1, pm) == (if m < 0 {
                seq![45u8]
            } else {
                Seq::<u8>::empty()
            }) + fmt_num(abs(m as int))
            &&& (espan matches Some((a, b)) ==> a == pm + 1 && b == p && s[pm] == 69u8 && a < b
                && all_digits(s.subrange(a, b)) && !at(s, a, 48))
            &&& (espan is None ==> pm == p)
        }),
{
    let (m, espan, p) = sp_sci_head(s)->0;
    let r1 = sp_mantissa_digits(s, 1, 1);
    match r1 {
        Some((m1, p1)) => {
            if at(s, p1, 69) && sp_digit1(s, p1 + 1) is Some {
                lemma_sci_text_mantissa(s, 1);
                lemma_run_len(s, p1 + 1, s.len() as nat);
                return;
            }
        },
        None => {},
    }
    lemma_sci_text_mantissa(s, 5);
}

/// What parsing a `Y`-year's text gives: the mantissa and exponent of its head, and the
/// significant digits after it.
proof fn lemma_sci_text_parsed(s: Seq<u8>, y: ScientificYear)
    requires
        spec_parse2(s) == Ok::<Edtf, ParseError>(Edtf::Scientific(y)),
        at(s, 0, 89),
    ensures
        ({
            let (m, espan, p) = sp_sci_head(s)->0;
            &&& sp_sci_head(s) is Some
            &&& y.mantissa == m
            &&& (espan matches Some((a, b)) ==> digits_value(s.subrange(a, b)) <= 65535
                && y.exponent == exponent_read(digits_value(s.subrange(a, b)) as u16))
            &&& (espan is None ==> y.exponent is None)
            &&& (y.sig_digits matches Some(d) ==> at(s, p, 83) && sp_digit1(s, p + 1) == Some(
                s.len() as int,
            ) && d as nat == digits_value(s.subrange(p + 1, s.len() as int)))
            &&& (y.sig_digits is None ==> p == s.len())
        }),
{
}

/// The bytes of a canonical `Y`-year text are the formatting of the year parsed from them.
proof fn lemma_sci_text_roundtrip(s: Seq<u8>, y: ScientificYear)
    requires
        spec_parse2(s) == Ok::<Edtf, ParseError>(Edtf::Scientific(y)),
        !sci_text_noncanonical(s),
    ensures
        fmt_sci(y) == s,
{
    lemma_sci_text_parsed(s, y);
    lemma_sci_text_head(s);
    let (m, espan, p) = sp_sci_head(s)->0;
    let pm = sci_mantissa_end(s);
    let sign_m = (if m < 0 {
        seq![45u8]
    } else {
        Seq::<u8>::empty()
    }) + fmt_num(abs(m as int));
    let ep = match y.exponent {
        Some(e) => seq![69u8] + fmt_num(e as nat),
        None => Seq::<u8>::empty(),
    };
    match espan {
        Some((a, b)) => {
            lemma_digits_text(s, a, b);
            assert(s.subrange(pm, p) =~= seq![69u8] + s.subrange(a, b));
        },
        None => {
            assert(s.subrange(pm, p) =~= ep);
        },
    }
    let sp = match y.sig_digits {
        Some(d) => seq![83u8] + fmt_num(d as nat),
        None => Seq::<u8>::empty(),
    };
    match y.sig_digits {
        Some(d) => {
            lemma_run_len(s, p + 1, s.len() as nat);
            lemma_digits_text(s, p + 1, s.len() as int);
            assert(s.subrange(p, s.len() as int) =~= seq![83u8] + s.subrange(
                p + 1,
                s.len() as int,
            ));
        },
        None => {
            assert(s.subrange(p, s.len() as int) =~= sp);
        },
    }
    assert(s =~= s.subrange(0, 1) + s.subrange(1, pm) + s.subrange(pm, p) + s.subrange(
        p,
        s.len() as int,
    ));
    assert(s.subrange(0, 1) =~= seq![89u8]);
    assert(fmt_sci(y) =~= seq![89u8] + sign_m + ep + sp);
}

impl Edtf {
    /// Parses a level 2 EDTF; so far, scientific years only.
    pub fn parse(input: &str) -> (r: Result<Self, ParseError>)
        ensures
            r == (if is_ascii_text(input@) {
                spec_parse2(ascii_bytes(input@))
            } else {
                Err(ParseError::Invalid)
            }),
    {
        let s = match ascii_input(input) {
            Some(b) => b,
            None => return Err(ParseError::Invalid),
        };
        match level2(s) {
            None => Err(ParseError::Invalid),
            Some((m, e, sd)) => match ScientificYear::validate(m, e, sd) {
                Ok(y) => Ok(Edtf::Scientific(y)),
                Err(x) => Err(x),
            },
        }
    }
}

} // verus!
