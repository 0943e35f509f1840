//! Decimal digits: reading them from bytes and writing numbers as bytes.

use vstd::prelude::*;

verus! {

/// An ASCII decimal digit.
pub open spec fn is_digit(b: u8) -> bool {
    48 <= b && b <= 57
}

/// Every byte is a decimal digit.
pub open spec fn all_digits(s: Seq<u8>) -> bool {
    forall|i: int| 0 <= i < s.len() ==> is_digit(#[trigger] s[i])
}

/// The number that a sequence of decimal digits spells.
pub open spec fn digits_value(s: Seq<u8>) -> nat
    decreases s.len(),
{
    if s.len() == 0 {
        0
    } else {
        digits_value(s.drop_last()) * 10 + (s.last() - 48) as nat
    }
}

/// Ten to the power `n`.
pub open spec fn pow10(n: nat) -> nat
    decreases n,
{
    if n == 0 {
        1
    } else {
        10 * pow10((n - 1) as nat)
    }
}

/// Exactly `n` digits at `pos`, read as a number.
pub open spec fn fixed_digits(s: Seq<u8>, pos: int, n: nat) -> Option<nat> {
    if 0 <= pos && pos + n <= s.len() && all_digits(s.subrange(pos, pos + n)) {
        Some(digits_value(s.subrange(pos, pos + n)))
    } else {
        None
    }
}

/// The byte at `pos` exists and is `c`.
pub open spec fn at(s: Seq<u8>, pos: int, c: u8) -> bool {
    0 <= pos < s.len() && s[pos] == c
}

/// Number of consecutive digits starting at `pos`, at most `cap`.
pub open spec fn run_len(s: Seq<u8>, pos: int, cap: nat) -> nat
    decreases cap,
{
    if cap == 0 || pos < 0 || pos >= s.len() || !is_digit(s[pos]) {
        0
    } else {
        1 + run_len(s, pos + 1, (cap - 1) as nat)
    }
}

/// The `k` digits of `v` modulo `10^k`, most significant first.
pub open spec fn fixed(v: nat, k: nat) -> Seq<u8>
    decreases k,
{
    if k == 0 {
        Seq::empty()
    } else {
        fixed(v / 10, (k - 1) as nat).push((48 + v % 10) as u8)
    }
}

/// Number of decimal digits of `v` (one for zero).
pub open spec fn num_digits(v: nat) -> nat
    decreases v,
{
    if v < 10 {
        1
    } else {
        1 + num_digits(v / 10)
    }
}

/// `v` in decimal, left-padded with zeros to at least `w` digits, as Rust's `{:0w}`.
pub open spec fn fmt_uint(v: nat, w: nat) -> Seq<u8> {
    fixed(v, if num_digits(v) >= w { num_digits(v) } else { w })
}

pub proof fn lemma_digit_step(x: nat, d: nat)
    requires
        d < 10,
    ensures
        (x * 10 + d) / 10 == x,
        (x * 10 + d) % 10 == d,
{
    assert((x * 10 + d) / 10 == x && (x * 10 + d) % 10 == d) by (nonlinear_arith)
        requires
            d < 10,
    ;
}

pub proof fn lemma_digits_value_bound(s: Seq<u8>)
    requires
        all_digits(s),
    ensures
        digits_value(s) < pow10(s.len()),
    decreases s.len(),
{
    if s.len() > 0 {
        let t = s.drop_last();
        assert(all_digits(t)) by {
            assert forall|i: int| 0 <= i < t.len() implies is_digit(#[trigger] t[i]) by {
                assert(t[i] == s[i]);
            }
        }
        lemma_digits_value_bound(t);
        assert(is_digit(s[s.len() - 1]));
        let a = digits_value(t);
        let p = pow10(t.len());
        assert(a * 10 + 9 < p * 10) by (nonlinear_arith)
            requires
                a < p,
        ;
    }
}

/// Digits spelled out with `fixed` read back as the same number.
pub proof fn lemma_fixed_roundtrip(s: Seq<u8>)
    requires
        all_digits(s),
    ensures
        fixed(digits_value(s), s.len()) == s,
    decreases s.len(),
{
    if s.len() > 0 {
        let t = s.drop_last();
        assert(all_digits(t)) by {
            assert forall|i: int| 0 <= i < t.len() implies is_digit(#[trigger] t[i]) by {
                assert(t[i] == s[i]);
            }
        }
        lemma_fixed_roundtrip(t);
        let d = (s.last() - 48) as nat;
        assert(is_digit(s[s.len() - 1]));
        lemma_digit_step(digits_value(t), d);
        assert(fixed(digits_value(s), s.len()) =~= t.push(s.last()));
        assert(t.push(s.last()) =~= s);
    }
}

/// `fixed` writes digits that read back as the number, when it fits.
pub proof fn lemma_fixed_value(v: nat, k: nat)
    requires
        v < pow10(k),
    ensures
        all_digits(fixed(v, k)),
        fixed(v, k).len() == k,
        digits_value(fixed(v, k)) == v,
    decreases k,
{
    if k > 0 {
        let p = pow10((k - 1) as nat);
        assert(v / 10 < p) by (nonlinear_arith)
            requires
                v < 10 * p,
        ;
        lemma_fixed_value(v / 10, (k - 1) as nat);
        let f = fixed(v, k);
        assert(f.drop_last() =~= fixed(v / 10, (k - 1) as nat));
        assert(v == (v / 10) * 10 + v % 10) by (nonlinear_arith);
        assert forall|i: int| 0 <= i < f.len() implies is_digit(#[trigger] f[i]) by {
            if i < f.len() - 1 {
                assert(f[i] == fixed(v / 10, (k - 1) as nat)[i]);
            }
        }
    }
}

pub proof fn lemma_num_digits_le(v: nat, k: nat)
    requires
        v < pow10(k),
        k >= 1,
    ensures
        num_digits(v) <= k,
    decreases k,
{
    if v >= 10 {
        let p = pow10((k - 1) as nat);
        assert(v / 10 < p) by (nonlinear_arith)
            requires
                v < 10 * p,
        ;
        if k == 1 {
            assert(false);
        } else {
            lemma_num_digits_le(v / 10, (k - 1) as nat);
        }
    }
}

pub proof fn lemma_num_digits_bound(v: nat)
    ensures
        v < pow10(num_digits(v)),
        num_digits(v) >= 1,
    decreases v,
{
    if v >= 10 {
        lemma_num_digits_bound(v / 10);
        let p = pow10(num_digits(v / 10));
        assert(v < 10 * p) by (nonlinear_arith)
            requires
                v / 10 < p,
        ;
        assert(pow10(num_digits(v)) == 10 * p);
    } else {
        assert(pow10(1) == 10 * pow10(0));
    }
}

/// A number below `10^w` is written with exactly `w` digits by `fmt_uint`.
pub proof fn lemma_fmt_uint_fixed(v: nat, w: nat)
    requires
        v < pow10(w),
        w >= 1,
    ensures
        fmt_uint(v, w) == fixed(v, w),
{
    lemma_num_digits_le(v, w);
}

/// What `fmt_uint` writes reads back as the number.
pub proof fn lemma_fmt_uint_value(v: nat, w: nat)
    ensures
        all_digits(fmt_uint(v, w)),
        digits_value(fmt_uint(v, w)) == v,
        fmt_uint(v, w).len() >= w,
        fmt_uint(v, w).len() >= 1,
{
    lemma_num_digits_bound(v);
    let k = if num_digits(v) >= w { num_digits(v) } else { w };
    lemma_pow10_mono(num_digits(v), k);
    lemma_fixed_value(v, k);
}

pub proof fn lemma_pow10_mono(a: nat, b: nat)
    requires
        a <= b,
    ensures
        pow10(a) <= pow10(b),
        pow10(a) >= 1,
    decreases b,
{
    if a < b {
        lemma_pow10_mono(a, (b - 1) as nat);
    } else if a > 0 {
        lemma_pow10_mono((a - 1) as nat, (a - 1) as nat);
    }
}

/// A digit string without a leading zero is what `fmt_uint(_, 1)` writes for its value.
pub proof fn lemma_uint_roundtrip(s: Seq<u8>)
    requires
        all_digits(s),
        s.len() >= 1,
        s[0] != 48 || s.len() == 1,
    ensures
        fmt_uint(digits_value(s), 1) == s,
{
    lemma_digits_value_bound(s);
    if s.len() > 1 {
        lemma_digits_value_lower(s);
    }
    lemma_num_digits_exact(digits_value(s), s.len());
    lemma_fixed_roundtrip(s);
}

pub proof fn lemma_digits_value_lower(s: Seq<u8>)
    requires
        all_digits(s),
        s.len() >= 1,
        s[0] != 48,
    ensures
        digits_value(s) >= pow10((s.len() - 1) as nat),
    decreases s.len(),
{
    if s.len() == 1 {
        assert(s.drop_last().len() == 0);
        assert(is_digit(s[0]));
    } else {
        let t = s.drop_last();
        assert(all_digits(t)) by {
            assert forall|i: int| 0 <= i < t.len() implies is_digit(#[trigger] t[i]) by {
                assert(t[i] == s[i]);
            }
        }
        assert(t[0] == s[0]);
        lemma_digits_value_lower(t);
        let a = digits_value(t);
        let p = pow10((t.len() - 1) as nat);
        assert(a * 10 >= p * 10) by (nonlinear_arith)
            requires
                a >= p,
        ;
    }
}

pub proof fn lemma_num_digits_exact(v: nat, k: nat)
    requires
        k >= 1,
        v < pow10(k),
        k == 1 || v >= pow10((k - 1) as nat),
    ensures
        num_digits(v) == k,
    decreases k,
{
    if k > 1 {
        let p = pow10((k - 2) as nat);
        assert(pow10((k - 1) as nat) == 10 * p);
        assert(v / 10 < 10 * p && v / 10 >= p) by (nonlinear_arith)
            requires
                v < 10 * (10 * p),
                v >= 10 * p,
        ;
        lemma_pow10_mono(0, (k - 2) as nat);
        lemma_num_digits_exact(v / 10, (k - 1) as nat);
    }
}

} // verus!

verus! {

proof fn lemma_digits_prefix_step(s: Seq<u8>, lo: int, i: int)
    requires
        0 <= lo <= i < s.len(),
    ensures
        s.subrange(lo, i + 1).drop_last() == s.subrange(lo, i),
        s.subrange(lo, i + 1).last() == s[i],
{
    assert(s.subrange(lo, i + 1).drop_last() =~= s.subrange(lo, i));
}

/// Value of a digit string never decreases as it grows.
proof fn lemma_digits_value_prefix(s: Seq<u8>, i: int)
    requires
        0 <= i <= s.len(),
        all_digits(s),
    ensures
        digits_value(s.subrange(0, i)) <= digits_value(s),
    decreases s.len() - i,
{
    if i < s.len() {
        lemma_digits_value_prefix(s, i + 1);
        lemma_digits_prefix_step(s, 0, i);
        assert(is_digit(s[i]));
    } else {
        assert(s.subrange(0, i) =~= s);
    }
}

/// Reads exactly `n` digits at `pos`.
pub fn read_fixed(s: &[u8], pos: usize, n: usize) -> (r: Option<u32>)
    requires
        n <= 9,
    ensures
        match fixed_digits(s@, pos as int, n as nat) {
            Some(v) => r == Some(v as u32) && v < pow10(n as nat),
            None => r is None,
        },
{
    if pos > s.len() || n > s.len() - pos {
        return None;
    }
    let mut acc: u32 = 0;
    let mut i: usize = 0;
    proof {
        assert(pow10(0) == 1);
        assert(s@.subrange(pos as int, pos as int).len() == 0);
    }
    while i < n
        invariant
            i <= n <= 9,
            pos + n <= s.len(),
            all_digits(s@.subrange(pos as int, pos + i)),
            acc == digits_value(s@.subrange(pos as int, pos + i)),
            digits_value(s@.subrange(pos as int, pos + i)) < pow10(i as nat),
        decreases n - i,
    {
        let b = s[pos + i];
        proof {
            lemma_digits_prefix_step(s@, pos as int, pos + i);
        }
        if b < 48 || b > 57 {
            proof {
                let t = s@.subrange(pos as int, pos + n);
                assert(t[i as int] == b);
                assert(!all_digits(t));
            }
            return None;
        }
        proof {
            let p = pow10(i as nat);
            let a = acc as nat;
            let d = (b - 48) as nat;
            assert(a * 10 + d < p * 10) by (nonlinear_arith)
                requires
                    a < p,
                    d < 10,
            ;
            lemma_pow10_mono(i as nat + 1, 9);
            reveal_with_fuel(pow10, 10);
            assert(pow10(9) == 1000000000);
            assert(pow10(i as nat + 1) == 10 * p);
            let t = s@.subrange(pos as int, pos + i + 1);
            assert forall|j: int| 0 <= j < t.len() implies is_digit(#[trigger] t[j]) by {
                if j < i {
                    assert(t[j] == s@.subrange(pos as int, pos + i)[j]);
                }
            }
        }
        acc = acc * 10 + (b - 48) as u32;
        i = i + 1;
    }
    Some(acc)
}

/// Counts the digits at `pos`, up to `cap` of them.
pub fn digit_run(s: &[u8], pos: usize, cap: usize) -> (r: usize)
    ensures
        r == run_len(s@, pos as int, cap as nat),
        r <= cap,
        r == 0 || pos + r <= s.len(),
{
    let mut k: usize = 0;
    while k < cap && pos < s.len() && k < s.len() - pos && 48 <= s[pos + k] && s[pos + k] <= 57
        invariant
            k <= cap,
            k == 0 || pos + k <= s.len(),
            run_len(s@, pos as int, cap as nat) == k + run_len(s@, pos + k, (cap - k) as nat),
        decreases cap - k,
    {
        k = k + 1;
    }
    k
}

/// Facts about a digit run: its digits and what follows it.
pub proof fn lemma_run_len(s: Seq<u8>, pos: int, cap: nat)
    requires
        0 <= pos,
    ensures
        pos + run_len(s, pos, cap) <= s.len() || run_len(s, pos, cap) == 0,
        run_len(s, pos, cap) <= cap,
        all_digits(s.subrange(pos, pos + run_len(s, pos, cap))) || run_len(s, pos, cap) == 0,
        run_len(s, pos, cap) < cap ==> !(pos + run_len(s, pos, cap) < s.len() && is_digit(
            s[pos + run_len(s, pos, cap)],
        )),
    decreases cap,
{
    if cap > 0 && pos < s.len() && is_digit(s[pos]) {
        lemma_run_len(s, pos + 1, (cap - 1) as nat);
        let r = run_len(s, pos, cap);
        let t = s.subrange(pos, pos + r);
        assert forall|i: int| 0 <= i < t.len() implies is_digit(#[trigger] t[i]) by {
            if i > 0 {
                assert(t[i] == s.subrange(pos + 1, pos + r)[i - 1]);
            }
        }
    }
}

/// A run of `k` digits ended by a non-digit or by the end of the input has length `k`.
pub proof fn lemma_run_len_exact(s: Seq<u8>, pos: int, k: nat, cap: nat)
    requires
        0 <= pos,
        pos + k <= s.len(),
        all_digits(s.subrange(pos, pos + k)),
        k <= cap,
        pos + k == s.len() || !is_digit(s[pos + k]),
    ensures
        run_len(s, pos, cap) == k,
    decreases k,
{
    if k > 0 {
        assert(is_digit(s.subrange(pos, pos + k)[0]));
        let t = s.subrange(pos + 1, pos + k);
        assert forall|i: int| 0 <= i < t.len() implies is_digit(#[trigger] t[i]) by {
            assert(t[i] == s.subrange(pos, pos + k)[i + 1]);
        }
        lemma_run_len_exact(s, pos + 1, (k - 1) as nat, (cap - 1) as nat);
    }
}

/// Reads the digits in `start..end` as a number when it is at most `bound`.
pub fn read_bounded(s: &[u8], start: usize, end: usize, bound: u64) -> (r: Option<u64>)
    requires
        start <= end <= s.len(),
        all_digits(s@.subrange(start as int, end as int)),
        bound >= 9,
    ensures
        r is Some <==> digits_value(s@.subrange(start as int, end as int)) <= bound,
        r matches Some(v) ==> v == digits_value(s@.subrange(start as int, end as int)),
{
    let ghost t = s@.subrange(start as int, end as int);
    let mut acc: u64 = 0;
    let mut i: usize = start;
    proof {
        assert(t.subrange(0, 0).len() == 0);
    }
    while i < end
        invariant
            start <= i <= end <= s.len(),
            t == s@.subrange(start as int, end as int),
            all_digits(t),
            acc == digits_value(t.subrange(0, i - start)),
            acc <= bound,
            bound >= 9,
        decreases end - i,
    {
        let b = s[i];
        proof {
            lemma_digits_prefix_step(t, 0, i - start);
            assert(t[i - start] == b);
            assert(is_digit(t[i - start]));
        }
        let d = (b - 48) as u64;
        if acc > (bound - d) / 10 {
            proof {
                let a = acc as nat;
                assert(a * 10 + d > bound) by (nonlinear_arith)
                    requires
                        a > (bound - d) / 10,
                        d <= bound,
                ;
                lemma_digits_value_prefix(t, i - start + 1);
            }
            return None;
        }
        proof {
            let a = acc as nat;
            assert(a * 10 + d <= bound) by (nonlinear_arith)
                requires
                    a <= (bound - d) / 10,
                    d <= bound,
            ;
        }
        acc = acc * 10 + d;
        i = i + 1;
    }
    proof {
        assert(t.subrange(0, end - start) =~= t);
    }
    Some(acc)
}

} // verus!

verus! {

/// Appends the `k` lowest decimal digits of `v`.
pub fn push_fixed(out: &mut Vec<u8>, v: u64, k: usize)
    ensures
        final(out)@ == old(out)@ + fixed(v as nat, k as nat),
    decreases k,
{
    if k == 0 {
        assert(old(out)@ + fixed(v as nat, 0) =~= old(out)@);
        return;
    }
    push_fixed(out, v / 10, k - 1);
    out.push((48 + v % 10) as u8);
    assert(final(out)@ =~= old(out)@ + fixed(v as nat, k as nat));
}

/// Number of decimal digits of `v`.
pub fn count_digits(v: u64) -> (r: usize)
    ensures
        r == num_digits(v as nat),
        1 <= r <= 20,
    decreases v,
{
    proof {
        reveal_with_fuel(pow10, 21);
        assert(pow10(20) == 100000000000000000000);
        lemma_num_digits_le(v as nat, 20);
    }
    if v < 10 {
        1
    } else {
        1 + count_digits(v / 10)
    }
}

/// Appends `v` in decimal, zero-padded to at least `w` digits.
pub fn push_uint(out: &mut Vec<u8>, v: u64, w: usize)
    ensures
        final(out)@ == old(out)@ + fmt_uint(v as nat, w as nat),
{
    let n = count_digits(v);
    let k = if n >= w { n } else { w };
    push_fixed(out, v, k);
}

} // verus!
