//! Iterators for stepping through date intervals.
//!
//! Each iterator holds the next value from the front and the next value from the back;
//! [CenturyIter::next] and [CenturyIter::next_back] (and the same methods of the others)
//! take from either end. Once the two ends pass each other, both are gone.

pub mod date;
pub mod incrementable;
pub mod interval;

use vstd::prelude::*;

use crate::calendar::spec_valid_date;
use crate::DateComplete;
use self::incrementable::{
    day_pred, day_succ, lemma_day_pred, lemma_day_succ, month_pred, month_succ, next_day,
    next_month, next_step, prev_day, prev_month, prev_step, step_pred, step_succ, ym_lt, ymd_lt,
};

verus! {

/// A year-month pair as integers.
pub open spec fn ym_int(x: (i32, u32)) -> (int, int) {
    (x.0 as int, x.1 as int)
}

/// A year-month-day triple as integers.
pub open spec fn ymd_int(x: (i32, u32, u32)) -> (int, int, int) {
    (x.0 as int, x.1 as int, x.2 as int)
}

/// Years from one year to another, a fixed number of years apart.
#[derive(Debug, Clone, Copy, PartialEq, Eq, Structural)]
pub struct StepIter {
    pub(crate) from: Option<i32>,
    pub(crate) to: Option<i32>,
    pub(crate) step: i32,
}

/// The front of an iterator after taking `x` from it: the next value, as long as it does
/// not pass the back.
pub open spec fn keep_front(n: Option<int>, to: Option<i32>) -> Option<i32> {
    match n {
        Some(x) => match to {
            Some(t) => if x <= t {
                Some(x as i32)
            } else {
                None
            },
            None => Some(x as i32),
        },
        None => None,
    }
}

/// The back of an iterator after taking `x` from it: the previous value, as long as it does
/// not pass the front.
pub open spec fn keep_back(p: Option<int>, from: Option<i32>) -> Option<i32> {
    match p {
        Some(x) => match from {
            Some(f) => if f <= x {
                Some(x as i32)
            } else {
                None
            },
            None => Some(x as i32),
        },
        None => None,
    }
}

impl StepIter {
    /// The next value from the front, if any.
    pub open(crate) spec fn spec_from(self) -> Option<i32> {
        self.from
    }

    /// The next value from the back, if any.
    pub open(crate) spec fn spec_to(self) -> Option<i32> {
        self.to
    }

    /// How many years each step is.
    pub open(crate) spec fn spec_step(self) -> i32 {
        self.step
    }

    /// The iterator after taking from the front.
    pub open(crate) spec fn after_next(self) -> StepIter {
        match self.from {
            None => self,
            Some(f) => {
                let nf = keep_front(step_succ(f as int, self.step as int), self.to);
                StepIter { from: nf, to: if nf is None { None } else { self.to }, step: self.step }
            },
        }
    }

    /// The iterator after taking from the back.
    pub open(crate) spec fn after_next_back(self) -> StepIter {
        match self.to {
            None => self,
            Some(t) => {
                let nt = keep_back(step_pred(t as int, self.step as int), self.from);
                StepIter { from: if nt is None { None } else { self.from }, to: nt, step: self.step }
            },
        }
    }

    /// The years still to come, in order, when the two ends are in order and a whole number
    /// of steps apart.
    pub open(crate) spec fn remaining(self) -> Seq<int> {
        match (self.from, self.to) {
            (Some(f), Some(t)) => Seq::new(
                ((t - f) / (self.step as int) + 1) as nat,
                |i: int| f + i * self.step,
            ),
            _ => Seq::empty(),
        }
    }

    /// The two ends are both present, in order and a whole number of steps apart, or both
    /// gone.
    pub open(crate) spec fn aligned(self) -> bool {
        &&& self.step > 0
        &&& match (self.from, self.to) {
            (Some(f), Some(t)) => f <= t && (t - f) % (self.step as int) == 0,
            (None, None) => true,
            _ => false,
        }
    }

    /// Takes the next value from the front.
    pub fn next(&mut self) -> (r: Option<i32>)
        ensures
            r == old(self).spec_from(),
            *final(self) == old(self).after_next(),
    {
        let f = match self.from {
            Some(f) => f,
            None => return None,
        };
        let nf = match next_step(f, self.step) {
            Some(x) => match self.to {
                Some(t) => if x <= t {
                    Some(x)
                } else {
                    None
                },
                None => Some(x),
            },
            None => None,
        };
        self.from = nf;
        if nf.is_none() {
            self.to = None;
        }
        Some(f)
    }

    /// Takes the next value from the back.
    pub fn next_back(&mut self) -> (r: Option<i32>)
        ensures
            r == old(self).spec_to(),
            *final(self) == old(self).after_next_back(),
    {
        let t = match self.to {
            Some(t) => t,
            None => return None,
        };
        let nt = match prev_step(t, self.step) {
            Some(x) => match self.from {
                Some(f) => if f <= x {
                    Some(x)
                } else {
                    None
                },
                None => Some(x),
            },
            None => None,
        };
        self.to = nt;
        if nt.is_none() {
            self.from = None;
        }
        Some(t)
    }
}

/// Double-ended iteration: when the ends are in order and whole steps apart, the front gives
/// the first remaining year and the back the last, each leaving the rest, still aligned.
pub proof fn lemma_step_iter_ends(it: StepIter)
    requires
        it.aligned(),
    ensures
        it.remaining().len() > 0 ==> it.spec_from() == Some(it.remaining()[0] as i32),
        it.remaining().len() > 0 ==> it.spec_to() == Some(it.remaining().last() as i32),
        it.after_next().aligned(),
        it.after_next().remaining() == it.remaining().drop_first() || it.remaining().len() == 0,
        it.after_next_back().aligned(),
        it.after_next_back().remaining() == it.remaining().drop_last() || it.remaining().len()
            == 0,
        it.remaining().len() == 0 <==> it.spec_from() is None,
{
    if let (Some(f), Some(t)) = (it.from, it.to) {
        let s = it.step as int;
        let k = (t - f) / s;
        assert(t - f == k * s && k >= 0) by (nonlinear_arith)
            requires
                (t - f) % s == 0,
                t >= f,
                s > 0,
                k == (t - f) / s,
        ;
        let r = it.remaining();
        assert(r.last() == f + k * s);
        if k == 0 {
            assert(k * s == 0) by (nonlinear_arith)
                requires
                    k == 0,
            ;
            assert(t == f);
            assert(r.len() == 1);
            assert(it.after_next().from is None && it.after_next().to is None);
            assert(it.after_next().remaining() =~= r.drop_first());
            assert(it.after_next_back().remaining() =~= r.drop_last());
        } else {
            assert(f + s <= t) by (nonlinear_arith)
                requires
                    t - f == k * s,
                    k >= 1,
                    s > 0,
            ;
            assert(((t - (f + s)) / s == k - 1) && (t - (f + s)) % s == 0) by (nonlinear_arith)
                requires
                    t - f == k * s,
                    k >= 1,
                    s > 0,
            ;
            assert(((t - s - f) / s == k - 1) && (t - s - f) % s == 0) by (nonlinear_arith)
                requires
                    t - f == k * s,
                    k >= 1,
                    s > 0,
            ;
            let a = it.after_next();
            assert forall|i: int| 0 <= i < k implies #[trigger] a.remaining()[i] == r.drop_first()[i] by {
                assert((f + s) + i * s == f + (i + 1) * s) by (nonlinear_arith);
            }
            assert(a.remaining() =~= r.drop_first());
            let b = it.after_next_back();
            assert(b.remaining() =~= r.drop_last());
        }
    }
}

/// See [crate::level_1::Edtf::iter_centuries]. Iterates century starts, 100 years apart.
#[derive(Debug, Clone, Copy, PartialEq, Eq, Structural)]
pub struct CenturyIter(pub(crate) StepIter);

/// See [crate::level_1::Edtf::iter_decades]. Iterates decade starts, 10 years apart.
#[derive(Debug, Clone, Copy, PartialEq, Eq, Structural)]
pub struct DecadeIter(pub(crate) StepIter);

/// See [crate::level_1::Edtf::iter_years]. Iterates years.
#[derive(Debug, Clone, Copy, PartialEq, Eq, Structural)]
pub struct YearIter(pub(crate) StepIter);

/// `num_integer::mod_floor` on `i32`: the remainder of floored division.
#[verifier::external_body]
fn mod_floor(a: i32, b: i32) -> (r: i32)
    requires
        b > 0,
    ensures
        r == a % b,
{
    num_integer::mod_floor(a, b)
}

/// `RangeInclusive::start`: the lower bound of a range.
#[verifier::external_body]
fn range_start(r: &core::ops::RangeInclusive<i32>) -> (x: i32)
    ensures
        x == r@.start,
{
    *r.start()
}

/// `RangeInclusive::end`: the upper bound of a range.
#[verifier::external_body]
fn range_end(r: &core::ops::RangeInclusive<i32>) -> (x: i32)
    ensures
        x == r@.end,
{
    *r.end()
}

/// The start of the period of `len` years that holds `y`, for periods starting at multiples
/// of `len` (floored, so -97 is in the century starting at -100).
pub open spec fn period_start(y: int, len: int) -> int {
    y - y % len
}

/// The periods a range touches: stepping by `len` from the period that holds `start` to the
/// one that holds `end` yields exactly the starts of the periods of `len` years (multiples of
/// `len`) with any year in `start..=end`. With `len` 100 these are the centuries that
/// [CenturyIter::new] iterates, with 10 the decades of [DecadeIter::new].
pub proof fn lemma_periods_cover(it: StepIter, start: int, end: int, len: int, c: int)
    requires
        len > 0,
        start <= end,
        i32::MIN <= period_start(start, len),
        end <= i32::MAX,
        it.spec_from() == Some(period_start(start, len) as i32),
        it.spec_to() == Some(period_start(end, len) as i32),
        it.spec_step() == len,
    ensures
        it.aligned(),
        it.remaining().contains(c) <==> (c % len == 0 && start < c + len && c <= end),
{
    let f = period_start(start, len);
    let t = period_start(end, len);
    let qs = start / len;
    let qe = end / len;
    vstd::arithmetic::div_mod::lemma_fundamental_div_mod(start, len);
    vstd::arithmetic::div_mod::lemma_fundamental_div_mod(end, len);
    assert(f == len * qs && t == len * qe);
    assert(qs <= qe) by (nonlinear_arith)
        requires
            start <= end,
            start == len * qs + start % len,
            end == len * qe + end % len,
            0 <= start % len < len,
            0 <= end % len < len,
            len > 0,
    ;
    assert(f <= t) by (nonlinear_arith)
        requires
            qs <= qe,
            len > 0,
            f == len * qs,
            t == len * qe,
    ;
    assert(t <= end);
    assert((t - f) % len == 0 && (t - f) / len == qe - qs) by {
        assert(t - f == len * (qe - qs)) by (nonlinear_arith)
            requires
                f == len * qs,
                t == len * qe,
        ;
        vstd::arithmetic::div_mod::lemma_mod_multiples_basic(qe - qs, len);
        vstd::arithmetic::div_mod::lemma_div_multiples_vanish(qe - qs, len);
    }
    let r = it.remaining();
    assert(r.len() == qe - qs + 1);
    if r.contains(c) {
        let i = choose|i: int| 0 <= i < r.len() && r[i] == c;
        assert(c == len * (qs + i)) by (nonlinear_arith)
            requires
                c == f + i * len,
                f == len * qs,
        ;
        vstd::arithmetic::div_mod::lemma_mod_multiples_basic(qs + i, len);
        assert(start < c + len && c <= end) by (nonlinear_arith)
            requires
                c == len * (qs + i),
                0 <= i <= qe - qs,
                start == len * qs + start % len,
                end == len * qe + end % len,
                0 <= start % len < len,
                0 <= end % len,
                len > 0,
        ;
    }
    if c % len == 0 && start < c + len && c <= end {
        let j = c / len;
        vstd::arithmetic::div_mod::lemma_fundamental_div_mod(c, len);
        assert(c == len * j);
        assert(qs <= j && j <= qe) by (nonlinear_arith)
            requires
                c == len * j,
                start < c + len,
                c <= end,
                start == len * qs + start % len,
                end == len * qe + end % len,
                0 <= start % len < len,
                0 <= end % len < len,
                len > 0,
        ;
        let i = j - qs;
        assert(r[i] == c) by (nonlinear_arith)
            requires
                r[i] == f + i * len,
                f == len * qs,
                c == len * j,
                i == j - qs,
        ;
        assert(r.contains(c));
    }
}

impl CenturyIter {
    /// The inner stepper.
    pub open(crate) spec fn inner(self) -> StepIter {
        self.0
    }

    /// Iterates all centuries with any part in a range: `1905..=2005` gives 1900, 2000.
    pub fn new(range: core::ops::RangeInclusive<i32>) -> (r: Self)
        requires
            range@.start - range@.start % 100 >= i32::MIN,
            range@.end - range@.end % 100 >= i32::MIN,
        ensures
            r.inner().spec_from() == Some(period_start(range@.start as int, 100) as i32),
            r.inner().spec_to() == Some(period_start(range@.end as int, 100) as i32),
            r.inner().spec_step() == 100,
    {
        let start = range_start(&range);
        let end = range_end(&range);
        let from = start - mod_floor(start, 100);
        let to = end - mod_floor(end, 100);
        CenturyIter(StepIter { from: Some(from), to: Some(to), step: 100 })
    }

    /// Takes the next century from the front.
    pub fn next(&mut self) -> (r: Option<i32>)
        ensures
            r == old(self).inner().spec_from(),
            final(self).inner() == old(self).inner().after_next(),
    {
        self.0.next()
    }

    /// Takes the next century from the back.
    pub fn next_back(&mut self) -> (r: Option<i32>)
        ensures
            r == old(self).inner().spec_to(),
            final(self).inner() == old(self).inner().after_next_back(),
    {
        self.0.next_back()
    }
}

impl DecadeIter {
    /// The inner stepper.
    pub open(crate) spec fn inner(self) -> StepIter {
        self.0
    }

    /// Iterates all decades with any part in a range: `1905..=1939` gives 1900, 1910, 1920,
    /// 1930.
    pub fn new(range: core::ops::RangeInclusive<i32>) -> (r: Self)
        requires
            range@.start - range@.start % 10 >= i32::MIN,
            range@.end - range@.end % 10 >= i32::MIN,
        ensures
            r.inner().spec_from() == Some(period_start(range@.start as int, 10) as i32),
            r.inner().spec_to() == Some(period_start(range@.end as int, 10) as i32),
            r.inner().spec_step() == 10,
    {
        let start = range_start(&range);
        let end = range_end(&range);
        let from = start - mod_floor(start, 10);
        let to = end - mod_floor(end, 10);
        DecadeIter(StepIter { from: Some(from), to: Some(to), step: 10 })
    }

    /// Takes the next decade from the front.
    pub fn next(&mut self) -> (r: Option<i32>)
        ensures
            r == old(self).inner().spec_from(),
            final(self).inner() == old(self).inner().after_next(),
    {
        self.0.next()
    }

    /// Takes the next decade from the back.
    pub fn next_back(&mut self) -> (r: Option<i32>)
        ensures
            r == old(self).inner().spec_to(),
            final(self).inner() == old(self).inner().after_next_back(),
    {
        self.0.next_back()
    }
}

impl YearIter {
    /// The inner stepper.
    pub open(crate) spec fn inner(self) -> StepIter {
        self.0
    }

    /// Iterates the years `start..=end`.
    pub fn new(start: i32, end: i32) -> (r: Self)
        ensures
            r.inner().spec_from() == Some(start),
            r.inner().spec_to() == Some(end),
            r.inner().spec_step() == 1,
    {
        YearIter(StepIter { from: Some(start), to: Some(end), step: 1 })
    }

    /// Takes the next year from the front.
    pub fn next(&mut self) -> (r: Option<i32>)
        ensures
            r == old(self).inner().spec_from(),
            final(self).inner() == old(self).inner().after_next(),
    {
        self.0.next()
    }

    /// Takes the next year from the back.
    pub fn next_back(&mut self) -> (r: Option<i32>)
        ensures
            r == old(self).inner().spec_to(),
            final(self).inner() == old(self).inner().after_next_back(),
    {
        self.0.next_back()
    }
}

/// The front of a month iterator after a step: the next month, unless it passes the back.
pub open spec fn keep_front_ym(n: Option<(int, int)>, to: Option<(i32, u32)>) -> Option<(i32, u32)> {
    match n {
        Some(x) => match to {
            Some(t) => if !ym_lt(ym_int(t), x) {
                Some((x.0 as i32, x.1 as u32))
            } else {
                None
            },
            None => Some((x.0 as i32, x.1 as u32)),
        },
        None => None,
    }
}

/// The back of a month iterator after a step: the previous month, unless it passes the front.
pub open spec fn keep_back_ym(p: Option<(int, int)>, from: Option<(i32, u32)>) -> Option<(i32, u32)> {
    match p {
        Some(x) => match from {
            Some(f) => if !ym_lt(x, ym_int(f)) {
                Some((x.0 as i32, x.1 as u32))
            } else {
                None
            },
            None => Some((x.0 as i32, x.1 as u32)),
        },
        None => None,
    }
}

/// `a` is not after `b`, for year-month pairs.
fn ym_le(a: (i32, u32), b: (i32, u32)) -> (r: bool)
    ensures
        r == !ym_lt(ym_int(b), ym_int(a)),
{
    a.0 < b.0 || (a.0 == b.0 && a.1 <= b.1)
}

/// `a` is not after `b`, for year-month-day triples.
fn ymd_le(a: (i32, u32, u32), b: (i32, u32, u32)) -> (r: bool)
    ensures
        r == !ymd_lt(ymd_int(b), ymd_int(a)),
{
    a.0 < b.0 || (a.0 == b.0 && (a.1 < b.1 || (a.1 == b.1 && a.2 <= b.2)))
}

/// Iterates year-month pairs; see [crate::level_1::Edtf::iter_months],
/// [crate::level_1::Date::iter_possible_months] and [crate::level_1::Date::iter_forward_months].
#[derive(Debug, Clone, Copy, PartialEq, Eq)]
pub struct MonthIter {
    pub(crate) from: Option<(i32, u32)>,
    pub(crate) to: Option<(i32, u32)>,
}

impl MonthIter {
    /// The next month from the front, if any.
    pub open(crate) spec fn spec_from(self) -> Option<(i32, u32)> {
        self.from
    }

    /// The next month from the back, if any; None for an iterator without end.
    pub open(crate) spec fn spec_to(self) -> Option<(i32, u32)> {
        self.to
    }

    /// The iterator after taking from the front.
    pub open(crate) spec fn after_next(self) -> MonthIter {
        match self.from {
            None => self,
            Some(f) => {
                let nf = keep_front_ym(month_succ(f.0 as int, f.1 as int), self.to);
                MonthIter { from: nf, to: if nf is None { None } else { self.to } }
            },
        }
    }

    /// The iterator after taking from the back.
    pub open(crate) spec fn after_next_back(self) -> MonthIter {
        match self.to {
            None => self,
            Some(t) => {
                let nt = keep_back_ym(month_pred(t.0 as int, t.1 as int), self.from);
                MonthIter { from: if nt is None { None } else { self.from }, to: nt }
            },
        }
    }

    /// Iterates the months from `from` to `to`, both included.
    pub fn new(from: (i32, u32), to: (i32, u32)) -> (r: Self)
        ensures
            r.spec_from() == Some(from),
            r.spec_to() == Some(to),
    {
        MonthIter { from: Some(from), to: Some(to) }
    }

    /// Iterates from `from` with no end.
    pub(crate) fn unbounded(from: (i32, u32)) -> (r: Self)
        ensures
            r.spec_from() == Some(from),
            r.spec_to() is None,
    {
        MonthIter { from: Some(from), to: None }
    }

    /// Takes the next month from the front.
    pub fn next(&mut self) -> (r: Option<(i32, u32)>)
        ensures
            r == old(self).spec_from(),
            *final(self) == old(self).after_next(),
    {
        let f = match self.from {
            Some(f) => f,
            None => return None,
        };
        let nf = match next_month(f.0, f.1) {
            Some(x) => match self.to {
                Some(t) => if ym_le(x, t) {
                    Some(x)
                } else {
                    None
                },
                None => Some(x),
            },
            None => None,
        };
        self.from = nf;
        if nf.is_none() {
            self.to = None;
        }
        Some(f)
    }

    /// Takes the next month from the back.
    pub fn next_back(&mut self) -> (r: Option<(i32, u32)>)
        ensures
            r == old(self).spec_to(),
            *final(self) == old(self).after_next_back(),
    {
        let t = match self.to {
            Some(t) => t,
            None => return None,
        };
        let nt = match prev_month(t.0, t.1) {
            Some(x) => match self.from {
                Some(f) => if ym_le(f, x) {
                    Some(x)
                } else {
                    None
                },
                None => Some(x),
            },
            None => None,
        };
        self.to = nt;
        if nt.is_none() {
            self.from = None;
        }
        Some(t)
    }
}

/// The front of a day iterator after a step: the next day, unless it passes the back.
pub open spec fn keep_front_ymd(n: Option<(int, int, int)>, to: Option<(i32, u32, u32)>) -> Option<
    (i32, u32, u32),
> {
    match n {
        Some(x) => match to {
            Some(t) => if !ymd_lt(ymd_int(t), x) {
                Some((x.0 as i32, x.1 as u32, x.2 as u32))
            } else {
                None
            },
            None => Some((x.0 as i32, x.1 as u32, x.2 as u32)),
        },
        None => None,
    }
}

/// The back of a day iterator after a step: the previous day, unless it passes the front.
pub open spec fn keep_back_ymd(p: Option<(int, int, int)>, from: Option<(i32, u32, u32)>) -> Option<
    (i32, u32, u32),
> {
    match p {
        Some(x) => match from {
            Some(f) => if !ymd_lt(x, ymd_int(f)) {
                Some((x.0 as i32, x.1 as u32, x.2 as u32))
            } else {
                None
            },
            None => Some((x.0 as i32, x.1 as u32, x.2 as u32)),
        },
        None => None,
    }
}

/// A real day, when present.
pub open spec fn valid_opt(x: Option<(i32, u32, u32)>) -> bool {
    match x {
        Some(v) => spec_valid_date(v.0 as int, v.1 as int, v.2 as int),
        None => true,
    }
}

/// Iterates all days in a range as [DateComplete] values; see
/// [crate::level_1::Edtf::iter_days], [crate::level_1::Date::iter_possible_days] and
/// [crate::level_1::Date::iter_forward_days].
#[derive(Debug, Clone, Copy, PartialEq, Eq)]
pub struct DayIter {
    pub(crate) from: Option<(i32, u32, u32)>,
    pub(crate) to: Option<(i32, u32, u32)>,
}

impl DayIter {
    /// Both ends are real days.
    #[verifier::type_invariant]
    pub open(crate) spec fn wf(self) -> bool {
        valid_opt(self.from) && valid_opt(self.to)
    }

    /// The next day from the front, if any.
    pub open(crate) spec fn spec_from(self) -> Option<(i32, u32, u32)> {
        self.from
    }

    /// The next day from the back, if any; None for an iterator without end.
    pub open(crate) spec fn spec_to(self) -> Option<(i32, u32, u32)> {
        self.to
    }

    /// The iterator after taking from the front.
    pub open(crate) spec fn after_next(self) -> DayIter {
        match self.from {
            None => self,
            Some(f) => {
                let nf = keep_front_ymd(day_succ(f.0 as int, f.1 as int, f.2 as int), self.to);
                DayIter { from: nf, to: if nf is None { None } else { self.to } }
            },
        }
    }

    /// The iterator after taking from the back.
    pub open(crate) spec fn after_next_back(self) -> DayIter {
        match self.to {
            None => self,
            Some(t) => {
                let nt = keep_back_ymd(day_pred(t.0 as int, t.1 as int, t.2 as int), self.from);
                DayIter { from: if nt is None { None } else { self.from }, to: nt }
            },
        }
    }

    /// Iterates the days from `from` to `to`, both included; both must be real days.
    pub fn new(from: (i32, u32, u32), to: (i32, u32, u32)) -> (r: Self)
        requires
            spec_valid_date(from.0 as int, from.1 as int, from.2 as int),
            spec_valid_date(to.0 as int, to.1 as int, to.2 as int),
        ensures
            r.spec_from() == Some(from),
            r.spec_to() == Some(to),
    {
        DayIter { from: Some(from), to: Some(to) }
    }

    /// Iterates from a real day with no end.
    pub(crate) fn unbounded(from: (i32, u32, u32)) -> (r: Self)
        requires
            spec_valid_date(from.0 as int, from.1 as int, from.2 as int),
        ensures
            r.spec_from() == Some(from),
            r.spec_to() is None,
    {
        DayIter { from: Some(from), to: None }
    }

    /// Takes the next day from the front.
    pub fn next(&mut self) -> (r: Option<DateComplete>)
        ensures
            match old(self).spec_from() {
                Some(f) => r matches Some(c) && c.spec_year() == f.0 && c.spec_month() == f.1
                    && c.spec_day() == f.2,
                None => r is None,
            },
            *final(self) == old(self).after_next(),
    {
        proof {
            use_type_invariant(&*self);
        }
        let f = match self.from {
            Some(f) => f,
            None => return None,
        };
        proof {
            lemma_day_succ(f.0 as int, f.1 as int, f.2 as int);
        }
        let nf = match next_day(f.0, f.1, f.2) {
            Some(x) => match self.to {
                Some(t) => if ymd_le(x, t) {
                    Some(x)
                } else {
                    None
                },
                None => Some(x),
            },
            None => None,
        };
        self.from = nf;
        if nf.is_none() {
            self.to = None;
        }
        Some(DateComplete { year: f.0, month: f.1 as u8, day: f.2 as u8 })
    }

    /// Takes the next day from the back.
    pub fn next_back(&mut self) -> (r: Option<DateComplete>)
        ensures
            match old(self).spec_to() {
                Some(t) => r matches Some(c) && c.spec_year() == t.0 && c.spec_month() == t.1
                    && c.spec_day() == t.2,
                None => r is None,
            },
            *final(self) == old(self).after_next_back(),
    {
        proof {
            use_type_invariant(&*self);
        }
        let t = match self.to {
            Some(t) => t,
            None => return None,
        };
        proof {
            lemma_day_pred(t.0 as int, t.1 as int, t.2 as int);
        }
        let nt = match prev_day(t.0, t.1, t.2) {
            Some(x) => match self.from {
                Some(f) => if ymd_le(f, x) {
                    Some(x)
                } else {
                    None
                },
                None => Some(x),
            },
            None => None,
        };
        self.to = nt;
        if nt.is_none() {
            self.from = None;
        }
        Some(DateComplete { year: t.0, month: t.1 as u8, day: t.2 as u8 })
    }
}

/// Day iteration visits every real day in order: after a day is taken from the front, the
/// new front is the very next real day (none lies between) and not past the back; and the
/// same from the back.
pub proof fn lemma_day_iter_steps(it: DayIter)
    requires
        it.wf(),
    ensures
        it.after_next().wf(),
        it.after_next_back().wf(),
        it.spec_from() matches Some(f) ==> (it.after_next().spec_from() matches Some(n) ==> ymd_lt(
            ymd_int(f),
            ymd_int(n),
        ) && (forall|z: (int, int, int)|
            incrementable::valid_ymd(z.0, z.1, z.2) && ymd_lt(ymd_int(f), z) ==> !ymd_lt(
                z,
                ymd_int(n),
            )) && (it.spec_to() matches Some(t) ==> !ymd_lt(ymd_int(t), ymd_int(n)))),
        it.spec_to() matches Some(t) ==> (it.after_next_back().spec_to() matches Some(p)
            ==> ymd_lt(ymd_int(p), ymd_int(t)) && (forall|z: (int, int, int)|
            incrementable::valid_ymd(z.0, z.1, z.2) && ymd_lt(z, ymd_int(t)) ==> !ymd_lt(
                ymd_int(p),
                z,
            )) && (it.spec_from() matches Some(f) ==> !ymd_lt(ymd_int(p), ymd_int(f)))),
{
    if let Some(f) = it.from {
        lemma_day_succ(f.0 as int, f.1 as int, f.2 as int);
    }
    if let Some(t) = it.to {
        lemma_day_pred(t.0 as int, t.1 as int, t.2 as int);
    }
}

} // verus!
