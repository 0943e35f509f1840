//! Iterating the closed intervals of level 1 by centuries, decades, years, months or days.

use vstd::prelude::*;

use crate::calendar::{days_in_month, spec_days_in_month, spec_valid_date};
use crate::level_1::basic::validated;
use crate::level_1::packed::{year_range_ok, YearMask};
use crate::level_1::{Date, Edtf, UnvalidatedDMEnum, UnvalidatedDate};
use super::{period_start, CenturyIter, DayIter, DecadeIter, MonthIter, StepIter, YearIter};

verus! {

/// The step sizes of iteration, smallest first.
#[derive(Debug, Copy, Clone, PartialEq, Eq, Structural)]
pub enum StepSize {
    Day,
    Month,
    Season,
    Year,
    Decade,
    Century,
}

/// The rank of a step size, smallest first.
pub open spec fn step_rank(s: StepSize) -> int {
    match s {
        StepSize::Day => 0,
        StepSize::Month => 1,
        StepSize::Season => 2,
        StepSize::Year => 3,
        StepSize::Decade => 4,
        StepSize::Century => 5,
    }
}

/// The finest step an end of an interval allows, with the year and the parts it needs.
#[derive(Debug, Copy, Clone, PartialEq, Eq, Structural)]
pub enum IntervalPrecision {
    Day(i32, u8, u8),
    Month(i32, u8),
    Season(i32, u8),
    Year(i32),
    Decade(i32),
    Century(i32),
}

/// The iterator of an interval at the smallest step that both of its ends allow.
#[derive(Debug, Clone, Copy, PartialEq, Eq)]
pub enum SmallestStep {
    Century(CenturyIter),
    Decade(DecadeIter),
    Year(YearIter),
    Month(MonthIter),
    Day(DayIter),
}

/// The step size of a precision.
pub open spec fn step_of(p: IntervalPrecision) -> StepSize {
    match p {
        IntervalPrecision::Day(..) => StepSize::Day,
        IntervalPrecision::Month(..) => StepSize::Month,
        IntervalPrecision::Season(..) => StepSize::Season,
        IntervalPrecision::Year(..) => StepSize::Year,
        IntervalPrecision::Decade(..) => StepSize::Decade,
        IntervalPrecision::Century(..) => StepSize::Century,
    }
}

/// The year of a precision.
pub open spec fn year_of(p: IntervalPrecision) -> i32 {
    match p {
        IntervalPrecision::Day(y, _, _) => y,
        IntervalPrecision::Month(y, _) => y,
        IntervalPrecision::Season(y, _) => y,
        IntervalPrecision::Year(y) => y,
        IntervalPrecision::Decade(y) => y,
        IntervalPrecision::Century(y) => y,
    }
}

/// The month of a precision with a month.
pub open spec fn month_of(p: IntervalPrecision) -> Option<u8> {
    match p {
        IntervalPrecision::Day(_, m, _) => Some(m),
        IntervalPrecision::Month(_, m) => Some(m),
        _ => None,
    }
}

/// The coarser of two step sizes.
pub open spec fn coarser(a: StepSize, b: StepSize) -> StepSize {
    if step_rank(a) >= step_rank(b) {
        a
    } else {
        b
    }
}

/// The finest step a date allows as an end of an interval: None when its month or day is
/// `XX`.
pub open(crate) spec fn spec_max_precision(d: Date) -> Option<IntervalPrecision> {
    let y = d.spec_year() as i32;
    match (d.spec_month(), d.spec_day()) {
        (Some(UnvalidatedDMEnum::Unspecified), _) => None,
        (Some(UnvalidatedDMEnum::Unmasked(_)), Some(UnvalidatedDMEnum::Unspecified)) => None,
        (Some(UnvalidatedDMEnum::Unmasked(m)), Some(UnvalidatedDMEnum::Unmasked(dd))) => Some(
            IntervalPrecision::Day(y, m, dd),
        ),
        (Some(UnvalidatedDMEnum::Unmasked(m)), None) => if m <= 12 {
            Some(IntervalPrecision::Month(y, m))
        } else {
            Some(IntervalPrecision::Season(y, m))
        },
        (None, _) => match d.spec_year_mask() {
            YearMask::Unmasked => Some(IntervalPrecision::Year(y)),
            YearMask::OneDigit => Some(IntervalPrecision::Decade(y)),
            YearMask::TwoDigits => Some(IntervalPrecision::Century(y)),
        },
    }
}

/// The iterator from one end to the other at a step size; None when an end lacks the parts
/// the step needs. Not for seasons.
pub open(crate) spec fn spec_round_with(
    a: IntervalPrecision,
    b: IntervalPrecision,
    s: StepSize,
) -> Option<SmallestStep> {
    let ay = year_of(a) as int;
    let by = year_of(b) as int;
    match s {
        StepSize::Century => Some(
            SmallestStep::Century(
                CenturyIter(
                    StepIter {
                        from: Some(period_start(ay, 100) as i32),
                        to: Some(period_start(by, 100) as i32),
                        step: 100,
                    },
                ),
            ),
        ),
        StepSize::Decade => Some(
            SmallestStep::Decade(
                DecadeIter(
                    StepIter {
                        from: Some(period_start(ay, 10) as i32),
                        to: Some(period_start(by, 10) as i32),
                        step: 10,
                    },
                ),
            ),
        ),
        StepSize::Year => Some(
            SmallestStep::Year(
                YearIter(StepIter { from: Some(ay as i32), to: Some(by as i32), step: 1 }),
            ),
        ),
        StepSize::Month => match (month_of(a), month_of(b)) {
            (Some(am), Some(bm)) => Some(
                SmallestStep::Month(
                    MonthIter {
                        from: Some((ay as i32, am as u32)),
                        to: Some((by as i32, bm as u32)),
                    },
                ),
            ),
            _ => None,
        },
        StepSize::Day => match (a, b) {
            (IntervalPrecision::Day(_, am, ad), IntervalPrecision::Day(_, bm, bd)) => Some(
                SmallestStep::Day(
                    DayIter {
                        from: Some((ay as i32, am as u32, ad as u32)),
                        to: Some((by as i32, bm as u32, bd as u32)),
                    },
                ),
            ),
            _ => None,
        },
        StepSize::Season => None,
    }
}

/// A date has a month or day written `XX`.
pub open(crate) spec fn has_unspecified(d: Date) -> bool {
    d.spec_month() == Some(UnvalidatedDMEnum::Unspecified) || d.spec_day() == Some(
        UnvalidatedDMEnum::Unspecified,
    )
}

/// How a date is written once its `XX` month and day are replaced by their first (`end`
/// false) or last possible values, for iterating at a step; None when the step does not fit
/// the date's precision.
pub open(crate) spec fn reify_written(d: Date, end: bool, level: StepSize) -> Option<
    UnvalidatedDate,
> {
    let u = d.written();
    match u.month {
        None => if step_rank(level) <= 1 {
            None
        } else {
            Some(u)
        },
        Some(m) => match u.day {
            Some(dd) => if level == StepSize::Day {
                match (m, dd) {
                    (UnvalidatedDMEnum::Unmasked(mv), UnvalidatedDMEnum::Unspecified) => Some(
                        UnvalidatedDate {
                            day: Some(
                                UnvalidatedDMEnum::Unmasked(
                                    if end {
                                        spec_days_in_month(u.year as int, mv as int) as u8
                                    } else {
                                        1u8
                                    },
                                ),
                            ),
                            ..u
                        },
                    ),
                    (UnvalidatedDMEnum::Unspecified, UnvalidatedDMEnum::Unspecified) => Some(
                        UnvalidatedDate {
                            month: Some(
                                UnvalidatedDMEnum::Unmasked(
                                    if end {
                                        12u8
                                    } else {
                                        1u8
                                    },
                                ),
                            ),
                            day: Some(
                                UnvalidatedDMEnum::Unmasked(
                                    if end {
                                        31u8
                                    } else {
                                        1u8
                                    },
                                ),
                            ),
                            ..u
                        },
                    ),
                    _ => Some(u),
                }
            } else {
                None
            },
            None => if step_rank(level) <= 1 {
                if m == UnvalidatedDMEnum::Unspecified {
                    Some(
                        UnvalidatedDate {
                            month: Some(
                                UnvalidatedDMEnum::Unmasked(
                                    if end {
                                        12u8
                                    } else {
                                        1u8
                                    },
                                ),
                            ),
                            ..u
                        },
                    )
                } else {
                    Some(u)
                }
            } else {
                None
            },
        },
    }
}

/// The date with its `XX` month and day replaced by their first or last possible values.
pub open(crate) spec fn spec_unspec(d: Date, end: bool, level: StepSize) -> Option<Date> {
    match reify_written(d, end, level) {
        Some(u) => validated(u),
        None => None,
    }
}

/// One end of an interval, ready to iterate at a step: unchanged unless it has `XX` parts,
/// which become their first (`end` false) or last possible values.
pub open(crate) spec fn endpoint(d: Date, end: bool, level: StepSize) -> Option<Date> {
    if has_unspecified(d) {
        spec_unspec(d, end, level)
    } else {
        Some(d)
    }
}

/// The iterator of a closed interval at a step size.
pub open(crate) spec fn spec_iter_at(e: Edtf, level: StepSize) -> Option<SmallestStep> {
    match e {
        Edtf::Interval(d1, d2) => match (endpoint(d1, false, level), endpoint(d2, true, level)) {
            (Some(a), Some(b)) => match (spec_max_precision(a), spec_max_precision(b)) {
                (Some(p), Some(q)) => spec_round_with(p, q, level),
                _ => None,
            },
            _ => None,
        },
        _ => None,
    }
}

/// The iterator of a closed interval at the smallest step both ends allow.
pub open(crate) spec fn spec_iter_smallest(e: Edtf) -> Option<SmallestStep> {
    match e {
        Edtf::Interval(d1, d2) => match (spec_max_precision(d1), spec_max_precision(d2)) {
            (Some(p), Some(q)) => spec_round_with(p, q, coarser(step_of(p), step_of(q))),
            _ => None,
        },
        _ => None,
    }
}

impl IntervalPrecision {
    /// The step size of this precision.
    fn discriminant(&self) -> (r: StepSize)
        ensures
            r == step_of(*self),
    {
        match self {
            IntervalPrecision::Day(..) => StepSize::Day,
            IntervalPrecision::Month(..) => StepSize::Month,
            IntervalPrecision::Season(..) => StepSize::Season,
            IntervalPrecision::Year(..) => StepSize::Year,
            IntervalPrecision::Decade(..) => StepSize::Decade,
            IntervalPrecision::Century(..) => StepSize::Century,
        }
    }

    /// The coarser of the step sizes of two precisions.
    fn lowest_common_precision(self, other: Self) -> (r: StepSize)
        ensures
            r == coarser(step_of(self), step_of(other)),
    {
        let a = self.discriminant();
        let b = other.discriminant();
        if rank(a) >= rank(b) {
            a
        } else {
            b
        }
    }

    /// The year.
    fn year(&self) -> (r: i32)
        ensures
            r == year_of(*self),
    {
        match *self {
            IntervalPrecision::Day(y, _, _) => y,
            IntervalPrecision::Month(y, _) => y,
            IntervalPrecision::Season(y, _) => y,
            IntervalPrecision::Year(y) => y,
            IntervalPrecision::Decade(y) => y,
            IntervalPrecision::Century(y) => y,
        }
    }

    /// The month, for a day or month precision.
    fn month(&self) -> (r: Option<u8>)
        ensures
            r == month_of(*self),
    {
        match *self {
            IntervalPrecision::Day(_, m, _) => Some(m),
            IntervalPrecision::Month(_, m) => Some(m),
            _ => None,
        }
    }

    /// The iterator from this end to `other` at step size `s`.
    fn round_with(self, other: Self, s: StepSize) -> (r: Option<SmallestStep>)
        requires
            s != StepSize::Season,
            year_range_ok(year_of(self) as int),
            year_range_ok(year_of(other) as int),
            self matches IntervalPrecision::Day(y, m, d) ==> spec_valid_date(
                y as int,
                m as int,
                d as int,
            ),
            other matches IntervalPrecision::Day(y, m, d) ==> spec_valid_date(
                y as int,
                m as int,
                d as int,
            ),
        ensures
            r == spec_round_with(self, other, s),
    {
        let sy = self.year();
        let oy = other.year();
        match s {
            StepSize::Century => Some(
                SmallestStep::Century(CenturyIter::new(core::ops::RangeInclusive::new(sy, oy))),
            ),
            StepSize::Decade => Some(
                SmallestStep::Decade(DecadeIter::new(core::ops::RangeInclusive::new(sy, oy))),
            ),
            StepSize::Year => Some(SmallestStep::Year(YearIter::new(sy, oy))),
            StepSize::Month => match (self.month(), other.month()) {
                (Some(am), Some(bm)) => Some(
                    SmallestStep::Month(MonthIter::new((sy, am as u32), (oy, bm as u32))),
                ),
                _ => None,
            },
            StepSize::Day => match (self, other) {
                (IntervalPrecision::Day(_, am, ad), IntervalPrecision::Day(_, bm, bd)) => Some(
                    SmallestStep::Day(
                        DayIter::new((sy, am as u32, ad as u32), (oy, bm as u32, bd as u32)),
                    ),
                ),
                _ => None,
            },
            StepSize::Season => None,
        }
    }
}

/// The rank of a step size.
fn rank(s: StepSize) -> (r: u8)
    ensures
        r == step_rank(s),
{
    match s {
        StepSize::Day => 0,
        StepSize::Month => 1,
        StepSize::Season => 2,
        StepSize::Year => 3,
        StepSize::Decade => 4,
        StepSize::Century => 5,
    }
}

/// What a precision taken from a date satisfies.
pub open(crate) spec fn precision_ok(p: IntervalPrecision) -> bool {
    &&& year_range_ok(year_of(p) as int)
    &&& p matches IntervalPrecision::Day(y, m, d) ==> spec_valid_date(y as int, m as int, d as int)
}

impl Date {
    /// The finest step this date allows as an end of an interval.
    pub(crate) fn max_interval_precision(&self) -> (r: Option<IntervalPrecision>)
        ensures
            r == spec_max_precision(*self),
            r matches Some(p) ==> precision_ok(p),
    {
        proof {
            use_type_invariant(self);
            self.lemma_facts();
        }
        let (y, yf) = self.year.unpack();
        match (self.month_part(), self.day_part()) {
            (Some(UnvalidatedDMEnum::Unspecified), _) => None,
            (Some(UnvalidatedDMEnum::Unmasked(_)), Some(UnvalidatedDMEnum::Unspecified)) => None,
            (Some(UnvalidatedDMEnum::Unmasked(m)), Some(UnvalidatedDMEnum::Unmasked(d))) => Some(
                IntervalPrecision::Day(y, m, d),
            ),
            (Some(UnvalidatedDMEnum::Unmasked(m)), None) => if m <= 12 {
                Some(IntervalPrecision::Month(y, m))
            } else {
                Some(IntervalPrecision::Season(y, m))
            },
            (None, _) => match yf.mask {
                YearMask::Unmasked => Some(IntervalPrecision::Year(y)),
                YearMask::OneDigit => Some(IntervalPrecision::Decade(y)),
                YearMask::TwoDigits => Some(IntervalPrecision::Century(y)),
            },
        }
    }

    /// Whether the month or day is written `XX`.
    pub(crate) fn has_unspecified(&self) -> (r: bool)
        ensures
            r == has_unspecified(*self),
    {
        matches!(self.month_part(), Some(UnvalidatedDMEnum::Unspecified)) || matches!(
            self.day_part(),
            Some(UnvalidatedDMEnum::Unspecified)
        )
    }

    /// This date with its `XX` month and day replaced by their first (`end` false) or last
    /// possible values, for iterating at step `level`.
    pub(crate) fn unspec(&self, end: bool, level: StepSize) -> (r: Option<Self>)
        ensures
            r == spec_unspec(*self, end, level),
    {
        proof {
            use_type_invariant(self);
            self.lemma_facts();
        }
        let (y, yf) = self.year.unpack();
        let u = UnvalidatedDate {
            year: y,
            year_mask: yf.mask,
            month: self.month_part(),
            day: self.day_part(),
            certainty: self.certainty,
        };
        assert(u == self.written());
        let new = match u.month {
            None => {
                if rank(level) <= 1 {
                    return None;
                }
                u
            },
            Some(m) => match u.day {
                Some(dd) => {
                    if level != StepSize::Day {
                        return None;
                    }
                    match (m, dd) {
                        (UnvalidatedDMEnum::Unmasked(mv), UnvalidatedDMEnum::Unspecified) => {
                            if mv > 12 {
                                return None;
                            }
                            let v: u8 = if end {
                                days_in_month(y, mv)
                            } else {
                                1
                            };
                            UnvalidatedDate { day: Some(UnvalidatedDMEnum::Unmasked(v)), ..u }
                        },
                        (UnvalidatedDMEnum::Unspecified, UnvalidatedDMEnum::Unspecified) => {
                            let mv: u8 = if end {
                                12
                            } else {
                                1
                            };
                            let dv: u8 = if end {
                                31
                            } else {
                                1
                            };
                            UnvalidatedDate {
                                month: Some(UnvalidatedDMEnum::Unmasked(mv)),
                                day: Some(UnvalidatedDMEnum::Unmasked(dv)),
                                ..u
                            }
                        },
                        _ => u,
                    }
                },
                None => {
                    if rank(level) > 1 {
                        return None;
                    }
                    match m {
                        UnvalidatedDMEnum::Unspecified => {
                            let mv: u8 = if end {
                                12
                            } else {
                                1
                            };
                            UnvalidatedDate { month: Some(UnvalidatedDMEnum::Unmasked(mv)), ..u }
                        },
                        _ => u,
                    }
                },
            },
        };
        match new.validate() {
            Ok(x) => Some(x),
            Err(_) => None,
        }
    }

    /// This date as an end of an interval to iterate at step `level`.
    pub(crate) fn endpoint(&self, end: bool, level: StepSize) -> (r: Option<Self>)
        ensures
            r == endpoint(*self, end, level),
    {
        if self.has_unspecified() {
            self.unspec(end, level)
        } else {
            Some(*self)
        }
    }
}

impl Edtf {
    /// The iterator of a closed interval at a step size.
    pub(crate) fn iter_at(&self, level: StepSize) -> (r: Option<SmallestStep>)
        requires
            level != StepSize::Season,
        ensures
            r == spec_iter_at(*self, level),
    {
        let (d1, d2) = match self {
            Edtf::Interval(a, b) => (*a, *b),
            _ => return None,
        };
        let a = match d1.endpoint(false, level) {
            Some(a) => a,
            None => return None,
        };
        let b = match d2.endpoint(true, level) {
            Some(b) => b,
            None => return None,
        };
        let p = match a.max_interval_precision() {
            Some(p) => p,
            None => return None,
        };
        let q = match b.max_interval_precision() {
            Some(q) => q,
            None => return None,
        };
        p.round_with(q, level)
    }

    /// If self is a closed interval, the iterator at the smallest step that both ends allow.
    /// Open and unknown ends give None, and so does an `XX` month or day at either end. A
    /// season at one end with a month, day or season at the other has no iterator: None.
    pub fn iter_smallest(&self) -> (r: Option<SmallestStep>)
        ensures
            r == spec_iter_smallest(*self),
    {
        let (d1, d2) = match self {
            Edtf::Interval(a, b) => (*a, *b),
            _ => return None,
        };
        let p = match d1.max_interval_precision() {
            Some(p) => p,
            None => return None,
        };
        let q = match d2.max_interval_precision() {
            Some(q) => q,
            None => return None,
        };
        let disc = p.lowest_common_precision(q);
        if disc == StepSize::Season {
            return None;
        }
        p.round_with(q, disc)
    }

    /// Iterates all centuries that have any part in a closed interval.
    pub fn iter_centuries(&self) -> (r: Option<CenturyIter>)
        ensures
            r == (match spec_iter_at(*self, StepSize::Century) {
                Some(SmallestStep::Century(c)) => Some(c),
                _ => None,
            }),
    {
        match self.iter_at(StepSize::Century) {
            Some(SmallestStep::Century(c)) => Some(c),
            _ => None,
        }
    }

    /// Iterates all decades that have any part in a closed interval.
    pub fn iter_decades(&self) -> (r: Option<DecadeIter>)
        ensures
            r == (match spec_iter_at(*self, StepSize::Decade) {
                Some(SmallestStep::Decade(c)) => Some(c),
                _ => None,
            }),
    {
        match self.iter_at(StepSize::Decade) {
            Some(SmallestStep::Decade(c)) => Some(c),
            _ => None,
        }
    }

    /// Iterates all years that have any part in a closed interval.
    pub fn iter_years(&self) -> (r: Option<YearIter>)
        ensures
            r == (match spec_iter_at(*self, StepSize::Year) {
                Some(SmallestStep::Year(c)) => Some(c),
                _ => None,
            }),
    {
        match self.iter_at(StepSize::Year) {
            Some(SmallestStep::Year(c)) => Some(c),
            _ => None,
        }
    }

    /// Iterates all year-months of a closed interval whose ends have month precision or
    /// better: `2019-11-30/2020-01` gives 2019-11, 2019-12, 2020-01. An `XX` month counts from
    /// January at the start and to December at the end.
    pub fn iter_months(&self) -> (r: Option<MonthIter>)
        ensures
            r == (match spec_iter_at(*self, StepSize::Month) {
                Some(SmallestStep::Month(c)) => Some(c),
                _ => None,
            }),
    {
        match self.iter_at(StepSize::Month) {
            Some(SmallestStep::Month(c)) => Some(c),
            _ => None,
        }
    }

    /// Iterates all days of a closed interval whose ends have day precision. An `XX` day
    /// counts from the first of the month at the start and to its last day at the end.
    pub fn iter_days(&self) -> (r: Option<DayIter>)
        ensures
            r == (match spec_iter_at(*self, StepSize::Day) {
                Some(SmallestStep::Day(c)) => Some(c),
                _ => None,
            }),
    {
        match self.iter_at(StepSize::Day) {
            Some(SmallestStep::Day(c)) => Some(c),
            _ => None,
        }
    }
}

} // verus!
