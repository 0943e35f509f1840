//! Iterating the days or months that one level 1 date could be referring to.

use vstd::prelude::*;

use crate::level_1::{Date, Edtf, Precision, UnvalidatedDMEnum};
use super::interval::{spec_iter_at, spec_unspec, SmallestStep, StepSize};
use super::{DayIter, MonthIter};

verus! {

/// The days a date could be referring to.
pub open(crate) spec fn spec_iter_possible_days(d: Date) -> Option<DayIter> {
    match (spec_unspec(d, false, StepSize::Day), spec_unspec(d, true, StepSize::Day)) {
        (Some(a), Some(b)) => match spec_iter_at(Edtf::Interval(a, b), StepSize::Day) {
            Some(SmallestStep::Day(c)) => Some(c),
            _ => None,
        },
        _ => None,
    }
}

/// The months a date could be referring to.
pub open(crate) spec fn spec_iter_possible_months(d: Date) -> Option<MonthIter> {
    match (spec_unspec(d, false, StepSize::Month), spec_unspec(d, true, StepSize::Month)) {
        (Some(a), Some(b)) => match spec_iter_at(Edtf::Interval(a, b), StepSize::Month) {
            Some(SmallestStep::Month(c)) => Some(c),
            _ => None,
        },
        _ => None,
    }
}

/// The days from the first this date could be referring to, without end.
pub open(crate) spec fn spec_iter_forward_days(d: Date) -> Option<DayIter> {
    match spec_unspec(d, false, StepSize::Day) {
        Some(s) => match s.spec_complete() {
            Some((y, m, dd)) => Some(
                DayIter { from: Some((y as i32, m as u32, dd as u32)), to: None },
            ),
            None => None,
        },
        None => None,
    }
}

/// The months from the first this date could be referring to, without end.
pub open(crate) spec fn spec_iter_forward_months(d: Date) -> Option<MonthIter> {
    match spec_unspec(d, false, StepSize::Month) {
        Some(s) => match s.spec_precision() {
            Precision::Month(y, m) => Some(MonthIter { from: Some((y, m)), to: None }),
            _ => None,
        },
        None => None,
    }
}

impl Date {
    /// Iterates the days this date could be referring to; it must have day precision.
    /// `2021-05-17` gives one day, `2021-05-XX` every day of May 2021, `2021-XX-XX` every day
    /// of 2021. A date without a day gives None.
    pub fn iter_possible_days(&self) -> (r: Option<DayIter>)
        ensures
            r == spec_iter_possible_days(*self),
    {
        let start = match self.unspec(false, StepSize::Day) {
            Some(x) => x,
            None => return None,
        };
        let end = match self.unspec(true, StepSize::Day) {
            Some(x) => x,
            None => return None,
        };
        Edtf::Interval(start, end).iter_days()
    }

    /// Starts at this day (for an `XX` day or month, the first of the month or year) and
    /// steps forward by one day without end.
    pub fn iter_forward_days(&self) -> (r: Option<DayIter>)
        ensures
            r == spec_iter_forward_days(*self),
    {
        let start = match self.unspec(false, StepSize::Day) {
            Some(x) => x,
            None => return None,
        };
        let c = match start.complete() {
            Some(c) => c,
            None => return None,
        };
        proof {
            use_type_invariant(c);
        }
        Some(DayIter::unbounded((c.year(), c.month(), c.day())))
    }

    /// Iterates the months this date could be referring to; it must have month precision and
    /// no day. `2021-05` gives one month, `2021-XX` every month of 2021.
    pub fn iter_possible_months(&self) -> (r: Option<MonthIter>)
        ensures
            r == spec_iter_possible_months(*self),
    {
        let start = match self.unspec(false, StepSize::Month) {
            Some(x) => x,
            None => return None,
        };
        let end = match self.unspec(true, StepSize::Month) {
            Some(x) => x,
            None => return None,
        };
        Edtf::Interval(start, end).iter_months()
    }

    /// Starts at this month (for an `XX` month, January) and steps forward by one month
    /// without end.
    pub fn iter_forward_months(&self) -> (r: Option<MonthIter>)
        ensures
            r == spec_iter_forward_months(*self),
    {
        let start = match self.unspec(false, StepSize::Month) {
            Some(x) => x,
            None => return None,
        };
        match start.precision() {
            Precision::Month(y, m) => Some(MonthIter::unbounded((y, m))),
            _ => None,
        }
    }
}

} // verus!
