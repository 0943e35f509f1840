//! Sort orders: placing level 1 values on a time line by their start and end points.
//!
//! `Edtf` has no order of its own, because its equality tells apart e.g. `2010-08-12` and
//! `2010-08-12T00:00:00Z`. These orders convert timestamps to UTC (a timestamp without time
//! zone is taken to be UTC) and compare points in time.

use vstd::prelude::*;
use vstd::std_specs::cmp::PartialEqSpecImpl;

use core::cmp::Ordering;

use crate::DateTime;
use super::{Certainty, Date, Edtf};
use super::sort_key::{
    convertible, certainty_rank, date_lt, point_lt, timestamp_utc, yyear_position, Infinite,
};

verus! {

/// A value that the sort orders can place: any but a timestamp chrono cannot convert.
pub open(crate) spec fn sortable(e: Edtf) -> bool {
    match e {
        Edtf::DateTime(dt) => convertible(dt),
        _ => true,
    }
}

/// The point of the time line a level 1 date starts at: the date at midnight.
pub open(crate) spec fn at_midnight(d: Date) -> Infinite {
    Infinite::Value(d, 0)
}

/// The start point of a level 1 value; an open or unknown start lies before everything.
pub open(crate) spec fn spec_start(e: Edtf) -> Infinite {
    match e {
        Edtf::Date(d) => at_midnight(d),
        Edtf::Interval(d, _) => at_midnight(d),
        Edtf::IntervalFrom(d, _) => at_midnight(d),
        Edtf::IntervalTo(_, _) => Infinite::NegativeInfinity,
        Edtf::DateTime(dt) => timestamp_utc(dt),
        Edtf::YYear(y) => yyear_position(y.spec_value()),
    }
}

/// The end point of a level 1 value; an open or unknown end lies after everything.
pub open(crate) spec fn spec_end(e: Edtf) -> Infinite {
    match e {
        Edtf::Interval(_, d) => at_midnight(d),
        Edtf::IntervalFrom(_, _) => Infinite::Infinity,
        Edtf::IntervalTo(_, d) => at_midnight(d),
        _ => spec_start(e),
    }
}

/// Two points compared.
pub open(crate) spec fn points_order(a: Infinite, b: Infinite) -> Ordering {
    if point_lt(a, b) {
        Ordering::Less
    } else if point_lt(b, a) {
        Ordering::Greater
    } else {
        Ordering::Equal
    }
}

/// Two values compared by their start points, and then by their end points.
pub open(crate) spec fn edtf_order(a: Edtf, b: Edtf) -> Ordering {
    match points_order(spec_start(a), spec_start(b)) {
        Ordering::Equal => points_order(spec_end(a), spec_end(b)),
        o => o,
    }
}

/// Certainties in the order they are declared.
fn certainty_order(a: Certainty, b: Certainty) -> (r: Ordering)
    ensures
        (r == Ordering::Less) == (certainty_rank(a) < certainty_rank(b)),
        (r == Ordering::Greater) == (certainty_rank(a) > certainty_rank(b)),
{
    let ra = super::sort_key::rank_of(a);
    let rb = super::sort_key::rank_of(b);
    if ra < rb {
        Ordering::Less
    } else if ra > rb {
        Ordering::Greater
    } else {
        Ordering::Equal
    }
}

/// Two dates compared by their packed parts: year with its flags, month, day, certainty.
fn compare_dates(a: &Date, b: &Date) -> (r: Ordering)
    ensures
        (r == Ordering::Less) == date_lt(*a, *b),
        (r == Ordering::Greater) == date_lt(*b, *a),
{
    if a.year.0 < b.year.0 {
        return Ordering::Less;
    }
    if a.year.0 > b.year.0 {
        return Ordering::Greater;
    }
    if a.month < b.month {
        return Ordering::Less;
    }
    if a.month > b.month {
        return Ordering::Greater;
    }
    if a.day < b.day {
        return Ordering::Less;
    }
    if a.day > b.day {
        return Ordering::Greater;
    }
    certainty_order(a.certainty, b.certainty)
}

/// Two points of the time line compared.
pub fn compare_points(a: &Infinite, b: &Infinite) -> (r: Ordering)
    ensures
        r == points_order(*a, *b),
{
    let ra = super::sort_key::point_rank(a);
    let rb = super::sort_key::point_rank(b);
    if ra < rb {
        return Ordering::Less;
    }
    if ra > rb {
        return Ordering::Greater;
    }
    match (a, b) {
        (Infinite::YYearNegative(x), Infinite::YYearNegative(y)) => if *x < *y {
            Ordering::Less
        } else if *x > *y {
            Ordering::Greater
        } else {
            Ordering::Equal
        },
        (Infinite::YYearPositive(x), Infinite::YYearPositive(y)) => if *x < *y {
            Ordering::Less
        } else if *x > *y {
            Ordering::Greater
        } else {
            Ordering::Equal
        },
        (Infinite::Value(d1, t1), Infinite::Value(d2, t2)) => match compare_dates(d1, d2) {
            Ordering::Equal => if *t1 < *t2 {
                Ordering::Less
            } else if *t1 > *t2 {
                Ordering::Greater
            } else {
                Ordering::Equal
            },
            o => o,
        },
        _ => Ordering::Equal,
    }
}

/// The start point of a level 1 value.
pub fn edtf_start_date(e: &Edtf) -> (r: Infinite)
    requires
        sortable(*e),
    ensures
        r == spec_start(*e),
{
    match e {
        Edtf::Date(d) => Infinite::Value(*d, 0),
        Edtf::Interval(d, _) => Infinite::Value(*d, 0),
        Edtf::IntervalFrom(d, _) => Infinite::Value(*d, 0),
        Edtf::IntervalTo(_, _) => Infinite::NegativeInfinity,
        Edtf::DateTime(dt) => super::sort_key::utc_point(dt),
        Edtf::YYear(y) => super::sort_key::yyear_point(y.value()),
    }
}

/// The end point of a level 1 value.
pub fn edtf_end_date(e: &Edtf) -> (r: Infinite)
    requires
        sortable(*e),
    ensures
        r == spec_end(*e),
{
    match e {
        Edtf::Interval(_, d) => Infinite::Value(*d, 0),
        Edtf::IntervalFrom(_, _) => Infinite::Infinity,
        Edtf::IntervalTo(_, d) => Infinite::Value(*d, 0),
        _ => edtf_start_date(e),
    }
}

/// Compares two level 1 values by start point, breaking ties by end point.
pub fn sort_order(a: &Edtf, b: &Edtf) -> (r: Ordering)
    requires
        sortable(*a),
        sortable(*b),
    ensures
        r == edtf_order(*a, *b),
{
    let sa = edtf_start_date(a);
    let sb = edtf_start_date(b);
    match compare_points(&sa, &sb) {
        Ordering::Equal => {
            let ea = edtf_end_date(a);
            let eb = edtf_end_date(b);
            compare_points(&ea, &eb)
        },
        o => o,
    }
}

/// A value ordered by its start point, then its end point; see [Edtf::sort_order]. Two
/// values are equal in this order when they start and end at the same points, e.g.
/// `2010-08-12` and `2010-08-12T00:00:00Z`.
#[derive(Clone, Copy, Eq)]
pub struct SortOrder(pub(crate) Edtf);

impl PartialEq for SortOrder {
    fn eq(&self, other: &Self) -> (r: bool) {
        proof {
            use_type_invariant(self);
            use_type_invariant(other);
        }
        match sort_order(&self.0, &other.0) {
            Ordering::Equal => true,
            _ => false,
        }
    }
}

impl PartialEqSpecImpl for SortOrder {
    open spec fn obeys_eq_spec() -> bool {
        true
    }

    open spec fn eq_spec(&self, other: &SortOrder) -> bool {
        edtf_order(self.spec_edtf(), other.spec_edtf()) == Ordering::Equal
    }
}

/// A value's start point, for sorting by start; see [Edtf::sort_order_start].
#[derive(Clone, Copy, PartialEq, Eq, PartialOrd, Ord, Hash)]
pub struct SortOrderStart(pub(crate) Infinite);

/// A value's end point, for sorting by end; see [Edtf::sort_order_end].
#[derive(Clone, Copy, PartialEq, Eq, PartialOrd, Ord, Hash)]
pub struct SortOrderEnd(pub(crate) Infinite);

impl SortOrderStart {
    /// The start point.
    pub open(crate) spec fn point(self) -> Infinite {
        self.0
    }

    /// Compares two start points on the time line.
    pub fn compare(&self, other: &SortOrderStart) -> (r: Ordering)
        ensures
            r == points_order(self.point(), other.point()),
    {
        compare_points(&self.0, &other.0)
    }
}

impl SortOrderEnd {
    /// The end point.
    pub open(crate) spec fn point(self) -> Infinite {
        self.0
    }

    /// Compares two end points on the time line.
    pub fn compare(&self, other: &SortOrderEnd) -> (r: Ordering)
        ensures
            r == points_order(self.point(), other.point()),
    {
        compare_points(&self.0, &other.0)
    }
}

impl SortOrder {
    /// The value this sorts.
    pub open(crate) spec fn spec_edtf(self) -> Edtf {
        self.0
    }

    /// Only values the orders can place are sorted.
    #[verifier::type_invariant]
    pub open(crate) spec fn wf(self) -> bool {
        sortable(self.0)
    }

    /// Compares by start point, then end point.
    pub fn compare(&self, other: &SortOrder) -> (r: Ordering)
        ensures
            r == edtf_order(self.spec_edtf(), other.spec_edtf()),
    {
        proof {
            use_type_invariant(self);
            use_type_invariant(other);
        }
        sort_order(&self.0, &other.0)
    }
}

impl Edtf {
    /// A value sortable by start point, with ties broken by end point.
    pub fn sort_order(&self) -> (r: SortOrder)
        requires
            sortable(*self),
        ensures
            r.spec_edtf() == *self,
    {
        SortOrder(*self)
    }

    /// The start point, for sorting; an open or unknown start lies before everything.
    pub fn sort_order_start(&self) -> (r: SortOrderStart)
        requires
            sortable(*self),
        ensures
            r.point() == spec_start(*self),
    {
        SortOrderStart(edtf_start_date(self))
    }

    /// The end point, for sorting; an open or unknown end lies after everything.
    pub fn sort_order_end(&self) -> (r: SortOrderEnd)
        requires
            sortable(*self),
        ensures
            r.point() == spec_end(*self),
    {
        SortOrderEnd(edtf_end_date(self))
    }
}

/// Points are strictly and totally ordered: never before themselves, never both before and
/// after another point, before-after chains compose, and two points neither before nor after
/// each other are the same.
pub proof fn lemma_points_total(a: Infinite, b: Infinite, c: Infinite)
    ensures
        !point_lt(a, a),
        point_lt(a, b) ==> !point_lt(b, a),
        point_lt(a, b) && point_lt(b, c) ==> point_lt(a, c),
        !point_lt(a, b) && !point_lt(b, a) ==> a == b,
{
    if let (Infinite::Value(d1, _), Infinite::Value(d2, _)) = (a, b) {
        if !date_lt(d1, d2) && !date_lt(d2, d1) {
            assert(d1.certainty == d2.certainty);
            assert(d1.year == d2.year);
        }
    }
}

/// The sort order is a total order: every value is equal to itself, comparing the other way
/// round reverses the result, and `Less` composes. Values compare `Equal` exactly when their
/// start points and end points are the same.
pub proof fn lemma_sort_order_total(a: Edtf, b: Edtf, c: Edtf)
    ensures
        edtf_order(a, a) == Ordering::Equal,
        (edtf_order(a, b) == Ordering::Less) == (edtf_order(b, a) == Ordering::Greater),
        (edtf_order(a, b) == Ordering::Equal) == (spec_start(a) == spec_start(b) && spec_end(a)
            == spec_end(b)),
        edtf_order(a, b) == Ordering::Less && edtf_order(b, c) == Ordering::Less ==> edtf_order(a, c)
            == Ordering::Less,
{
    lemma_points_total(spec_start(a), spec_start(b), spec_start(c));
    lemma_points_total(spec_start(b), spec_start(a), spec_start(c));
    lemma_points_total(spec_start(a), spec_start(c), spec_start(b));
    lemma_points_total(spec_end(a), spec_end(b), spec_end(c));
    lemma_points_total(spec_end(b), spec_end(a), spec_end(c));
    lemma_points_total(spec_end(a), spec_end(c), spec_end(b));
}

} // verus!

verus! {

/// A timestamp at midnight UTC (or at midnight without a time zone, which counts as UTC)
/// sorts equal to its date: `2010-08-12T00:00:00Z` and `2010-08-12` take the same place.
pub proof fn lemma_midnight_sorts_with_date(dt: DateTime, d: Date)
    requires
        convertible(dt),
        dt.spec_time().spec_hh() == 0,
        dt.spec_time().spec_mm() == 0,
        dt.spec_time().spec_ss() == 0,
        super::sort_key::offset_seconds(dt.spec_time().spec_tz()) == 0,
        super::sort_key::timestamp_date(dt) == Some(d),
    ensures
        edtf_order(Edtf::DateTime(dt), Edtf::Date(d)) == Ordering::Equal,
{
    assert(timestamp_utc(dt) == at_midnight(d));
    lemma_points_total(at_midnight(d), at_midnight(d), at_midnight(d));
}

} // verus!
