//! Stepping through years, months and days: the next and previous one, and the facts that
//! make iterating by these steps visit every value in a range exactly once.

use vstd::prelude::*;

use crate::calendar::{days_in_month, spec_days_in_month, spec_valid_date};

verus! {

/// The next value `step` further, or None outside `i32`.
pub open spec fn step_succ(v: int, step: int) -> Option<int> {
    if i32::MIN <= v + step <= i32::MAX {
        Some(v + step)
    } else {
        None
    }
}

/// The value `step` back, or None outside `i32`.
pub open spec fn step_pred(v: int, step: int) -> Option<int> {
    if i32::MIN <= v - step <= i32::MAX {
        Some(v - step)
    } else {
        None
    }
}

/// The month after `(y, m)`: December is followed by January of the next year.
pub open spec fn month_succ(y: int, m: int) -> Option<(int, int)> {
    if m >= 12 {
        if y + 1 > i32::MAX {
            None
        } else {
            Some((y + 1, 1))
        }
    } else {
        Some((y, m + 1))
    }
}

/// The month before `(y, m)`: January is preceded by December of the previous year.
pub open spec fn month_pred(y: int, m: int) -> Option<(int, int)> {
    if m <= 1 {
        if y - 1 < i32::MIN {
            None
        } else {
            Some((y - 1, 12))
        }
    } else {
        Some((y, m - 1))
    }
}

/// The day after `(y, m, d)`.
pub open spec fn day_succ(y: int, m: int, d: int) -> Option<(int, int, int)> {
    if d >= spec_days_in_month(y, m) {
        match month_succ(y, m) {
            Some((y2, m2)) => Some((y2, m2, 1)),
            None => None,
        }
    } else {
        Some((y, m, d + 1))
    }
}

/// The day before `(y, m, d)`.
pub open spec fn day_pred(y: int, m: int, d: int) -> Option<(int, int, int)> {
    if d <= 1 {
        if m <= 1 {
            if y - 1 < i32::MIN {
                None
            } else {
                Some((y - 1, 12, 31))
            }
        } else {
            Some((y, m - 1, spec_days_in_month(y, m - 1)))
        }
    } else {
        Some((y, m, d - 1))
    }
}

/// Year-month pairs in order.
pub open spec fn ym_lt(a: (int, int), b: (int, int)) -> bool {
    a.0 < b.0 || (a.0 == b.0 && a.1 < b.1)
}

/// Year-month-day triples in order.
pub open spec fn ymd_lt(a: (int, int, int), b: (int, int, int)) -> bool {
    a.0 < b.0 || (a.0 == b.0 && (a.1 < b.1 || (a.1 == b.1 && a.2 < b.2)))
}

/// A month of a year in `i32`.
pub open spec fn valid_ym(y: int, m: int) -> bool {
    i32::MIN <= y <= i32::MAX && 1 <= m <= 12
}

/// A real day of a year in `i32`.
pub open spec fn valid_ymd(y: int, m: int, d: int) -> bool {
    i32::MIN <= y <= i32::MAX && spec_valid_date(y, m, d)
}

/// The next month is a month, comes after, and no month lies between; the previous month
/// of the next month is the month itself.
pub proof fn lemma_month_succ(y: int, m: int)
    requires
        valid_ym(y, m),
    ensures
        month_succ(y, m) matches Some(n) ==> valid_ym(n.0, n.1) && ym_lt((y, m), n)
            && month_pred(n.0, n.1) == Some((y, m)),
        month_succ(y, m) matches Some(n) ==> forall|z: (int, int)|
            valid_ym(z.0, z.1) && ym_lt((y, m), z) ==> !ym_lt(z, n),
        month_succ(y, m) is None ==> y == i32::MAX && m == 12,
{
}

/// The previous month is a month, comes before, and no month lies between; the next month
/// of the previous month is the month itself.
pub proof fn lemma_month_pred(y: int, m: int)
    requires
        valid_ym(y, m),
    ensures
        month_pred(y, m) matches Some(p) ==> valid_ym(p.0, p.1) && ym_lt(p, (y, m))
            && month_succ(p.0, p.1) == Some((y, m)),
        month_pred(y, m) matches Some(p) ==> forall|z: (int, int)|
            valid_ym(z.0, z.1) && ym_lt(z, (y, m)) ==> !ym_lt(p, z),
        month_pred(y, m) is None ==> y == i32::MIN && m == 1,
{
}

/// The next day is a real day, comes after, and no real day lies between; the previous day
/// of the next day is the day itself.
pub proof fn lemma_day_succ(y: int, m: int, d: int)
    requires
        valid_ymd(y, m, d),
    ensures
        day_succ(y, m, d) matches Some(n) ==> valid_ymd(n.0, n.1, n.2) && ymd_lt((y, m, d), n)
            && day_pred(n.0, n.1, n.2) == Some((y, m, d)),
        day_succ(y, m, d) matches Some(n) ==> forall|z: (int, int, int)|
            valid_ymd(z.0, z.1, z.2) && ymd_lt((y, m, d), z) ==> !ymd_lt(z, n),
        day_succ(y, m, d) is None ==> y == i32::MAX && m == 12 && d == 31,
{
}

/// The previous day is a real day, comes before, and no real day lies between; the next day
/// of the previous day is the day itself.
pub proof fn lemma_day_pred(y: int, m: int, d: int)
    requires
        valid_ymd(y, m, d),
    ensures
        day_pred(y, m, d) matches Some(p) ==> valid_ymd(p.0, p.1, p.2) && ymd_lt(p, (y, m, d))
            && day_succ(p.0, p.1, p.2) == Some((y, m, d)),
        day_pred(y, m, d) matches Some(p) ==> forall|z: (int, int, int)|
            valid_ymd(z.0, z.1, z.2) && ymd_lt(z, (y, m, d)) ==> !ymd_lt(p, z),
        day_pred(y, m, d) is None ==> y == i32::MIN && m == 1 && d == 1,
{
}

/// The next value `step` further.
pub fn next_step(v: i32, step: i32) -> (r: Option<i32>)
    ensures
        match step_succ(v as int, step as int) {
            Some(x) => r == Some(x as i32),
            None => r is None,
        },
{
    v.checked_add(step)
}

/// The value `step` back.
pub fn prev_step(v: i32, step: i32) -> (r: Option<i32>)
    ensures
        match step_pred(v as int, step as int) {
            Some(x) => r == Some(x as i32),
            None => r is None,
        },
{
    v.checked_sub(step)
}

/// The month after `(y, m)`.
pub fn next_month(y: i32, m: u32) -> (r: Option<(i32, u32)>)
    ensures
        match month_succ(y as int, m as int) {
            Some((a, b)) => r == Some((a as i32, b as u32)),
            None => r is None,
        },
{
    if m >= 12 {
        match y.checked_add(1) {
            Some(y2) => Some((y2, 1)),
            None => None,
        }
    } else {
        Some((y, m + 1))
    }
}

/// The month before `(y, m)`.
pub fn prev_month(y: i32, m: u32) -> (r: Option<(i32, u32)>)
    ensures
        match month_pred(y as int, m as int) {
            Some((a, b)) => r == Some((a as i32, b as u32)),
            None => r is None,
        },
{
    if m <= 1 {
        match y.checked_sub(1) {
            Some(y2) => Some((y2, 12)),
            None => None,
        }
    } else {
        Some((y, m - 1))
    }
}

/// The day after a real day.
pub fn next_day(y: i32, m: u32, d: u32) -> (r: Option<(i32, u32, u32)>)
    requires
        spec_valid_date(y as int, m as int, d as int),
    ensures
        match day_succ(y as int, m as int, d as int) {
            Some((a, b, c)) => r == Some((a as i32, b as u32, c as u32)),
            None => r is None,
        },
{
    let n = days_in_month(y, m as u8) as u32;
    if d >= n {
        match next_month(y, m) {
            Some((y2, m2)) => Some((y2, m2, 1)),
            None => None,
        }
    } else {
        Some((y, m, d + 1))
    }
}

/// The day before a real day.
pub fn prev_day(y: i32, m: u32, d: u32) -> (r: Option<(i32, u32, u32)>)
    requires
        spec_valid_date(y as int, m as int, d as int),
    ensures
        match day_pred(y as int, m as int, d as int) {
            Some((a, b, c)) => r == Some((a as i32, b as u32, c as u32)),
            None => r is None,
        },
{
    if d <= 1 {
        if m <= 1 {
            match y.checked_sub(1) {
                Some(y2) => Some((y2, 12, 31)),
                None => None,
            }
        } else {
            let n = days_in_month(y, (m - 1) as u8) as u32;
            Some((y, m - 1, n))
        }
    } else {
        Some((y, m, d - 1))
    }
}

} // verus!
