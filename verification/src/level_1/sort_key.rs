//! Points of the time line that level 1 values are sorted by, and the conversion of
//! timestamps to UTC that places them.

use vstd::prelude::*;

use crate::calendar::spec_valid_date;
use crate::{DateTime, TzOffset};
use super::basic::{validated, ymd_written};
use super::iter::incrementable::{day_pred, day_succ};
use super::packed::year_range_ok;
use super::{Certainty, Date};

verus! {

/// A point of the time line: before everything, a `Y`-year too early for a date, a date with
/// a number of seconds after midnight, a `Y`-year too late for a date, after everything.
#[derive(Debug, Clone, Copy, PartialEq, Eq, PartialOrd, Ord, Hash, Structural)]
pub enum Infinite {
    NegativeInfinity,
    YYearNegative(i64),
    Value(Date, u32),
    YYearPositive(i64),
    Infinity,
}

/// The rank of a certainty, in the order they are declared.
pub open spec fn certainty_rank(c: Certainty) -> int {
    match c {
        Certainty::Certain => 0,
        Certainty::Uncertain => 1,
        Certainty::Approximate => 2,
        Certainty::ApproximateUncertain => 3,
    }
}

/// The rank of a certainty.
pub fn rank_of(c: Certainty) -> (r: u8)
    ensures
        r == certainty_rank(c),
{
    match c {
        Certainty::Certain => 0,
        Certainty::Uncertain => 1,
        Certainty::Approximate => 2,
        Certainty::ApproximateUncertain => 3,
    }
}

/// The rank of the kind of a point, in the order the kinds are declared.
pub open spec fn rank_of_point(p: Infinite) -> int {
    match p {
        Infinite::NegativeInfinity => 0,
        Infinite::YYearNegative(_) => 1,
        Infinite::Value(_, _) => 2,
        Infinite::YYearPositive(_) => 3,
        Infinite::Infinity => 4,
    }
}

/// The rank of the kind of a point.
pub fn point_rank(p: &Infinite) -> (r: u8)
    ensures
        r == rank_of_point(*p),
{
    match p {
        Infinite::NegativeInfinity => 0,
        Infinite::YYearNegative(_) => 1,
        Infinite::Value(_, _) => 2,
        Infinite::YYearPositive(_) => 3,
        Infinite::Infinity => 4,
    }
}

/// Dates in the order of their packed parts: the year with its flags, the month byte, the
/// day byte, the certainty.
pub open(crate) spec fn date_lt(a: Date, b: Date) -> bool {
    if a.year.0 != b.year.0 {
        a.year.0 < b.year.0
    } else if a.month != b.month {
        a.month < b.month
    } else if a.day != b.day {
        a.day < b.day
    } else {
        certainty_rank(a.certainty) < certainty_rank(b.certainty)
    }
}

/// Points in order: by kind, then by year, or by date and then seconds.
pub open(crate) spec fn point_lt(a: Infinite, b: Infinite) -> bool {
    if rank_of_point(a) != rank_of_point(b) {
        rank_of_point(a) < rank_of_point(b)
    } else {
        match (a, b) {
            (Infinite::YYearNegative(x), Infinite::YYearNegative(y)) => x < y,
            (Infinite::YYearPositive(x), Infinite::YYearPositive(y)) => x < y,
            (Infinite::Value(d1, t1), Infinite::Value(d2, t2)) => date_lt(d1, d2) || (d1 == d2
                && t1 < t2),
            _ => false,
        }
    }
}

/// A local date and time with an offset east of UTC in seconds, converted to UTC: the time
/// of day less the offset, moved into the previous or next day when it leaves the day. Gives
/// the year, month, day and seconds after midnight.
pub open(crate) spec fn utc_of_local(
    y: int,
    m: int,
    d: int,
    hh: int,
    mm: int,
    ss: int,
    offset: int,
) -> (int, int, int, int) {
    let u = hh * 3600 + mm * 60 + ss - offset;
    if u < 0 {
        let p = day_pred(y, m, d)->0;
        (p.0, p.1, p.2, u + 86400)
    } else if u >= 86400 {
        let n = day_succ(y, m, d)->0;
        (n.0, n.1, n.2, u - 86400)
    } else {
        (y, m, d, u)
    }
}

#[verifier::external_body]
fn utc_of(y: i32, m: u32, d: u32, hh: u32, mm: u32, ss: u32, offset: i32) -> (r: (i32, u32, u32, u32))
    requires
        spec_valid_date(y as int, m as int, d as int),
        -262142 <= y <= 262141,
        hh < 24,
        mm < 60,
        ss < 60,
        -86400 < offset < 86400,
    ensures
        (r.0 as int, r.1 as int, r.2 as int, r.3 as int) == utc_of_local(
            y as int,
            m as int,
            d as int,
            hh as int,
            mm as int,
            ss as int,
            offset as int,
        ),
        spec_valid_date(r.0 as int, r.1 as int, r.2 as int),
        -262143 <= r.0 <= 262142,
        r.3 < 86400,
{
    let tz = chrono::FixedOffset::east_opt(offset).unwrap();
    let local = chrono::NaiveDate::from_ymd_opt(y, m, d).unwrap().and_hms_opt(hh, mm, ss).unwrap();
    let utc = chrono::TimeZone::from_local_datetime(&tz, &local).unwrap().naive_utc();
    (
        chrono::Datelike::year(&utc),
        chrono::Datelike::month(&utc),
        chrono::Datelike::day(&utc),
        chrono::Timelike::num_seconds_from_midnight(&utc),
    )
}

/// The offset of a time zone east of UTC in seconds; none is UTC.
pub open(crate) spec fn offset_seconds(tz: TzOffset) -> int {
    match tz {
        TzOffset::Unspecified => 0,
        TzOffset::Utc => 0,
        TzOffset::Hours(h) => h * 3600,
        TzOffset::Minutes(m) => m * 60,
    }
}

/// The level 1 date of a timestamp's local date.
pub open(crate) spec fn timestamp_date(dt: DateTime) -> Option<Date> {
    validated(ymd_written(dt.date.year, dt.date.month as u32, dt.date.day as u32))
}

/// The point of a timestamp: its UTC date at its UTC seconds after midnight.
pub open(crate) spec fn timestamp_utc(dt: DateTime) -> Infinite {
    let u = utc_of_local(
        dt.date.year as int,
        dt.date.month as int,
        dt.date.day as int,
        dt.time.hh as int,
        dt.time.mm as int,
        dt.time.ss as int,
        offset_seconds(dt.time.tz),
    );
    Infinite::Value(validated(ymd_written(u.0 as i32, u.1 as u32, u.2 as u32))->0, u.3 as u32)
}

/// The point of a UTC date and seconds after midnight.
pub fn utc_value(y: i32, m: u32, d: u32, secs: u32) -> (r: Infinite)
    requires
        spec_valid_date(y as int, m as int, d as int),
        year_range_ok(y as int),
    ensures
        r == Infinite::Value(validated(ymd_written(y, m, d))->0, secs),
{
    Infinite::Value(Date::from_ymd(y, m, d), secs)
}

/// A timestamp whose time chrono can convert: not a leap second, and a year well inside
/// chrono's calendar.
pub open(crate) spec fn convertible(dt: DateTime) -> bool {
    dt.time.ss < 60 && -262142 <= dt.date.year <= 262141
}

/// The point of a timestamp, converted to UTC.
pub fn utc_point(dt: &DateTime) -> (r: Infinite)
    requires
        convertible(*dt),
    ensures
        r == timestamp_utc(*dt),
{
    proof {
        use_type_invariant(dt.date);
        use_type_invariant(dt.time);
    }
    let offset: i32 = match dt.time.tz {
        TzOffset::Unspecified => 0,
        TzOffset::Utc => 0,
        TzOffset::Hours(h) => h * 3600,
        TzOffset::Minutes(m) => m * 60,
    };
    let (y, m, d, s) = utc_of(
        dt.date.year,
        dt.date.month as u32,
        dt.date.day as u32,
        dt.time.hh as u32,
        dt.time.mm as u32,
        dt.time.ss as u32,
        offset,
    );
    utc_value(y, m, d, s)
}

/// Where a `Y`-year lies: before or after all dates when its year does not fit a date, else
/// at that year.
pub open(crate) spec fn yyear_position(v: i64) -> Infinite {
    if v < i32::MIN || (v <= i32::MAX && !year_range_ok(v as int) && v < 0) {
        Infinite::YYearNegative(v)
    } else if v > i32::MAX || !year_range_ok(v as int) {
        Infinite::YYearPositive(v)
    } else {
        Infinite::Value(validated(ymd_written(v as i32, 0, 0))->0, 0)
    }
}

/// The point of a `Y`-year.
pub fn yyear_point(v: i64) -> (r: Infinite)
    ensures
        r == yyear_position(v),
{
    if v < -2147483648 {
        return Infinite::YYearNegative(v);
    }
    if v > 2147483647 {
        return Infinite::YYearPositive(v);
    }
    let v32 = v as i32;
    if !Date::year_in_range(v32) {
        if v32 < 0 {
            Infinite::YYearNegative(v)
        } else {
            Infinite::YYearPositive(v)
        }
    } else {
        Infinite::Value(Date::from_ymd(v32, 0, 0), 0)
    }
}

} // verus!

verus! {

/// Seconds after midnight of a clock time.
pub open(crate) spec fn clock_seconds(t: crate::Time) -> int {
    t.hh * 3600 + t.mm * 60 + t.ss
}

/// A timestamp in UTC, or without a time zone (taken as UTC), lies at its own date and
/// clock time.
pub proof fn lemma_utc_timestamp_point(a: DateTime)
    requires
        convertible(a),
        a.spec_time().spec_tz() == TzOffset::Utc || a.spec_time().spec_tz() == TzOffset::Unspecified,
        crate::valid_clock(
            a.spec_time().spec_hh() as int,
            a.spec_time().spec_mm() as int,
            a.spec_time().spec_ss() as int,
        ),
    ensures
        timestamp_utc(a) == Infinite::Value(
            timestamp_date(a)->0,
            clock_seconds(a.spec_time()) as u32,
        ),
{
}

/// An offset east of UTC moves a timestamp back by that much: `+04` (`Hours(4)`) by four
/// hours and `+04:30` (`Minutes(270)`) by 270 minutes. A timestamp `a` with an offset lies
/// at the same point as the UTC timestamp `b` whose clock is `a`'s less the offset, on the
/// same day, or on the day before or after when the shift leaves `a`'s day.
pub proof fn lemma_offset_shifts_point(a: DateTime, b: DateTime)
    requires
        convertible(a),
        convertible(b),
        b.spec_time().spec_tz() == TzOffset::Utc,
        a.spec_date().wf(),
        b.spec_date().wf(),
        crate::valid_clock(
            b.spec_time().spec_hh() as int,
            b.spec_time().spec_mm() as int,
            b.spec_time().spec_ss() as int,
        ),
        ({
            let ta = a.spec_time();
            let shifted = match ta.spec_tz() {
                TzOffset::Hours(h) => clock_seconds(ta) - 3600 * h,
                TzOffset::Minutes(m) => clock_seconds(ta) - 60 * m,
                _ => clock_seconds(ta),
            };
            let da = a.spec_date();
            let db = b.spec_date();
            let ad = (da.spec_year() as int, da.spec_month() as int, da.spec_day() as int);
            let bd = (db.spec_year() as int, db.spec_month() as int, db.spec_day() as int);
            ||| (bd == ad && clock_seconds(b.spec_time()) == shifted)
            ||| (day_succ(bd.0, bd.1, bd.2) == Some(ad) && clock_seconds(b.spec_time())
                == shifted + 86400)
            ||| (day_pred(bd.0, bd.1, bd.2) == Some(ad) && clock_seconds(b.spec_time())
                == shifted - 86400)
        }),
    ensures
        timestamp_utc(a) == timestamp_utc(b),
{
    let da = a.date;
    let db = b.date;
    super::iter::incrementable::lemma_day_succ(db.year as int, db.month as int, db.day as int);
    super::iter::incrementable::lemma_day_pred(db.year as int, db.month as int, db.day as int);
}

} // verus!
