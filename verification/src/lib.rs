//! Extended Date/Time Format (EDTF), levels 0, 1 and parts of 2.
//!
//! Parsing is strict (everything the specification rejects is an error) and
//! formatting is lossless: a parsed value formats back to the text it came from.
#![allow(unused_imports)]

use vstd::prelude::*;

pub mod calendar;
pub mod text;
pub mod scan;
pub mod common;
pub mod level_0;
pub mod level_1;
pub mod level_2;

verus! {

/// The error type for all the `parse` methods in this crate.
#[derive(Debug, Copy, Clone, PartialEq, Eq, Structural)]
pub enum ParseError {
    /// A field is out of the permitted range.
    OutOfRange,
    /// The input string has some invalid character sequence.
    Invalid,
}


/// The date portion of a [DateTime]: a valid date in the proleptic Gregorian calendar.
#[derive(Debug, Copy, Clone, PartialEq, Eq, Hash, Structural)]
pub struct DateComplete {
    pub(crate) year: i32,
    pub(crate) month: u8,
    pub(crate) day: u8,
}

impl DateComplete {
    /// The year, as a mathematical integer.
    pub open(crate) spec fn spec_year(self) -> i32 {
        self.year
    }

    /// The month, 1..=12.
    pub open(crate) spec fn spec_month(self) -> u8 {
        self.month
    }

    /// The day of the month.
    pub open(crate) spec fn spec_day(self) -> u8 {
        self.day
    }

    /// Every `DateComplete` names a real day.
    #[verifier::type_invariant]
    pub open(crate) spec fn wf(self) -> bool {
        calendar::spec_valid_date(self.year as int, self.month as int, self.day as int)
    }

    /// Create a complete date. Returns None if the date is invalid. There are no limits on the
    /// year.
    pub fn from_ymd_opt(year: i32, month: u32, day: u32) -> (r: Option<Self>)
        ensures
            r is Some <==> calendar::spec_valid_date(year as int, month as int, day as int),
            r matches Some(d) ==> d.spec_year() == year && d.spec_month() == month && d.spec_day() == day,
    {
        if month > 255 || day > 255 {
            return None;
        }
        match calendar::is_valid_complete_date(year, month as u8, day as u8) {
            Ok(d) => Some(d),
            Err(_) => None,
        }
    }

    /// Create a complete date from a valid year-month-day.
    pub fn from_ymd(year: i32, month: u32, day: u32) -> (r: Self)
        requires
            calendar::spec_valid_date(year as int, month as int, day as int),
        ensures
            r.spec_year() == year && r.spec_month() == month && r.spec_day() == day,
    {
        match Self::from_ymd_opt(year, month, day) {
            Some(d) => d,
            None => { proof { assert(false); } DateComplete { year, month: 1, day: 1 } },
        }
    }

    /// Gets the year.
    pub fn year(&self) -> (r: i32)
        ensures r == self.spec_year(),
    {
        self.year
    }

    /// Gets the month, 1..=12.
    pub fn month(&self) -> (r: u32)
        ensures r == self.spec_month(), 1 <= r <= 12,
    {
        proof { use_type_invariant(self); }
        self.month as u32
    }

    /// Gets the day of the month, 1..=31.
    pub fn day(&self) -> (r: u32)
        ensures r == self.spec_day(), 1 <= r <= 31,
    {
        proof { use_type_invariant(self); }
        self.day as u32
    }
}


/// A parsed EDTF time zone.
#[derive(Debug, Copy, Clone, PartialEq, Eq, Hash, Structural)]
pub enum TzOffset {
    /// An EDTF with no time zone information at all.
    Unspecified,
    /// `Z`
    Utc,
    /// `+04`: a number of hours only. Formatted without `:00`, so that parsing and formatting
    /// round-trip.
    Hours(i32),
    /// `+04:30`: a number of minutes offset from UTC.
    Minutes(i32),
}

/// An offset that fits in a day: fewer than 24 hours, or fewer than 24 * 60 minutes.
pub open spec fn tz_in_range(tz: TzOffset) -> bool {
    match tz {
        TzOffset::Hours(h) => -24 < h < 24,
        TzOffset::Minutes(m) => -1440 < m < 1440,
        _ => true,
    }
}

/// A clock time: hours 0..=23, minutes 0..=59, seconds 0..=60 where 60 (a leap second) only
/// follows 23:59.
pub open spec fn valid_clock(hh: int, mm: int, ss: int) -> bool {
    0 <= hh <= 23 && 0 <= mm <= 59 && 0 <= ss <= 60 && (ss == 60 ==> hh == 23 && mm == 59)
}

/// The time portion of a [DateTime].
#[derive(Debug, Copy, Clone, PartialEq, Eq, Hash, Structural)]
pub struct Time {
    pub(crate) hh: u8,
    pub(crate) mm: u8,
    pub(crate) ss: u8,
    pub(crate) tz: TzOffset,
}

impl Time {
    /// Hours 0..=23.
    pub open(crate) spec fn spec_hh(self) -> u8 {
        self.hh
    }

    /// Minutes 0..=59.
    pub open(crate) spec fn spec_mm(self) -> u8 {
        self.mm
    }

    /// Seconds 0..=60.
    pub open(crate) spec fn spec_ss(self) -> u8 {
        self.ss
    }

    /// The time zone.
    pub open(crate) spec fn spec_tz(self) -> TzOffset {
        self.tz
    }

    /// A valid clock time with an offset that fits in a day.
    #[verifier::type_invariant]
    pub open(crate) spec fn wf(self) -> bool {
        valid_clock(self.hh as int, self.mm as int, self.ss as int) && tz_in_range(self.tz)
    }

    /// Create a time. Returns None if it's invalid for any reason.
    pub fn from_hmsz_opt(hh: u32, mm: u32, ss: u32, tz: TzOffset) -> (r: Option<Self>)
        ensures
            r is Some <==> valid_clock(hh as int, mm as int, ss as int) && tz_in_range(tz),
            r matches Some(t) ==> t.spec_hh() == hh && t.spec_mm() == mm && t.spec_ss() == ss
                && t.spec_tz() == tz,
    {
        if hh > 23 || mm > 59 || ss > 60 {
            return None;
        }
        if ss == 60 && !(hh == 23 && mm == 59) {
            return None;
        }
        let ok = match tz {
            TzOffset::Unspecified => true,
            TzOffset::Hours(x) => -24 < x && x < 24,
            TzOffset::Minutes(x) => -1440 < x && x < 1440,
            TzOffset::Utc => true,
        };
        if !ok {
            return None;
        }
        Some(Time { hh: hh as u8, mm: mm as u8, ss: ss as u8, tz })
    }

    /// Create a time from valid parts.
    pub fn from_hmsz(hh: u32, mm: u32, ss: u32, tz: TzOffset) -> (r: Self)
        requires
            valid_clock(hh as int, mm as int, ss as int),
            tz_in_range(tz),
        ensures
            r.spec_hh() == hh && r.spec_mm() == mm && r.spec_ss() == ss && r.spec_tz() == tz,
    {
        match Self::from_hmsz_opt(hh, mm, ss, tz) {
            Some(t) => t,
            None => {
                proof {
                    assert(false);
                }
                Time { hh: 0, mm: 0, ss: 0, tz: TzOffset::Unspecified }
            },
        }
    }

    /// 0..=23
    pub fn hour(&self) -> (r: u32)
        ensures
            r == self.spec_hh(),
            r <= 23,
    {
        proof {
            use_type_invariant(self);
        }
        self.hh as u32
    }

    /// 0..=59
    pub fn minute(&self) -> (r: u32)
        ensures
            r == self.spec_mm(),
            r <= 59,
    {
        proof {
            use_type_invariant(self);
        }
        self.mm as u32
    }

    /// 0..=60 (60 only for a leap second at 23:59).
    pub fn second(&self) -> (r: u32)
        ensures
            r == self.spec_ss(),
            r <= 60,
    {
        proof {
            use_type_invariant(self);
        }
        self.ss as u32
    }

    /// The time zone; [TzOffset::Unspecified] when the timestamp did not give one.
    pub fn offset(&self) -> (r: TzOffset)
        ensures
            r == self.spec_tz(),
    {
        self.tz
    }

    /// The same time at another hour; None when the hour is over 23, or when the time is a
    /// leap second and the new hour is not 23.
    pub fn with_hour(&self, hour: u32) -> (r: Option<Self>)
        ensures
            r is Some <==> valid_clock(hour as int, self.spec_mm() as int, self.spec_ss() as int),
            r matches Some(t) ==> t.spec_hh() == hour && t.spec_mm() == self.spec_mm()
                && t.spec_ss() == self.spec_ss() && t.spec_tz() == self.spec_tz(),
    {
        proof {
            use_type_invariant(self);
        }
        if hour > 23 || (self.ss == 60 && hour != 23) {
            return None;
        }
        Some(Time { hh: hour as u8, ..*self })
    }

    /// The same time at another minute; None when the minute is over 59, or when the time is
    /// a leap second and the new minute is not 59.
    pub fn with_minute(&self, min: u32) -> (r: Option<Self>)
        ensures
            r is Some <==> valid_clock(self.spec_hh() as int, min as int, self.spec_ss() as int),
            r matches Some(t) ==> t.spec_hh() == self.spec_hh() && t.spec_mm() == min
                && t.spec_ss() == self.spec_ss() && t.spec_tz() == self.spec_tz(),
    {
        proof {
            use_type_invariant(self);
        }
        if min > 59 || (self.ss == 60 && min != 59) {
            return None;
        }
        Some(Time { mm: min as u8, ..*self })
    }

    /// The same time at another second; None when the second is over 60, or is 60 (a leap
    /// second) at a time other than 23:59.
    pub fn with_second(&self, sec: u32) -> (r: Option<Self>)
        ensures
            r is Some <==> valid_clock(self.spec_hh() as int, self.spec_mm() as int, sec as int),
            r matches Some(t) ==> t.spec_hh() == self.spec_hh() && t.spec_mm() == self.spec_mm()
                && t.spec_ss() == sec && t.spec_tz() == self.spec_tz(),
    {
        proof {
            use_type_invariant(self);
        }
        if sec > 60 {
            return None;
        }
        if sec == 60 && !(self.hh == 23 && self.mm == 59) {
            return None;
        }
        Some(Time { ss: sec as u8, ..*self })
    }
}

/// A date with a time of day and an optional offset.
#[derive(Debug, Copy, Clone, PartialEq, Eq, Hash, Structural)]
pub struct DateTime {
    pub(crate) date: DateComplete,
    pub(crate) time: Time,
}

impl DateTime {
    /// The date portion.
    pub open(crate) spec fn spec_date(self) -> DateComplete {
        self.date
    }

    /// The time portion.
    pub open(crate) spec fn spec_time(self) -> Time {
        self.time
    }

    /// A timestamp from its date and its time.
    pub fn new(date: DateComplete, time: Time) -> (r: Self)
        ensures
            r.spec_date() == date,
            r.spec_time() == time,
    {
        DateTime { date, time }
    }

    /// Gets the date portion.
    pub fn date(&self) -> (r: DateComplete)
        ensures
            r == self.spec_date(),
    {
        self.date
    }

    /// Gets the time portion.
    pub fn time(&self) -> (r: Time)
        ensures
            r == self.spec_time(),
    {
        self.time
    }

    /// The same timestamp on another date.
    pub fn with_date(&self, date: DateComplete) -> (r: Self)
        ensures
            r.spec_date() == date,
            r.spec_time() == self.spec_time(),
    {
        DateTime { date, time: self.time }
    }

    /// The same timestamp at another time.
    pub fn with_time(&self, time: Time) -> (r: Self)
        ensures
            r.spec_date() == self.spec_date(),
            r.spec_time() == time,
    {
        DateTime { date: self.date, time }
    }

    /// Gets the time zone; [TzOffset::Unspecified] when the timestamp did not give one.
    pub fn offset(&self) -> (r: TzOffset)
        ensures
            r == self.spec_time().spec_tz(),
    {
        self.time.offset()
    }
}

/// A source of time zone information (for example a date-time value of another library).
pub trait GetTimezone {
    /// The time zone of the value: [TzOffset::Unspecified] for none, [TzOffset::Utc] for `Z`,
    /// [TzOffset::Hours] for `+01`, [TzOffset::Minutes] for `-04:30`.
    fn tz_offset(&self) -> TzOffset;
}

} // verus!
