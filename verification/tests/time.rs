use edtf::{DateComplete, DateTime, Time, TzOffset};

#[test]
fn time_setters_check_ranges() {
    let t = Time::from_hmsz(19, 7, 56, TzOffset::Hours(4));
    let h = t.with_hour(5).unwrap();
    assert_eq!((h.hour(), h.minute(), h.second(), h.offset()), (5, 7, 56, TzOffset::Hours(4)));
    assert_eq!(t.with_hour(24), None);
    assert_eq!(t.with_minute(59).unwrap().minute(), 59);
    assert_eq!(t.with_minute(60), None);
    assert_eq!(t.with_second(0).unwrap().second(), 0);
    assert_eq!(t.with_second(61), None);
    // a leap second only at 23:59
    assert_eq!(t.with_second(60), None);
    let late = Time::from_hmsz(23, 59, 0, TzOffset::Utc);
    let leap = late.with_second(60).unwrap();
    assert_eq!(leap.second(), 60);
    assert_eq!(leap.with_hour(22), None);
    assert_eq!(leap.with_minute(58), None);
    assert_eq!(leap.with_hour(23), Some(leap));
}

#[test]
fn datetime_from_parts() {
    let d = DateComplete::from_ymd(2019, 8, 7);
    let t = Time::from_hmsz(19, 7, 56, TzOffset::Hours(4));
    let dt = DateTime::new(d, t);
    assert_eq!(dt.date(), d);
    assert_eq!(dt.time(), t);
    assert_eq!(dt.offset(), TzOffset::Hours(4));
    let other = DateComplete::from_ymd(2020, 2, 29);
    assert_eq!(dt.with_date(other).date(), other);
    assert_eq!(dt.with_date(other).time(), t);
}
