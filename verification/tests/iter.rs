use edtf::level_1::iter::{CenturyIter, DayIter, DecadeIter, MonthIter, YearIter};
use edtf::level_1::iter::interval::SmallestStep;
use edtf::level_1::{Date, Edtf};
use edtf::DateComplete;

fn centuries(mut it: CenturyIter) -> Vec<i32> {
    let mut v = Vec::new();
    while let Some(x) = it.next() {
        v.push(x);
    }
    v
}

fn centuries_rev(mut it: CenturyIter) -> Vec<i32> {
    let mut v = Vec::new();
    while let Some(x) = it.next_back() {
        v.push(x);
    }
    v
}

fn decades(mut it: DecadeIter) -> Vec<i32> {
    let mut v = Vec::new();
    while let Some(x) = it.next() {
        v.push(x);
    }
    v
}

fn decades_rev(mut it: DecadeIter) -> Vec<i32> {
    let mut v = Vec::new();
    while let Some(x) = it.next_back() {
        v.push(x);
    }
    v
}

fn years(mut it: YearIter) -> Vec<i32> {
    let mut v = Vec::new();
    while let Some(x) = it.next() {
        v.push(x);
    }
    v
}

fn years_rev(mut it: YearIter) -> Vec<i32> {
    let mut v = Vec::new();
    while let Some(x) = it.next_back() {
        v.push(x);
    }
    v
}

fn months(mut it: MonthIter, take: usize) -> Vec<(i32, u32)> {
    let mut v = Vec::new();
    while v.len() < take {
        match it.next() {
            Some(x) => v.push(x),
            None => break,
        }
    }
    v
}

fn months_rev(mut it: MonthIter) -> Vec<(i32, u32)> {
    let mut v = Vec::new();
    while let Some(x) = it.next_back() {
        v.push(x);
    }
    v
}

fn days(mut it: DayIter, take: usize) -> Vec<DateComplete> {
    let mut v = Vec::new();
    while v.len() < take {
        match it.next() {
            Some(x) => v.push(x),
            None => break,
        }
    }
    v
}

fn days_rev(mut it: DayIter) -> Vec<DateComplete> {
    let mut v = Vec::new();
    while let Some(x) = it.next_back() {
        v.push(x);
    }
    v
}

fn ymd(y: i32, m: u32, d: u32) -> DateComplete {
    DateComplete::from_ymd(y, m, d)
}

#[test]
fn iter_test_century_iter() {
    // all centuries that have any part of them included in the range
    assert_eq!(centuries(CenturyIter::new(1905..=2000)), vec![1900, 2000]);
    assert_eq!(centuries(CenturyIter::new(1899..=2000)), vec![1800, 1900, 2000]);
    assert_eq!(centuries(CenturyIter::new(1905..=2005)), vec![1900, 2000]);
    assert_eq!(centuries(CenturyIter::new(1905..=1906)), vec![1900]);
    // negative
    assert_eq!(
        centuries(CenturyIter::new(-1905..=-1000)),
        vec![-2000, -1900, -1800, -1700, -1600, -1500, -1400, -1300, -1200, -1100, -1000]
    );
    // crossover
    assert_eq!(centuries(CenturyIter::new(-97..=14)), vec![-100, 0]);
}

#[test]
fn iter_test_ymd_iter() {
    let iter = DayIter::new((2019, 7, 28), (2019, 8, 2));
    assert_eq!(
        days(iter, usize::MAX),
        vec![ymd(2019, 7, 28), ymd(2019, 7, 29), ymd(2019, 7, 30), ymd(2019, 7, 31), ymd(2019, 8, 1), ymd(2019, 8, 2)],
    );
}

#[test]
fn iter_test_ymd_iter_new_year() {
    let iter = DayIter::new((2012, 12, 29), (2013, 1, 2));
    assert_eq!(
        days(iter, usize::MAX),
        vec![ymd(2012, 12, 29), ymd(2012, 12, 30), ymd(2012, 12, 31), ymd(2013, 1, 1), ymd(2013, 1, 2)],
    );
}

#[test]
fn iter_test_ymd_iter_leap() {
    let nonleap_wholeyear = DayIter::new((2011, 1, 1), (2011, 12, 31));
    assert_eq!(days(nonleap_wholeyear, usize::MAX).len(), 365);
    let leap_wholeyear = DayIter::new((2012, 1, 1), (2012, 12, 31));
    assert_eq!(days(leap_wholeyear, usize::MAX).len(), 366);
    let iter = DayIter::new((2019, 2, 27), (2019, 3, 2));
    assert_eq!(
        days(iter, usize::MAX),
        vec![ymd(2019, 2, 27), ymd(2019, 2, 28), ymd(2019, 3, 1), ymd(2019, 3, 2)],
    );
    let iter = DayIter::new((2012, 2, 27), (2012, 3, 2));
    assert_eq!(
        days(iter, usize::MAX),
        vec![ymd(2012, 2, 27), ymd(2012, 2, 28), ymd(2012, 2, 29), ymd(2012, 3, 1), ymd(2012, 3, 2)],
    );
}

#[test]
fn test_iter_days_unspec() {
    let edtf = Edtf::parse("2021-06-27/2021-06-XX").unwrap();
    let iter = edtf.iter_days().unwrap();
    assert_eq!(
        days(iter, usize::MAX),
        vec![ymd(2021, 6, 27), ymd(2021, 6, 28), ymd(2021, 6, 29), ymd(2021, 6, 30)]
    )
}

#[test]
fn iter_test_iter_century() {
    let edtf = Edtf::parse("2021-06-28/2021-07-03").unwrap();
    let iter = edtf.iter_centuries().expect("couldn't make the iterator");
    assert_eq!(centuries(iter), vec![2000]);
    let edtf = Edtf::parse("1783-06-28/2021-07-03").unwrap();
    let iter = edtf.iter_centuries().expect("couldn't make the iterator");
    assert_eq!(centuries(iter), vec![1700, 1800, 1900, 2000]);
}

#[test]
fn iter_test_iter_century_rev() {
    let edtf = Edtf::parse("2021-06-28/2021-07-03").unwrap();
    let iter = edtf.iter_centuries().expect("couldn't make the iterator");
    assert_eq!(centuries_rev(iter), vec![2000]);
    let edtf = Edtf::parse("1783-06-28/2021-07-03").unwrap();
    let iter = edtf.iter_centuries().expect("couldn't make the iterator");
    assert_eq!(centuries_rev(iter), vec![2000, 1900, 1800, 1700]);
}

#[test]
fn iter_test_iter_decade() {
    let edtf = Edtf::parse("1783-06-28/1789-07-03").unwrap();
    let iter = edtf.iter_decades().expect("couldn't make the iterator");
    assert_eq!(decades(iter), vec![1780]);
    let edtf = Edtf::parse("1783-06-28/1809-07-03").unwrap();
    let iter = edtf.iter_decades().expect("couldn't make the iterator");
    assert_eq!(decades(iter), vec![1780, 1790, 1800]);
}

#[test]
fn iter_test_iter_decade_rev() {
    let edtf = Edtf::parse("1783-06-28/1789-07-03").unwrap();
    let iter = edtf.iter_decades().expect("couldn't make the iterator");
    assert_eq!(decades_rev(iter), vec![1780]);
    let edtf = Edtf::parse("1783-06-28/1809-07-03").unwrap();
    let iter = edtf.iter_decades().expect("couldn't make the iterator");
    assert_eq!(decades_rev(iter), vec![1800, 1790, 1780]);
}

#[test]
fn iter_test_iter_year() {
    let edtf = Edtf::parse("1783-06-28/1783-07-03").unwrap();
    let iter = edtf.iter_years().expect("couldn't make the iterator");
    assert_eq!(years(iter), vec![1783]);
    let edtf = Edtf::parse("1783-06-28/1789-07-03").unwrap();
    let iter = edtf.iter_years().expect("couldn't make the iterator");
    assert_eq!(years(iter), vec![1783, 1784, 1785, 1786, 1787, 1788, 1789]);
}

#[test]
fn iter_test_iter_year_rev() {
    let edtf = Edtf::parse("1783-06-28/1783-07-03").unwrap();
    let iter = edtf.iter_years().expect("couldn't make the iterator");
    assert_eq!(years_rev(iter), vec![1783]);
    let edtf = Edtf::parse("1783-06-28/1789-07-03").unwrap();
    let iter = edtf.iter_years().expect("couldn't make the iterator");
    assert_eq!(years_rev(iter), vec![1789, 1788, 1787, 1786, 1785, 1784, 1783]);
}

#[test]
fn iter_test_iter_year_month() {
    let edtf = Edtf::parse("1783-06-28/1783-07-03").unwrap();
    let iter = edtf.iter_months().expect("couldn't make the iterator");
    assert_eq!(months(iter, usize::MAX), vec![(1783, 6), (1783, 7)]);
    let edtf = Edtf::parse("1783-11-28/1784-01-03").unwrap();
    let iter = edtf.iter_months().expect("couldn't make the iterator");
    assert_eq!(months(iter, usize::MAX), vec![(1783, 11), (1783, 12), (1784, 1)]);
}

#[test]
fn iter_test_iter_year_month_rev() {
    let edtf = Edtf::parse("1783-06/1783-09").unwrap();
    let iter = edtf.iter_months().expect("couldn't make the iterator");
    assert_eq!(months_rev(iter), vec![(1783, 9), (1783, 8), (1783, 7), (1783, 6)]);
}

#[test]
fn iter_test_iter_ymd() {
    let edtf = Edtf::parse("1783-06-28/1783-07-03").unwrap();
    let iter = edtf.iter_days().expect("couldn't make the iterator");
    assert_eq!(
        days(iter, usize::MAX),
        vec![ymd(1783, 6, 28), ymd(1783, 6, 29), ymd(1783, 6, 30), ymd(1783, 7, 1), ymd(1783, 7, 2), ymd(1783, 7, 3)]
    );
}

#[test]
fn iter_test_iter_ymd_rev() {
    let edtf = Edtf::parse("1783-06-28/1783-07-03").unwrap();
    let iter = edtf.iter_days().expect("couldn't make the iterator");
    assert_eq!(
        days_rev(iter),
        vec![ymd(1783, 7, 3), ymd(1783, 7, 2), ymd(1783, 7, 1), ymd(1783, 6, 30), ymd(1783, 6, 29), ymd(1783, 6, 28)]
    );
}

#[test]
fn iter_test_iter_year_month_rev_rev() {
    let edtf = Edtf::parse("1783-06/1783-09").unwrap();
    let mut iter = edtf.iter_months().expect("couldn't make the iterator");

    // reversing twice is iterating forward
    let rr = iter.clone();
    assert_eq!(months(rr, usize::MAX), vec![(1783, 6), (1783, 7), (1783, 8), (1783, 9)]);

    println!("{:?}", iter);
    assert_eq!(iter.next(), Some((1783, 6)));
    assert_eq!(iter.next_back(), Some((1783, 9)));
    println!("{:?}", iter);
    assert_eq!(iter.next(), Some((1783, 7)));
    assert_eq!(iter.next(), Some((1783, 8)));
    assert_eq!(iter.next(), None);
    assert_eq!(iter.next_back(), None);

    println!("{:?}", iter);
}

#[test]
fn iter_possible_days() {
    assert_eq!(
        Date::parse("2020-08-08").unwrap().iter_possible_days().map(|x| days(x, 1000)),
        Some(vec![ymd(2020, 8, 8)])
    );
    let date = Date::parse("2020-08-XX").unwrap();
    let ds = days(date.iter_possible_days().unwrap(), usize::MAX);
    assert_eq!(ds.len(), 31);
    assert_eq!(
        ds,
        days(Edtf::parse("2020-08-01/2020-08-31").unwrap().iter_days().unwrap(), usize::MAX)
    );
}

#[test]
fn iter_possible_days_of_year() {
    let date = Date::parse("2020-XX-XX").unwrap();
    let count = days(date.iter_possible_days().unwrap(), usize::MAX).len();
    assert_eq!(count, 366);
    assert_eq!(
        Date::parse("2020-XX-XX").unwrap().iter_possible_days().map(|x| days(x, 5)),
        Some(vec![ymd(2020, 1, 1), ymd(2020, 1, 2), ymd(2020, 1, 3), ymd(2020, 1, 4), ymd(2020, 1, 5)])
    );
}

#[test]
fn iter_possible_days_of_month() {
    let date = Date::parse("2020-06-XX").unwrap();
    let count = days(date.iter_possible_days().unwrap(), usize::MAX).len();
    assert_eq!(count, 30);
    assert_eq!(
        Date::parse("2020-05-XX").unwrap().iter_possible_days().map(|x| days(x, 5)),
        Some(vec![ymd(2020, 5, 1), ymd(2020, 5, 2), ymd(2020, 5, 3), ymd(2020, 5, 4), ymd(2020, 5, 5)])
    );
}

#[test]
fn iter_possible_days_nounspec() {
    assert_eq!(Date::parse("2020").unwrap().iter_possible_days(), None);
    assert_eq!(Date::parse("202X").unwrap().iter_possible_days(), None);
    assert_eq!(Date::parse("20XX").unwrap().iter_possible_days(), None);
}

#[test]
fn iter_forward_days() {
    assert_eq!(
        Date::parse("2020-08-08").unwrap().iter_forward_days().map(|x| days(x, 5)),
        Some(vec![ymd(2020, 8, 8), ymd(2020, 8, 9), ymd(2020, 8, 10), ymd(2020, 8, 11), ymd(2020, 8, 12)])
    );
}

#[test]
fn iter_possible_months() {
    assert_eq!(Date::parse("20XX").unwrap().iter_possible_months(), None);
    assert_eq!(Date::parse("202X").unwrap().iter_possible_months(), None);
    assert_eq!(Date::parse("2020").unwrap().iter_possible_months(), None);
    assert_eq!(Date::parse("2020-08-XX").unwrap().iter_possible_months(), None);
    assert_eq!(Date::parse("2020-08-09").unwrap().iter_possible_months(), None);
    assert_eq!(
        Date::parse("2020-09").unwrap().iter_possible_months().map(|x| months(x, 1000)),
        Some(vec![(2020, 9)])
    );
    assert_eq!(
        Date::parse("2020-XX").unwrap().iter_possible_months().map(|x| months(x, 5)),
        Some(vec![(2020, 1), (2020, 2), (2020, 3), (2020, 4), (2020, 5)])
    );
}

#[test]
fn iter_forward_months() {
    assert_eq!(
        Date::parse("2020-05").unwrap().iter_forward_months().map(|x| months(x, 3)),
        Some(vec![(2020, 5), (2020, 6), (2020, 7)])
    );
    assert_eq!(
        Date::parse("2020-XX").unwrap().iter_forward_months().map(|x| months(x, 3)),
        Some(vec![(2020, 1), (2020, 2), (2020, 3)])
    );
}

#[test]
fn smallest_steps() {
    match Edtf::parse("2019-05/2020-05-03").unwrap().iter_smallest() {
        Some(SmallestStep::Month(m)) => assert_eq!(months(m, 100).len(), 13),
        _ => panic!("expected months"),
    }
    match Edtf::parse("19XX/2020-05-03").unwrap().iter_smallest() {
        Some(SmallestStep::Century(c)) => assert_eq!(centuries(c), vec![1900, 2000]),
        _ => panic!("expected centuries"),
    }
    assert_eq!(Edtf::parse("2019-XX/2020").unwrap().iter_smallest(), None);
    assert_eq!(Edtf::parse("2019/..").unwrap().iter_smallest(), None);
    assert_eq!(Edtf::parse("2019").unwrap().iter_years(), None);
    assert_eq!(Edtf::parse("2019/2021").unwrap().iter_months(), None);
    assert_eq!(years(YearIter::new(2020, 2022)), vec![2020, 2021, 2022]);
    // the front and the back meet in the middle
    let mut y = YearIter::new(1, 4);
    assert_eq!((y.next(), y.next_back(), y.next_back(), y.next(), y.next_back()), (Some(1), Some(4), Some(3), Some(2), None));
    // a day iterator steps over the end of a year
    let mut d = DayIter::new((2019, 12, 31), (2020, 1, 1));
    assert_eq!(d.next_back(), Some(ymd(2020, 1, 1)));
    assert_eq!(d.next_back(), Some(ymd(2019, 12, 31)));
    assert_eq!(d.next(), None);
    assert_eq!(decades(DecadeIter::new(1905..=1939)), vec![1900, 1910, 1920, 1930]);
}

#[test]
fn periods_touching_a_range() {
    assert_eq!(decades(DecadeIter::new(-15..=4)), vec![-20, -10, 0]);
    assert_eq!(decades(DecadeIter::new(1990..=1990)), vec![1990]);
    assert_eq!(centuries(CenturyIter::new(2000..=2099)), vec![2000]);
    assert_eq!(centuries(CenturyIter::new(1999..=2000)), vec![1900, 2000]);
}
