use calends::bound::Bound;
use calends::interval::calendar::{hash_text, CalendarBasis, CalendarInterval};
use calends::interval::naive::NaiveInterval;
use calends::{Date, IntervalLike, RelativeDuration};
use std::cmp::Ordering;
use std::hash::{Hash, Hasher};

fn ymd(year: i32, month: u32, day: u32) -> Date {
    Date::from_ymd_opt(year, month, day).unwrap()
}

#[test]
fn test_year_for_date() {
    let c1 = CalendarInterval::year_for_date(ymd(2022, 2, 3));
    assert_eq!(c1.start_date(), Some(ymd(2022, 1, 1)));
    assert_eq!(c1.end_date(), Some(ymd(2022, 12, 31)))
}

#[test]
fn test_quarter_for_date() {
    let c1 = CalendarInterval::quarter_for_date(ymd(2022, 2, 3));
    assert_eq!(c1.start_date(), Some(ymd(2022, 1, 1)));
    assert_eq!(c1.end_date(), Some(ymd(2022, 3, 31)))
}

#[test]
fn test_month_for_date() {
    let c1 = CalendarInterval::month_for_date(ymd(2022, 2, 3));
    assert_eq!(c1.start_date(), Some(ymd(2022, 2, 1)));
    assert_eq!(c1.end_date(), Some(ymd(2022, 2, 28)))
}

#[test]
fn test_biweek_for_date() {
    let c1 = CalendarInterval::biweek_for_date(ymd(2022, 1, 1));
    assert_eq!(c1.start_date(), Some(ymd(2021, 12, 20)));
    assert_eq!(c1.end_date(), Some(ymd(2022, 1, 2)))
}

#[test]
fn test_week_and_day_for_date() {
    let c1 = CalendarInterval::week_for_date(ymd(2022, 2, 3));
    assert_eq!(c1.start_date(), Some(ymd(2022, 1, 31)));
    assert_eq!(c1.end_date(), Some(ymd(2022, 2, 6)));
    let c1 = CalendarInterval::day_for_date(ymd(2022, 2, 3));
    assert_eq!(c1.start_date(), Some(ymd(2022, 2, 3)));
    assert_eq!(c1.end_date(), Some(ymd(2022, 2, 3)));
    assert_eq!(c1.start(), Bound::Included(ymd(2022, 2, 3)));
    assert_eq!(c1.end(), Bound::Included(ymd(2022, 2, 3)));
}

#[test]
fn test_from_calendar_basis() {
    let date = ymd(2022, 2, 3);
    assert_eq!(
        CalendarInterval::from_calendar_basis(CalendarBasis::Year, date),
        CalendarInterval::year_for_date(date)
    );
    assert_eq!(
        CalendarInterval::from_calendar_basis(CalendarBasis::Quarter, date),
        CalendarInterval::quarter_for_date(date)
    );
    assert_eq!(
        CalendarInterval::from_calendar_basis(CalendarBasis::Month, date),
        CalendarInterval::month_for_date(date)
    );
    assert_eq!(
        CalendarInterval::from_calendar_basis(CalendarBasis::BiWeek, date),
        CalendarInterval::biweek_for_date(date)
    );
    assert_eq!(
        CalendarInterval::from_calendar_basis(CalendarBasis::Week, date),
        CalendarInterval::week_for_date(date)
    );
    assert_eq!(
        CalendarInterval::from_calendar_basis(CalendarBasis::Day, date),
        CalendarInterval::day_for_date(date)
    );
}

#[test]
fn test_year_iterator() {
    let c1 = CalendarInterval::year_for_date(ymd(2022, 2, 3));
    let mut iter = c1.into_iter();

    let n1 = iter.next().unwrap();
    assert_eq!(n1.start_date(), Some(ymd(2022, 1, 1)));

    let n1 = iter.next().unwrap();
    assert_eq!(n1.start_date(), Some(ymd(2023, 1, 1)))
}

#[test]
fn calendar_test_quarter_iterator() {
    let c1 = CalendarInterval::quarter_for_date(ymd(2022, 2, 3));
    let mut iter = c1.into_iter();

    let n = iter.next().unwrap();
    assert_eq!(n.start_date(), Some(ymd(2022, 1, 1)));
    assert_eq!(n.end_date(), Some(ymd(2022, 3, 31)));

    let n = iter.next().unwrap();
    assert_eq!(n.start_date(), Some(ymd(2022, 4, 1)));
    assert_eq!(n.end_date(), Some(ymd(2022, 7, 1)));
}

#[test]
fn test_month_iterator() {
    let c1 = CalendarInterval::month_for_date(ymd(2022, 1, 1));
    let mut iter = c1.into_iter();

    let n = iter.next().unwrap();
    assert_eq!(n.start_date(), Some(ymd(2022, 1, 1)));
    assert_eq!(n.end_date(), Some(ymd(2022, 1, 31)));

    let n = iter.next().unwrap();
    assert_eq!(n.start_date(), Some(ymd(2022, 2, 1)));
    assert_eq!(n.end_date(), Some(ymd(2022, 2, 28)));

    let n = iter.next().unwrap();
    assert_eq!(n.start_date(), Some(ymd(2022, 3, 1)));
    assert_eq!(n.end_date(), Some(ymd(2022, 3, 31)));
}

#[test]
fn test_biweek_iterator() {
    let c1 = CalendarInterval::biweek_for_date(ymd(2022, 2, 3));
    let mut iter = c1.into_iter();

    let n = iter.next().unwrap();
    assert_eq!(n.start_date(), Some(ymd(2022, 1, 31)));
    assert_eq!(n.end_date(), Some(ymd(2022, 2, 13)));

    let n = iter.next().unwrap();
    assert_eq!(n.start_date(), Some(ymd(2022, 2, 14)));
    assert_eq!(n.end_date(), Some(ymd(2022, 2, 28)));
}

#[test]
fn test_week_iterator() {
    let c1 = CalendarInterval::week_for_date(ymd(2022, 2, 3));
    let mut iter = c1.into_iter();

    let n = iter.next().unwrap();
    assert_eq!(n.start_date(), Some(ymd(2022, 1, 31)));
    assert_eq!(n.end_date(), Some(ymd(2022, 2, 6)));

    let n = iter.next().unwrap();
    assert_eq!(n.start_date(), Some(ymd(2022, 2, 7)));
    assert_eq!(n.end_date(), Some(ymd(2022, 2, 14)));
}

#[test]
fn test_succ_of_year_and_day() {
    let year = CalendarInterval::year_for_date(ymd(2022, 2, 3)).succ();
    assert_eq!(year.start_date(), Some(ymd(2023, 1, 1)));
    assert_eq!(year.end_date(), Some(ymd(2024, 1, 1)));
    let day = CalendarInterval::day_for_date(ymd(2022, 2, 3)).succ();
    assert_eq!(day.start_date(), Some(ymd(2022, 2, 5)));
    assert_eq!(day.end_date(), Some(ymd(2022, 2, 5)));
}

#[test]
fn test_calendar_until() {
    let month = CalendarInterval::month_for_date(ymd(2022, 1, 15));
    let mut until = month.until(ymd(2022, 3, 30));
    assert_eq!(until.next().and_then(|m| m.end_date()), Some(ymd(2022, 1, 31)));
    assert_eq!(until.next().and_then(|m| m.end_date()), Some(ymd(2022, 2, 28)));
    assert_eq!(until.next(), None);

    let mut until = month.until(ymd(2022, 2, 28));
    assert_eq!(until.next().and_then(|m| m.end_date()), Some(ymd(2022, 1, 31)));
    assert_eq!(until.next().and_then(|m| m.end_date()), Some(ymd(2022, 2, 28)));
    assert_eq!(until.next(), None);
}

#[test]
fn test_hash_text() {
    assert_eq!(hash_text(0), "AAAAAAAAAAA=");
    assert_eq!(hash_text(u64::MAX), "//////////8=");
    assert_eq!(hash_text(1), "AAAAAAAAAAE=");
    assert_eq!(hash_text(0x0102_0304_0506_0708), "AQIDBAUGBwg=");
}

#[test]
fn test_hash_str() {
    let month = CalendarInterval::month_for_date(ymd(2022, 1, 15));
    let mut hasher = fnv::FnvHasher::default();
    chrono::NaiveDate::from_ymd_opt(2022, 1, 1).unwrap().hash(&mut hasher);
    chrono::NaiveDate::from_ymd_opt(2022, 1, 31).unwrap().hash(&mut hasher);
    CalendarBasis::Month.hash(&mut hasher);
    assert_eq!(month.hash_str(), base64::encode(hasher.finish().to_be_bytes()));
    assert_eq!(month.hash_str(), month.hash_str());
    assert_eq!(month.hash_str().len(), 12);
    assert_ne!(month.hash_str(), month.succ().hash_str());
    assert_ne!(
        CalendarInterval::day_for_date(ymd(2022, 1, 15)).hash_str(),
        CalendarInterval::day_for_date(ymd(2022, 1, 16)).hash_str()
    );
}

#[test]
fn test_calendar_interval_is_an_interval() {
    let month = CalendarInterval::month_for_date(ymd(2022, 1, 15));
    assert!(month.within(ymd(2022, 1, 31)));
    assert!(!month.within(ymd(2022, 2, 1)));
    assert_eq!(month.iso8601(), "2022-01-01/2022-01-31");
    assert_eq!(month.duration(), None);
}

#[test]
fn test_ord_eq() {
    let n1 = NaiveInterval {
        start: Bound::Included(ymd(2022, 1, 1)),
        end: Bound::Included(ymd(2022, 5, 18)),
    };
    let n2 = NaiveInterval {
        start: Bound::Included(ymd(2022, 1, 1)),
        end: Bound::Included(ymd(2022, 5, 18)),
    };

    assert_eq!(n1.cmp(&n2), Ordering::Equal)
}

#[test]
fn test_partial_ord_eq() {
    let n1 = NaiveInterval {
        start: Bound::Included(ymd(2022, 1, 1)),
        end: Bound::Included(ymd(2022, 5, 18)),
    };
    let n2 = NaiveInterval {
        start: Bound::Included(ymd(2022, 1, 1)),
        end: Bound::Included(ymd(2022, 12, 31)),
    };

    assert_eq!(n1.partial_cmp(&n2), Some(Ordering::Less))
}

#[test]
fn naive_test_display() {
    let n1 = NaiveInterval {
        start: Bound::Included(ymd(2022, 1, 1)),
        end: Bound::Included(ymd(2022, 5, 18)),
    };

    assert_eq!(
        n1.to_string(),
        "Included(2022-01-01) to Included(2022-05-18)".to_string()
    )
}

#[test]
fn test_naive_interval() {
    let open = NaiveInterval::new(Bound::Unbounded, Bound::Excluded(ymd(2022, 5, 18)));
    assert_eq!(open.to_string(), "Unbounded to Excluded(2022-05-18)");
    assert!(open.within(ymd(2022, 5, 17)));
    assert!(!open.within(ymd(2022, 5, 18)));
    let closed = NaiveInterval::new(Bound::Included(ymd(2022, 1, 1)), Bound::Unbounded);
    assert_eq!(open.cmp(&closed), Ordering::Less);
    assert_eq!(closed.cmp(&open), Ordering::Greater);
    assert!(open < closed);
    assert_eq!(
        RelativeDuration::months(1).into_interval(ymd(2022, 1, 31)),
        NaiveInterval::new(Bound::Included(ymd(2022, 1, 31)), Bound::Included(ymd(2022, 2, 28)))
    );
    assert_eq!(RelativeDuration::years(2), RelativeDuration::months(24));
}
