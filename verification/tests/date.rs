use calends::date::{MAX_YEAR, MIN_YEAR};
use calends::util::{
    beginning_of_week, days_in_month, end_of_week, month_end, shift_days, shift_weeks,
};
use calends::{CalendarUnit, Date, IntervalLike, RelativeDuration, Weekday};
use chrono::{Datelike, NaiveDate};

fn ymd(year: i32, month: u32, day: u32) -> Date {
    Date::from_ymd_opt(year, month, day).unwrap()
}

fn naive(date: Date) -> NaiveDate {
    NaiveDate::from_ymd_opt(date.year(), date.month(), date.day()).unwrap()
}

#[test]
fn test_from_ymd_opt() {
    assert!(Date::from_ymd_opt(2015, 3, 14).is_some());
    assert!(Date::from_ymd_opt(2015, 0, 14).is_none());
    assert!(Date::from_ymd_opt(2015, 13, 14).is_none());
    assert!(Date::from_ymd_opt(2015, 2, 29).is_none());
    assert!(Date::from_ymd_opt(2015, 2, 0).is_none());
    assert!(Date::from_ymd_opt(2015, 4, 31).is_none());
    assert!(Date::from_ymd_opt(-4, 2, 29).is_some());
    assert!(Date::from_ymd_opt(1900, 2, 29).is_none());
    assert!(Date::from_ymd_opt(2000, 2, 29).is_some());
    assert!(Date::from_ymd_opt(400000, 1, 1).is_none());
    assert!(Date::from_ymd_opt(-400000, 1, 1).is_none());
    assert!(Date::from_ymd_opt(MAX_YEAR, 12, 31).is_some());
    assert!(Date::from_ymd_opt(MAX_YEAR + 1, 1, 1).is_none());
    assert!(Date::from_ymd_opt(MIN_YEAR, 1, 1).is_some());
    assert!(Date::from_ymd_opt(MIN_YEAR - 1, 12, 31).is_none());
    let date = Date::from_ymd(2022, 5, 18);
    assert_eq!((date.year(), date.month(), date.day()), (2022, 5, 18));
    assert_eq!(Some(date), Date::from_ymd_opt(2022, 5, 18));
}

#[test]
fn test_range_is_that_of_naive_dates() {
    assert_eq!(naive(ymd(MAX_YEAR, 12, 31)), NaiveDate::MAX);
    assert_eq!(naive(ymd(MIN_YEAR, 1, 1)), NaiveDate::MIN);
    for year in [MIN_YEAR, -401, -400, -101, -100, -5, -4, -1, 0, 1, 4, 100, 1900, 2000, 2023,
        2024, MAX_YEAR]
    {
        for month in 1..=12 {
            for day in 1..=32 {
                assert_eq!(
                    Date::from_ymd_opt(year, month, day).is_some(),
                    NaiveDate::from_ymd_opt(year, month, day).is_some()
                );
            }
        }
    }
}

#[test]
fn test_date_order() {
    assert!(ymd(2022, 1, 31) < ymd(2022, 2, 1));
    assert!(ymd(2021, 12, 31) < ymd(2022, 1, 1));
    assert!(ymd(2022, 1, 1) <= ymd(2022, 1, 1));
    assert!(ymd(-1, 12, 31) < ymd(0, 1, 1));
    assert!(ymd(2022, 1, 2) > ymd(2022, 1, 1));
    assert!(ymd(2022, 1, 1).is_before(&ymd(2022, 1, 2)));
    assert!(!ymd(2022, 1, 1).is_before(&ymd(2022, 1, 1)));
    assert_eq!(ymd(2022, 3, 1).cmp(&ymd(2022, 2, 28)), std::cmp::Ordering::Greater);
    assert_eq!(
        ymd(2022, 3, 1).partial_cmp(&ymd(2022, 3, 1)),
        Some(std::cmp::Ordering::Equal)
    );
}

#[test]
fn test_weekday_numbers() {
    let days = [
        Weekday::Mon,
        Weekday::Tue,
        Weekday::Wed,
        Weekday::Thu,
        Weekday::Fri,
        Weekday::Sat,
        Weekday::Sun,
    ];
    for (i, day) in days.iter().enumerate() {
        assert_eq!(day.number_from_monday(), i as u32 + 1);
    }
}

#[test]
fn test_day_shifts_agree_with_naive_dates() {
    let starts = [ymd(2022, 1, 1), ymd(2024, 2, 29), ymd(1, 1, 1), ymd(-400, 3, 1), ymd(1999, 12, 31)];
    for start in starts {
        for days in [-800000, -36525, -366, -365, -31, -1, 0, 1, 28, 59, 365, 366, 1461, 146097] {
            let shifted = shift_days(start, days);
            assert_eq!(naive(shifted), naive(start) + chrono::TimeDelta::days(days as i64));
            assert_eq!(
                naive(shifted).num_days_from_ce() - naive(start).num_days_from_ce(),
                days
            );
        }
        for weeks in [-5000, -53, -1, 0, 1, 52, 5000] {
            assert_eq!(
                naive(shift_weeks(start, weeks)),
                naive(start) + chrono::TimeDelta::weeks(weeks as i64)
            );
        }
    }
}

#[test]
fn test_months_agree_with_naive_dates() {
    for year in [-401, -400, -1, 0, 1, 1900, 2000, 2022, 2023, 2024] {
        for month in 1..=12u32 {
            let first = NaiveDate::from_ymd_opt(year, month, 1).unwrap();
            let next = if month == 12 {
                NaiveDate::from_ymd_opt(year + 1, 1, 1).unwrap()
            } else {
                NaiveDate::from_ymd_opt(year, month + 1, 1).unwrap()
            };
            assert_eq!(days_in_month(year, month) as i64, (next - first).num_days());
            assert_eq!(naive(month_end(year, month)), next.pred_opt().unwrap());
        }
    }
}

#[test]
fn test_weeks_agree_with_naive_dates() {
    let mut day = NaiveDate::from_ymd_opt(2019, 12, 20).unwrap();
    for _ in 0..800 {
        let date = ymd(day.year(), day.month(), day.day());
        let week = day.week(chrono::Weekday::Mon);
        assert_eq!(naive(beginning_of_week(&date)), week.first_day());
        assert_eq!(naive(end_of_week(&date)), week.last_day());
        assert_eq!(
            calends::unit::convert_to_iso_week(date),
            calends::CalendarUnit::Week(day.year(), day.iso_week().week() as u8)
        );
        day = day.succ_opt().unwrap();
    }
}

#[test]
fn test_apply_agrees_with_naive_dates() {
    let start = ymd(2022, 1, 31);
    for months in -30..30 {
        let shifted = start + RelativeDuration::months(months);
        // the last day of January goes to the last day of every month
        let naive_shifted = naive(shifted);
        assert_eq!(naive_shifted.succ_opt().unwrap().day(), 1);
        assert_eq!(
            (naive_shifted.year() * 12 + naive_shifted.month() as i32)
                - (2022 * 12 + 1),
            months
        );
    }
    let start = ymd(2022, 1, 15);
    for months in -30..30 {
        let shifted = start + RelativeDuration::months(months).with_weeks(1).with_days(-3);
        let expected = if months >= 0 {
            naive(start).checked_add_months(chrono::Months::new(months as u32)).unwrap()
        } else {
            naive(start).checked_sub_months(chrono::Months::new((-months) as u32)).unwrap()
        } + chrono::TimeDelta::days(4);
        assert_eq!(naive(shifted), expected);
    }
}

#[test]
fn test_iso_weeks_agree_with_naive_dates() {
    for year in 1990..2060 {
        for week in 0..=54u8 {
            let unit = calends::CalendarUnit::Week(year, week);
            let monday = NaiveDate::from_isoywd_opt(year, week as u32, chrono::Weekday::Mon);
            match unit.checked_into_interval() {
                Some(interval) => {
                    assert_eq!(interval.start_opt().map(naive), monday);
                    assert_eq!(
                        interval.end_opt().map(naive),
                        NaiveDate::from_isoywd_opt(year, week as u32, chrono::Weekday::Sun)
                    );
                }
                None => assert_eq!(monday, None),
            }
        }
        let last = NaiveDate::from_ymd_opt(year, 12, 31).unwrap();
        assert_eq!(
            calends::util::weeks_in_year(&ymd(year, 6, 1)),
            last.iso_week().week()
        );
    }
}

#[test]
fn test_units_at_the_edges() {
    assert!(CalendarUnit::Year(MAX_YEAR).checked_into_interval().is_none());
    assert!(CalendarUnit::Year(MAX_YEAR - 1).checked_into_interval().is_some());
    assert!(CalendarUnit::Year(MIN_YEAR).checked_into_interval().is_some());
    assert!(CalendarUnit::Year(MIN_YEAR - 1).checked_into_interval().is_none());
    assert!(CalendarUnit::Quarter(2022, 0).checked_into_interval().is_none());
    assert!(CalendarUnit::Quarter(2022, 5).checked_into_interval().is_none());
    assert!(CalendarUnit::Half(2022, 3).checked_into_interval().is_none());
    assert!(CalendarUnit::Month(2022, 13).checked_into_interval().is_none());
    assert!(CalendarUnit::Month(2022, 12).checked_into_interval().is_some());
    assert!(CalendarUnit::Week(2021, 53).checked_into_interval().is_none());
    assert!(CalendarUnit::Week(2020, 53).checked_into_interval().is_some());
    for year in [MIN_YEAR, MIN_YEAR + 1, MAX_YEAR - 1, MAX_YEAR] {
        for week in [1u8, 2, 51, 52, 53] {
            let expected = NaiveDate::from_isoywd_opt(year, week as u32, chrono::Weekday::Mon)
                .and_then(|monday| monday.checked_add_signed(chrono::TimeDelta::days(7)))
                .is_some();
            assert_eq!(
                CalendarUnit::Week(year, week).checked_into_interval().is_some(),
                expected
            );
        }
    }
}

#[test]
fn test_edges_agree_with_naive_dates() {
    for (edge, toward) in [(ymd(MAX_YEAR, 12, 31), -1i32), (ymd(MIN_YEAR, 1, 1), 1)] {
        for back in 0..5 {
            let start = shift_days(edge, toward * back);
            for days in -6..=6 {
                let expected = naive(start).checked_add_signed(chrono::TimeDelta::days(days as i64));
                assert_eq!(
                    start.checked_add(RelativeDuration::days(days)).map(naive),
                    expected
                );
            }
            for weeks in -1..=1 {
                let expected =
                    naive(start).checked_add_signed(chrono::TimeDelta::weeks(weeks as i64));
                assert_eq!(
                    start.checked_add(RelativeDuration::weeks(weeks)).map(naive),
                    expected
                );
            }
        }
    }
    assert_eq!(days_in_month(MIN_YEAR, 1), 31);
    assert_eq!(days_in_month(MIN_YEAR, 2), if NaiveDate::MIN.leap_year() { 29 } else { 28 });
    assert_eq!(naive(month_end(MIN_YEAR, 1)), NaiveDate::from_ymd_opt(MIN_YEAR, 1, 31).unwrap());
    assert_eq!(naive(month_end(MAX_YEAR, 11)), NaiveDate::from_ymd_opt(MAX_YEAR, 11, 30).unwrap());
    let last_day = calends::interval::calendar::CalendarInterval::day_for_date(ymd(MAX_YEAR, 12, 31));
    assert!(!last_day.has_next());
    let before = calends::interval::calendar::CalendarInterval::day_for_date(ymd(MAX_YEAR, 12, 29));
    assert!(before.has_next());
    assert_eq!(before.succ().end_date(), Some(ymd(MAX_YEAR, 12, 31)));
    let before = calends::interval::calendar::CalendarInterval::day_for_date(ymd(MAX_YEAR, 12, 30));
    assert!(!before.has_next());
}
