use calends::util::{
    add_biweek_duration, add_day, add_week_duration, add_year_duration, beginning_of_biweek,
    beginning_of_month, beginning_of_quarter, beginning_of_week, beginning_of_year,
    days_in_month, end_of_biweek, end_of_month, end_of_quarter, end_of_week, end_of_year,
    find_weekday_ascending, find_weekday_descending, month_end, quarter_month, shift_days,
    shift_months, shift_quarters, shift_weeks, shift_years, weeks_in_year,
};
use calends::util::shift::checked_shift_months;
use calends::{Date, Weekday};

fn ymd(year: i32, month: u32, day: u32) -> Date {
    Date::from_ymd_opt(year, month, day).unwrap()
}

#[test]
fn test_beginning_of_biweek() {
    assert_eq!(beginning_of_biweek(&ymd(2022, 1, 1)), ymd(2021, 12, 20))
}

#[test]
fn test_shift_months() {
    assert_eq!(shift_months(ymd(2022, 1, 1), 1), ymd(2022, 2, 1));

    assert_eq!(shift_months(ymd(2022, 1, 1), -1), ymd(2021, 12, 1))
}

#[test]
fn test_shift_quarters() {
    assert_eq!(shift_quarters(ymd(2022, 1, 1), 1), ymd(2022, 4, 1));
}

#[test]
fn test_shift_years() {
    assert_eq!(shift_years(ymd(2022, 1, 1), 1), ymd(2023, 1, 1));

    assert_eq!(shift_years(ymd(2024, 2, 29), 1), ymd(2025, 2, 28));
}

#[test]
fn test_shift_months_more() {
    assert_eq!(shift_months(ymd(2022, 2, 3), 2), ymd(2022, 4, 3));
    assert_eq!(shift_months(ymd(2022, 2, 3), -1), ymd(2022, 1, 3));
    assert_eq!(shift_months(ymd(2022, 2, 28), 1), ymd(2022, 3, 31));
    assert_eq!(shift_months(ymd(2022, 3, 31), 1), ymd(2022, 4, 30));
    assert_eq!(shift_months(ymd(2022, 2, 28), 11), ymd(2023, 1, 31));
    assert_eq!(shift_months(ymd(2022, 1, 31), 1), ymd(2022, 2, 28));
    assert_eq!(shift_months(ymd(2022, 1, 30), 1), ymd(2022, 2, 28));
    assert_eq!(shift_months(ymd(2022, 1, 29), 25), ymd(2024, 2, 29));
    assert_eq!(shift_months(ymd(2022, 12, 15), 0), ymd(2022, 12, 15));
    assert_eq!(shift_months(ymd(2022, 6, 15), 6), ymd(2022, 12, 15));
    assert_eq!(shift_months(ymd(2022, 1, 15), -13), ymd(2020, 12, 15));
    assert_eq!(shift_months(ymd(2022, 1, 15), -12), ymd(2021, 1, 15));
    assert_eq!(shift_months(ymd(2022, 12, 15), 12), ymd(2023, 12, 15));
    assert_eq!(shift_months(ymd(1, 1, 1), -1), ymd(0, 12, 1));
    assert_eq!(shift_years(ymd(1584, 2, 3), -1), ymd(1583, 2, 3));
}

#[test]
fn test_checked_shift_months() {
    assert_eq!(checked_shift_months(ymd(2022, 1, 31), 1), Some(ymd(2022, 2, 28)));
    assert_eq!(checked_shift_months(ymd(calends::date::MAX_YEAR, 12, 1), 1), None);
    assert_eq!(checked_shift_months(ymd(calends::date::MIN_YEAR, 1, 1), -1), None);
    assert_eq!(checked_shift_months(ymd(2022, 1, 1), i32::MAX), None);
    assert_eq!(checked_shift_months(ymd(2022, 1, 1), i32::MIN), None);
    assert_eq!(
        checked_shift_months(ymd(calends::date::MAX_YEAR, 12, 1), -1),
        Some(ymd(calends::date::MAX_YEAR, 11, 1))
    );
}

#[test]
fn test_shift_weeks_and_days() {
    assert_eq!(shift_weeks(ymd(2022, 2, 21), 1), ymd(2022, 2, 28));
    assert_eq!(shift_weeks(ymd(2022, 2, 21), 2), ymd(2022, 3, 7));
    assert_eq!(shift_weeks(ymd(2022, 1, 1), -1), ymd(2021, 12, 25));
    assert_eq!(shift_days(ymd(2024, 2, 28), 2), ymd(2024, 3, 1));
    assert_eq!(shift_days(ymd(2022, 1, 1), -366), ymd(2020, 12, 31));
    assert_eq!(shift_days(ymd(2022, 1, 1), 0), ymd(2022, 1, 1));
    assert_eq!(add_day(ymd(2022, 12, 31)), ymd(2023, 1, 1));
    assert_eq!(add_week_duration(ymd(2022, 12, 31)), ymd(2023, 1, 7));
    assert_eq!(add_biweek_duration(ymd(2022, 12, 31)), ymd(2023, 1, 14));
    assert_eq!(add_year_duration(ymd(2022, 12, 31)), ymd(2023, 12, 31));
}

#[test]
fn test_days_in_month() {
    let lengths = [31, 28, 31, 30, 31, 30, 31, 31, 30, 31, 30, 31];
    for (i, len) in lengths.iter().enumerate() {
        assert_eq!(days_in_month(2022, i as u32 + 1), *len);
        assert_eq!(month_end(2022, i as u32 + 1), ymd(2022, i as u32 + 1, *len));
    }
    assert_eq!(days_in_month(2024, 2), 29);
    assert_eq!(days_in_month(2000, 2), 29);
    assert_eq!(days_in_month(1900, 2), 28);
    assert_eq!(days_in_month(-4, 2), 29);
    assert_eq!(days_in_month(calends::date::MAX_YEAR, 12), 31);
    assert_eq!(
        month_end(calends::date::MAX_YEAR, 12),
        ymd(calends::date::MAX_YEAR, 12, 31)
    );
    assert_eq!(month_end(2024, 2), ymd(2024, 2, 29));
}

#[test]
fn test_period_boundaries() {
    let d = ymd(2022, 2, 3);
    assert_eq!(quarter_month(&d), 1);
    assert_eq!(quarter_month(&ymd(2022, 12, 3)), 10);
    assert_eq!(beginning_of_year(&d), ymd(2022, 1, 1));
    assert_eq!(end_of_year(&d), ymd(2022, 12, 31));
    assert_eq!(beginning_of_quarter(&d), ymd(2022, 1, 1));
    assert_eq!(end_of_quarter(&d), ymd(2022, 3, 31));
    assert_eq!(end_of_quarter(&ymd(2022, 11, 30)), ymd(2022, 12, 31));
    assert_eq!(beginning_of_month(&d), ymd(2022, 2, 1));
    assert_eq!(end_of_month(&d), ymd(2022, 2, 28));
    assert_eq!(beginning_of_week(&d), ymd(2022, 1, 31));
    assert_eq!(end_of_week(&d), ymd(2022, 2, 6));
    assert_eq!(beginning_of_biweek(&d), ymd(2022, 1, 31));
    assert_eq!(end_of_biweek(&d), ymd(2022, 2, 13));
    assert_eq!(end_of_biweek(&ymd(2022, 1, 1)), ymd(2022, 1, 2));
    assert_eq!(beginning_of_biweek(&ymd(2022, 2, 14)), ymd(2022, 2, 14));
    assert_eq!(beginning_of_biweek(&ymd(2022, 2, 13)), ymd(2022, 1, 31));
}

#[test]
fn test_weeks_in_year() {
    assert_eq!(weeks_in_year(&ymd(2022, 5, 5)), 52);
    assert_eq!(weeks_in_year(&ymd(2020, 5, 5)), 53);
    // the last day of 2024 lies in the first week of 2025
    assert_eq!(weeks_in_year(&ymd(2024, 5, 5)), 1);
}

#[test]
fn test_find_weekday() {
    // February 2022 begins on a Tuesday and ends on a Monday
    assert_eq!(find_weekday_ascending(Weekday::Tue, 2022, 2, 1), ymd(2022, 2, 1));
    assert_eq!(find_weekday_ascending(Weekday::Tue, 2022, 2, 0), ymd(2022, 2, 1));
    assert_eq!(find_weekday_ascending(Weekday::Wed, 2022, 2, 1), ymd(2022, 2, 2));
    assert_eq!(find_weekday_ascending(Weekday::Mon, 2022, 2, 1), ymd(2022, 2, 7));
    assert_eq!(find_weekday_ascending(Weekday::Wed, 2022, 2, 3), ymd(2022, 2, 16));
    assert_eq!(find_weekday_descending(Weekday::Mon, 2022, 2, 1), ymd(2022, 2, 28));
    assert_eq!(find_weekday_descending(Weekday::Sun, 2022, 2, 1), ymd(2022, 2, 27));
    assert_eq!(find_weekday_descending(Weekday::Tue, 2022, 2, 1), ymd(2022, 2, 22));
    assert_eq!(find_weekday_descending(Weekday::Wed, 2022, 2, 2), ymd(2022, 2, 16));
}
