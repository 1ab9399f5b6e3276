use calends::grain::Grain;
use calends::grouping::Grouping;
use calends::interval::marker::{End, Start};
use calends::interval::Interval;
use calends::unit::{
    convert_to_half, convert_to_iso_week, convert_to_month, convert_to_quarter, convert_to_year,
};
use calends::{CalendarUnit, Date, IntervalLike, RelativeDuration};

fn ymd(year: i32, month: u32, day: u32) -> Date {
    Date::from_ymd_opt(year, month, day).unwrap()
}

fn closed(interval: Interval) -> calends::interval::ClosedInterval {
    match interval {
        Interval::Closed(c) => c,
        _ => panic!("not a closed interval"),
    }
}

#[test]
fn test_convert_week() {
    assert_eq!(convert_to_iso_week(ymd(2020, 2, 29)), CalendarUnit::Week(2020, 9));

    assert_eq!(convert_to_iso_week(ymd(2022, 12, 31)), CalendarUnit::Week(2022, 52))
}

#[test]
fn test_convert_month() {
    assert_eq!(convert_to_month(ymd(2020, 2, 29)), CalendarUnit::Month(2020, 2));

    assert_eq!(convert_to_month(ymd(2022, 12, 31)), CalendarUnit::Month(2022, 12))
}

#[test]
fn test_convert_quarter() {
    assert_eq!(convert_to_quarter(ymd(2020, 2, 29)), CalendarUnit::Quarter(2020, 1));

    assert_eq!(convert_to_quarter(ymd(2022, 12, 31)), CalendarUnit::Quarter(2022, 4))
}

#[test]
fn test_convert_half() {
    assert_eq!(convert_to_half(ymd(2020, 2, 29)), CalendarUnit::Half(2020, 1));

    assert_eq!(convert_to_half(ymd(2022, 12, 31)), CalendarUnit::Half(2022, 2))
}

#[test]
fn test_convert_year() {
    assert_eq!(convert_to_year(ymd(2020, 2, 29)), CalendarUnit::Year(2020));

    assert_eq!(convert_to_year(ymd(2022, 12, 31)), CalendarUnit::Year(2022))
}

#[test]
fn test_from_date_for_grain() {
    assert_eq!(
        CalendarUnit::from_date_for_quarter(ymd(2022, 12, 31)),
        CalendarUnit::Quarter(2022, 4)
    );
    assert_eq!(CalendarUnit::from_date_for_half(ymd(2022, 6, 30)), CalendarUnit::Half(2022, 1));
    assert_eq!(CalendarUnit::from_date_for_half(ymd(2022, 7, 1)), CalendarUnit::Half(2022, 2));
    assert_eq!(CalendarUnit::from_date_for_month(ymd(2022, 7, 1)), CalendarUnit::Month(2022, 7));
    assert_eq!(CalendarUnit::from_date_for_year(ymd(2022, 7, 1)), CalendarUnit::Year(2022));
    assert_eq!(CalendarUnit::from_date_for_week(ymd(2022, 2, 14)), CalendarUnit::Week(2022, 7));
    for month in 1..=12u32 {
        assert_eq!(
            CalendarUnit::from_date_for_quarter(ymd(2022, month, 15)),
            CalendarUnit::Quarter(2022, ((month - 1) / 3 + 1) as u8)
        );
    }
}

#[test]
fn domain_test_quarter_iterator() {
    let mut c = CalendarUnit::Quarter(2022, 1);
    assert_eq!(c.next(), Some(CalendarUnit::Quarter(2022, 1)));
    assert_eq!(c.next(), Some(CalendarUnit::Quarter(2022, 2)));
    assert_eq!(c.next(), Some(CalendarUnit::Quarter(2022, 3)));
    assert_eq!(c.next(), Some(CalendarUnit::Quarter(2022, 4)));
    assert_eq!(c.next(), Some(CalendarUnit::Quarter(2023, 1)));
}

#[test]
fn test_half_iterator() {
    let mut c = CalendarUnit::Half(2022, 1);
    assert_eq!(c.next(), Some(CalendarUnit::Half(2022, 1)));
    assert_eq!(c.next(), Some(CalendarUnit::Half(2022, 2)));
    assert_eq!(c.next(), Some(CalendarUnit::Half(2023, 1)));
}

#[test]
fn test_succ() {
    assert_eq!(CalendarUnit::Year(2022).succ(), CalendarUnit::Year(2023));
    assert_eq!(CalendarUnit::Month(2022, 11).succ(), CalendarUnit::Month(2022, 12));
    assert_eq!(CalendarUnit::Month(2022, 12).succ(), CalendarUnit::Month(2023, 1));
    assert_eq!(CalendarUnit::Quarter(-1, 4).succ(), CalendarUnit::Quarter(0, 1));
    assert_eq!(CalendarUnit::Half(2022, 2).succ(), CalendarUnit::Half(2023, 1));
}

#[test]
fn test_quarter_interval() {
    let interval = CalendarUnit::Quarter(2022, 1).into_interval();
    assert_eq!(interval.start_opt().unwrap(), ymd(2022, 1, 1));
    assert_eq!(interval.end_opt().unwrap(), ymd(2022, 3, 31));

    let interval = CalendarUnit::Quarter(2022, 2).into_interval();
    assert_eq!(interval.start_opt().unwrap(), ymd(2022, 4, 1));
    assert_eq!(interval.end_opt().unwrap(), ymd(2022, 6, 30));
}

#[test]
fn test_half_interval() {
    let interval = CalendarUnit::Half(2022, 2).into_interval();
    assert_eq!(interval.start_opt().unwrap(), ymd(2022, 7, 1));
    assert_eq!(interval.end_opt().unwrap(), ymd(2022, 12, 31));
}

#[test]
fn test_unit_intervals() {
    let year = CalendarUnit::Year(2024).into_interval();
    assert_eq!(year.start_opt(), Some(ymd(2024, 1, 1)));
    assert_eq!(year.end_opt(), Some(ymd(2024, 12, 31)));
    assert_eq!(year.duration(), Some(RelativeDuration::months(12)));

    let month = CalendarUnit::Month(2024, 2).into_interval();
    assert_eq!(month.start_opt(), Some(ymd(2024, 2, 1)));
    assert_eq!(month.end_opt(), Some(ymd(2024, 2, 29)));

    let week = CalendarUnit::Week(2015, 1).into_interval();
    assert_eq!(week.start_opt(), Some(ymd(2014, 12, 29)));
    assert_eq!(week.end_opt(), Some(ymd(2015, 1, 4)));
    assert_eq!(week.duration(), Some(RelativeDuration::days(7)));

    let week = CalendarUnit::Week(2015, 53).into_interval();
    assert_eq!(week.start_opt(), Some(ymd(2015, 12, 28)));
    assert_eq!(week.end_opt(), Some(ymd(2016, 1, 3)));
}

#[test]
fn test_unit_text() {
    assert_eq!(CalendarUnit::Year(2022).to_string(), "2022");
    assert_eq!(CalendarUnit::Quarter(2022, 1).to_string(), "2022-Q1");
    assert_eq!(CalendarUnit::Half(2022, 2).to_string(), "2022-H2");
    assert_eq!(CalendarUnit::Month(2022, 3).to_string(), "2022-03");
    assert_eq!(CalendarUnit::Month(2022, 12).to_string(), "2022-12");
    assert_eq!(CalendarUnit::Week(2022, 7).to_string(), "2022-W07");
    assert_eq!(CalendarUnit::Week(-5, 52).to_string(), "-5-W52");
}

#[test]
fn test_group_quarter() {
    assert_eq!(
        Grouping::from_date_for_quarter(ymd(2020, 2, 29)),
        Grouping::Quarter(2020, 1)
    );

    assert_eq!(
        Grouping::from_date_for_quarter(ymd(2022, 12, 31)),
        Grouping::Quarter(2022, 4)
    )
}

#[test]
fn test_group_quarter_interval() {
    let group = Grouping::from_date_for_quarter(ymd(2020, 2, 29));
    let interval = closed(group.into_interval());
    assert_eq!(interval.start(), ymd(2020, 1, 1));
    assert_eq!(interval.end(), ymd(2020, 3, 31));
}

#[test]
fn test_group_half() {
    assert_eq!(Grouping::from_date_for_half(ymd(2020, 6, 30)), Grouping::Half(2020, 1));
    assert_eq!(Grouping::from_date_for_half(ymd(2020, 7, 1)), Grouping::Half(2020, 2));
    assert_eq!(Grouping::from_date_for_half(ymd(2020, 12, 31)), Grouping::Half(2020, 2));
    let interval = closed(Grouping::Half(2020, 1).into_interval());
    assert_eq!(interval.start(), ymd(2020, 1, 1));
    assert_eq!(interval.end(), ymd(2020, 6, 30));
}

#[test]
fn test_grain_durations() {
    assert_eq!(Grain::Day.into_duration(), RelativeDuration::days(1));
    assert_eq!(Grain::Week.into_duration(), RelativeDuration::days(7));
    assert_eq!(Grain::Month.into_duration(), RelativeDuration::months(1));
    assert_eq!(Grain::Quarter.into_duration(), RelativeDuration::months(3));
    assert_eq!(Grain::Half.into_duration(), RelativeDuration::months(6));
    assert_eq!(Grain::Year.into_duration(), RelativeDuration::months(12));
}
