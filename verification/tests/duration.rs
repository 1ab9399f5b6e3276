use calends::duration::format::pluralize;
use calends::{Date, RelativeDuration};

fn ymd(year: i32, month: u32, day: u32) -> Date {
    Date::from_ymd_opt(year, month, day).unwrap()
}

#[test]
fn test_from_duration_transits_year() {
    let duration = RelativeDuration::from_duration_between(ymd(2022, 1, 1), ymd(2023, 1, 1));

    assert_eq!(ymd(2022, 1, 1) + duration, ymd(2023, 1, 1));
}

#[test]
fn test_from_duration_transits_month() {
    let duration = RelativeDuration::from_duration_between(ymd(2023, 3, 1), ymd(2023, 3, 31));

    assert_eq!(ymd(2023, 3, 1) + duration, ymd(2023, 3, 31));
}

#[test]
fn test_from_duration_transits_months_and_days() {
    let duration = RelativeDuration::from_duration_between(ymd(2023, 3, 1), ymd(2023, 4, 20));

    assert_eq!(ymd(2023, 3, 1) + duration, ymd(2023, 4, 20));
}

#[test]
fn test_from_duration_between_year() {
    let duration = RelativeDuration::from_duration_between(ymd(2022, 1, 1), ymd(2023, 1, 1));

    assert_eq!(duration.num_months(), 12);
    assert_eq!(duration.num_weeks(), 0);
    assert_eq!(duration.num_days(), 0);
}

#[test]
fn test_from_duration_between_month() {
    let duration = RelativeDuration::from_duration_between(ymd(2022, 1, 1), ymd(2022, 2, 1));

    assert_eq!(duration.num_months(), 1);
    assert_eq!(duration.num_days(), 0);
}

#[test]
fn test_from_duration_between_backwards() {
    let duration = RelativeDuration::from_duration_between(ymd(2023, 4, 20), ymd(2022, 6, 25));

    assert_eq!(duration.num_months(), -10);
    assert_eq!(duration.num_weeks(), 0);
    assert_eq!(duration.num_days(), 5);
}

#[test]
fn relative_test_display() {
    assert_eq!(
        RelativeDuration::weeks(4)
            .with_months(4)
            .with_days(32)
            .to_string(),
        String::from("4 months 4 weeks 32 days")
    );

    assert_eq!(RelativeDuration::zero().to_string(), String::from(""));

    assert_eq!(
        RelativeDuration::weeks(1)
            .with_months(1)
            .with_days(1)
            .to_string(),
        String::from("1 month 1 week 1 day")
    );

    assert_eq!(
        RelativeDuration::weeks(-1)
            .with_months(1)
            .with_days(1)
            .to_string(),
        String::from("1 month -1 week 1 day")
    )
}

#[test]
fn test_display_skips_zero_parts() {
    assert_eq!(RelativeDuration::days(-3).to_string(), "-3 days");
    assert_eq!(RelativeDuration::months(2).with_days(1).to_string(), "2 months 1 day");
    assert_eq!(RelativeDuration::weeks(10).to_string(), "10 weeks");
}

#[test]
fn relative_test_iso8601() {
    // - 'P5D' is a duration of 5 days
    assert_eq!(RelativeDuration::days(5).iso8601(), "P5D");
    // - 'P120M400D' is a duration of 120 months and 400 days
    assert_eq!(
        RelativeDuration::months(120).with_days(400).iso8601(),
        "P120M400D"
    );
    // - 'P-4M3W' is a duration of negative 4 months and positive 3 weeks, the minus sign can be
    // applied to each of the components within the serialization format
    assert_eq!(
        RelativeDuration::months(-4).with_weeks(3).iso8601(),
        "P-4M3W"
    );
}

#[test]
fn test_iso8601_of_zero() {
    assert_eq!(RelativeDuration::zero().iso8601(), "P");
    assert_eq!(
        RelativeDuration::default().with_days(1).with_months(23).with_weeks(-1).iso8601(),
        "P23M-1W1D"
    );
}

#[test]
fn test_pluralize() {
    assert_eq!(pluralize("month", 0), None);
    assert_eq!(pluralize("month", 1), Some(String::from("1 month")));
    assert_eq!(pluralize("month", -1), Some(String::from("-1 month")));
    assert_eq!(pluralize("week", 2), Some(String::from("2 weeks")));
    assert_eq!(pluralize("day", -1048575), Some(String::from("-1048575 days")));
}

#[test]
fn test_zero() {
    assert!(RelativeDuration::zero().is_zero());
}

#[test]
fn test_is_zero_only_for_zero() {
    assert!(!RelativeDuration::days(1).is_zero());
    assert!(!RelativeDuration::weeks(-1).is_zero());
    assert!(!RelativeDuration::months(1).is_zero());
    assert!(RelativeDuration::default().is_zero());
    assert!((-RelativeDuration::zero()).is_zero());
    assert_eq!(-RelativeDuration::zero(), RelativeDuration::zero());
}

#[test]
fn test_negate() {
    assert_eq!((-RelativeDuration::months(1)).num_months(), -1);
}

#[test]
fn test_subtract() {
    assert_eq!(
        RelativeDuration::months(1).with_weeks(1).with_days(1)
            - RelativeDuration::months(1).with_weeks(1).with_days(1),
        RelativeDuration::zero()
    );
}

#[test]
fn test_mul() {
    assert_eq!(
        RelativeDuration::months(1).with_weeks(1).with_days(1) * 2,
        RelativeDuration::months(2).with_weeks(2).with_days(2)
    );
}

#[test]
fn test_div() {
    assert_eq!(
        RelativeDuration::months(2).with_weeks(2).with_days(2) / 2,
        RelativeDuration::months(1).with_weeks(1).with_days(1)
    );
}

#[test]
fn test_div_rounds_towards_zero() {
    assert_eq!(
        RelativeDuration::from_mwd(7, -7, 1) / 2,
        RelativeDuration::from_mwd(3, -3, 0)
    );
    assert_eq!(
        RelativeDuration::from_mwd(7, -7, 1) / -2,
        RelativeDuration::from_mwd(-3, 3, 0)
    );
}

#[test]
fn test_month() {
    assert_eq!(RelativeDuration::months(1).num_months(), 1);
    assert_eq!(RelativeDuration::months(-1).num_months(), -1)
}

#[test]
fn test_week() {
    assert_eq!(RelativeDuration::weeks(1).num_weeks(), 1);
    assert_eq!(RelativeDuration::weeks(-1).num_weeks(), -1)
}

#[test]
fn test_day() {
    assert_eq!(RelativeDuration::days(1).num_days(), 1);
    assert_eq!(RelativeDuration::days(-1).num_days(), -1)
}

#[test]
fn test_add_year() {
    let rd = RelativeDuration::months(12);
    let next = ymd(2022, 1, 1) + rd;
    assert_eq!(next, ymd(2023, 1, 1));
}

#[test]
fn test_components_round_trip() {
    for (m, w, d) in [(0, 0, 0), (1, -2, 3), (-1048575, 1048575, -1), (1048575, 0, 1048575)] {
        let rd = RelativeDuration::from_mwd(m, w, d);
        assert_eq!(rd.num_months(), m);
        assert_eq!(rd.num_weeks(), w);
        assert_eq!(rd.num_days(), d);
        assert_eq!(RelativeDuration::from_raw(m, w, d), Some(rd));
    }
}

#[test]
fn test_from_raw_rejects_overflow() {
    assert_eq!(RelativeDuration::from_raw(1048576, 0, 0), None);
    assert_eq!(RelativeDuration::from_raw(0, -1048576, 0), None);
    assert_eq!(RelativeDuration::from_raw(0, 0, i32::MAX), None);
    assert_eq!(RelativeDuration::from_raw(i32::MIN, 0, 0), None);
    assert!(RelativeDuration::from_raw(1048575, -1048575, 1048575).is_some());
}

#[test]
fn test_additive_inverse() {
    for rd in [
        RelativeDuration::from_mwd(3, -2, 40),
        RelativeDuration::from_mwd(-1048575, 1048575, 0),
        RelativeDuration::zero(),
    ] {
        assert_eq!(rd + (-rd), RelativeDuration::zero());
    }
}

#[test]
fn test_scalar_law() {
    let rd = RelativeDuration::from_mwd(3, -2, 40);
    for k in [1, -1, 2, -7, 1000] {
        assert_eq!((rd * k) / k, rd);
    }
}

#[test]
fn test_no_carry_between_units() {
    let rd = RelativeDuration::days(40) + RelativeDuration::weeks(5);
    assert_eq!(rd.num_months(), 0);
    assert_eq!(rd.num_weeks(), 5);
    assert_eq!(rd.num_days(), 40);
}

#[test]
fn test_order_by_months_weeks_days() {
    assert!(RelativeDuration::months(1) > RelativeDuration::days(400));
    assert!(RelativeDuration::from_mwd(1, -1, 0) < RelativeDuration::from_mwd(1, 0, -5));
    assert!(RelativeDuration::from_mwd(0, 0, -1) < RelativeDuration::zero());
    assert_eq!(
        RelativeDuration::from_mwd(2, 3, 4).cmp(&RelativeDuration::from_mwd(2, 3, 4)),
        std::cmp::Ordering::Equal
    );
    assert_eq!(
        RelativeDuration::from_mwd(2, 3, 4).partial_cmp(&RelativeDuration::from_mwd(2, 4, 0)),
        Some(std::cmp::Ordering::Less)
    );
}

#[test]
fn test_apply_months_then_days() {
    // one month on and two days back from the first of January
    let rd = RelativeDuration::months(1).with_days(-2);
    assert_eq!(ymd(2022, 1, 1) + rd, ymd(2022, 1, 30));
    // the month shift comes first: the end of January becomes the end of February
    assert_eq!(ymd(2022, 1, 31) + rd, ymd(2022, 2, 26));
    assert_eq!(ymd(2022, 1, 1) + RelativeDuration::from_mwd(23, -1, 1), ymd(2023, 11, 25));
}

#[test]
fn test_month_shift_is_not_invertible() {
    assert_eq!(ymd(2022, 1, 31) + RelativeDuration::months(1), ymd(2022, 2, 28));
    // the last day of a month goes to the last day of the month reached
    assert_eq!(ymd(2022, 2, 28) + RelativeDuration::months(-1), ymd(2022, 1, 31));
    assert_eq!(ymd(2022, 1, 30) + RelativeDuration::months(1), ymd(2022, 2, 28));
    assert_ne!(
        (ymd(2022, 1, 30) + RelativeDuration::months(1)) + (-RelativeDuration::months(1)),
        ymd(2022, 1, 30)
    );
}

#[test]
fn test_checked_add() {
    let last = ymd(calends::date::MAX_YEAR, 12, 31);
    assert_eq!(last.checked_add(RelativeDuration::days(1)), None);
    assert_eq!(last.checked_add(RelativeDuration::months(1)), None);
    assert_eq!(
        last.checked_add(RelativeDuration::weeks(1).with_days(-7)),
        None
    );
    assert_eq!(last.checked_add(RelativeDuration::days(-1)), Some(ymd(calends::date::MAX_YEAR, 12, 30)));
    let first = ymd(calends::date::MIN_YEAR, 1, 1);
    assert_eq!(first.checked_add(RelativeDuration::days(-1)), None);
    assert_eq!(first.checked_add(RelativeDuration::zero()), Some(first));
    assert_eq!(
        ymd(2022, 1, 31).checked_add(RelativeDuration::months(1).with_days(-2)),
        Some(ymd(2022, 2, 26))
    );
}
