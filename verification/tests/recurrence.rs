use calends::event::Event;
use calends::recurrence::{RecurrenceError, Until};
use calends::{Date, Recurrence, RelativeDuration, Rule, Weekday};

fn ymd(year: i32, month: u32, day: u32) -> Date {
    Date::from_ymd_opt(year, month, day).unwrap()
}

#[test]
fn recur_test_recur_monthly_until_inclusive() {
    let date = ymd(2022, 1, 1);
    let end = ymd(2022, 3, 1);

    let mut recur = Recurrence::with_start(Rule::monthly(), date).until_and_including(end);
    assert_eq!(recur.next(), Some(ymd(2022, 1, 1)));
    assert_eq!(recur.next(), Some(ymd(2022, 2, 1)));
    assert_eq!(recur.next(), Some(ymd(2022, 3, 1)));
    assert_eq!(recur.next(), None);
}

#[test]
fn recur_test_recur_monthly_until_exclusive() {
    let date = ymd(2022, 1, 1);
    let end = ymd(2022, 3, 1);

    let mut recur = Recurrence::with_start(Rule::monthly(), date).until(end);
    assert_eq!(recur.next(), Some(ymd(2022, 1, 1)));
    assert_eq!(recur.next(), Some(ymd(2022, 2, 1)));
    assert_eq!(recur.next(), None);
}

#[test]
fn recur_test_recur_monthly() {
    let date = ymd(2022, 1, 1);

    let mut recur = Recurrence::with_start(Rule::monthly(), date);
    assert_eq!(recur.next(), Some(ymd(2022, 1, 1)));
    assert_eq!(recur.next(), Some(ymd(2022, 2, 1)));
}

#[test]
fn recur_test_recur_quarterly() {
    let date = ymd(2022, 1, 1);

    let mut recur = Recurrence::with_start(Rule::quarterly(), date);
    assert_eq!(recur.next(), Some(ymd(2022, 1, 1)));
    assert_eq!(recur.next(), Some(ymd(2022, 4, 1)));
}

#[test]
fn test_recur_other_rules() {
    let mut recur = Recurrence::with_start(Rule::biweekly(), ymd(2022, 1, 1));
    assert_eq!(recur.next(), Some(ymd(2022, 1, 1)));
    assert_eq!(recur.next(), Some(ymd(2022, 1, 15)));

    let mut recur = Recurrence::with_start(Rule::weekly(), ymd(2022, 1, 1));
    assert_eq!(recur.next(), Some(ymd(2022, 1, 1)));
    assert_eq!(recur.next(), Some(ymd(2022, 1, 8)));

    let mut recur = Recurrence::with_start(Rule::daily(), ymd(2022, 2, 28));
    assert_eq!(recur.next(), Some(ymd(2022, 2, 28)));
    assert_eq!(recur.next(), Some(ymd(2022, 3, 1)));

    // the end of a month stays the end of a month
    let mut recur = Recurrence::with_start(Rule::monthly(), ymd(2022, 1, 31));
    assert_eq!(recur.next(), Some(ymd(2022, 1, 31)));
    assert_eq!(recur.next(), Some(ymd(2022, 2, 28)));
    assert_eq!(recur.next(), Some(ymd(2022, 3, 31)));
}

#[test]
fn test_rules() {
    assert_eq!(Rule::quarterly(), Rule::Offset(RelativeDuration::months(3), 0));
    assert_eq!(Rule::monthly(), Rule::Offset(RelativeDuration::months(1), 0));
    assert_eq!(Rule::biweekly(), Rule::Offset(RelativeDuration::weeks(2), 0));
    assert_eq!(Rule::weekly(), Rule::Offset(RelativeDuration::weeks(1), 0));
    assert_eq!(Rule::daily(), Rule::Offset(RelativeDuration::days(1), 0));
    assert_eq!(Rule::monthly().supported(), Ok(()));
    assert_eq!(
        Rule::Occurence(RelativeDuration::months(1), 3, Weekday::Wed).supported(),
        Err(RecurrenceError::NotImplemented)
    );
}

#[test]
fn test_occurrence_rule_is_gated() {
    let rule = Rule::Occurence(RelativeDuration::months(1), 3, Weekday::Wed);
    let mut recur = Recurrence::with_start(rule, ymd(2022, 1, 1));
    assert!(recur.has_next());
    assert_eq!(recur.next(), None);
    assert_eq!(recur.next(), None);

    let rule = Rule::Occurence(RelativeDuration::months(1), -1, Weekday::Wed);
    let mut recur = Recurrence::with_start(rule, ymd(2022, 1, 1));
    assert_eq!(recur.next(), Some(ymd(2022, 1, 1)));
    assert_eq!(recur.next(), Some(ymd(2022, 2, 1)));
}

#[test]
fn test_try_with_start() {
    let rule = Rule::Occurence(RelativeDuration::months(1), 3, Weekday::Wed);
    assert_eq!(
        Recurrence::try_with_start(rule, ymd(2022, 1, 1)).err(),
        Some(RecurrenceError::NotImplemented)
    );
    let mut recur = Recurrence::try_with_start(Rule::daily(), ymd(2022, 1, 1)).unwrap();
    assert_eq!(recur.next(), Some(ymd(2022, 1, 1)));
    assert_eq!(recur.next(), Some(ymd(2022, 1, 2)));
}

#[test]
fn test_until_bounds() {
    let recur = Recurrence::with_start(Rule::monthly(), ymd(2022, 1, 1));
    let mut until = Until::exclusive(ymd(2022, 2, 15), recur);
    assert_eq!(until.next(), Some(ymd(2022, 1, 1)));
    assert_eq!(until.next(), Some(ymd(2022, 2, 1)));
    assert_eq!(until.next(), None);

    let mut until = Until::inclusive(ymd(2021, 12, 31), recur);
    assert_eq!(until.next(), None);
}

#[test]
fn test_recurrence_at_the_edge() {
    let last = ymd(calends::date::MAX_YEAR, 12, 1);
    let recur = Recurrence::with_start(Rule::monthly(), last);
    assert!(!recur.has_next());
    let recur = Recurrence::with_start(Rule::daily(), last);
    assert!(recur.has_next());
    assert!(recur.until(last).has_next());
}

#[test]
fn test_event_recurs() {
    let event = Event::new(ymd(2022, 5, 18));
    let mut recur = event.recur(Rule::weekly());
    assert_eq!(recur.next(), Some(ymd(2022, 5, 18)));
    assert_eq!(recur.next(), Some(ymd(2022, 5, 25)));
}

#[test]
fn test_collect_dates() {
    let date = ymd(2022, 1, 1);
    let end = ymd(2022, 3, 1);
    let mut recur = Recurrence::with_start(Rule::monthly(), date).until_and_including(end);
    assert_eq!(recur.collect(100), vec![ymd(2022, 1, 1), ymd(2022, 2, 1), ymd(2022, 3, 1)]);
    let mut recur = Recurrence::with_start(Rule::monthly(), date).until(end);
    assert_eq!(recur.collect(100), vec![ymd(2022, 1, 1), ymd(2022, 2, 1)]);
    let mut recur = Recurrence::with_start(Rule::monthly(), date).until(end);
    assert_eq!(recur.collect(1), vec![ymd(2022, 1, 1)]);
    assert_eq!(recur.collect(1), vec![ymd(2022, 2, 1)]);
    assert_eq!(recur.collect(1), vec![]);
}
