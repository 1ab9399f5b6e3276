//! Boundaries of the calendar periods that a date lies in.

use crate::date::naive;
use crate::date::{
    in_day_range, iso_week_of, lemma_day_number_unique, lemma_days_before_month_step,
    lemma_days_before_year_step, lemma_iso_week_unique, lemma_valid_in_day_range, month_len,
    weekday_index, Date, Weekday, Ymd, MAX_YEAR, MIN_YEAR,
};
use crate::util::shift::add_biweek_duration;
use vstd::prelude::*;

verus! {

/// Length in days of month `month` of `year`.
pub fn days_in_month(year: i32, month: u32) -> (r: u32)
    requires
        MIN_YEAR <= year <= MAX_YEAR,
        1 <= month <= 12,
    ensures
        r == month_len(year as int, month as int),
{
    if month == 12 && year == MAX_YEAR {
        return 31;
    }
    let next = if month == 12 {
        Date::from_ymd(year + 1, 1, 1)
    } else {
        Date::from_ymd(year, month + 1, 1)
    };
    let first = Date::from_ymd(year, month, 1);
    let days = naive::days_between(next, first);
    proof {
        lemma_days_before_month_step(year as int, month as int);
        lemma_days_before_year_step(year as int);
    }
    days as u32
}

/// Day number of the first day of month `month` of `year`.
pub open spec fn month_start_number(year: int, month: int) -> int {
    (Ymd { year, month, day: 1 }).day_number()
}

/// Day number of the last day of month `month` of `year`.
pub open spec fn month_end_number(year: int, month: int) -> int {
    (Ymd { year, month, day: month_len(year, month) }).day_number()
}

/// Number of days from a day at place `from` of its week forward to the
/// next day at place `to`, none where the places are the same.
pub open spec fn days_until_weekday(from: int, to: int) -> int {
    (to - from) % 7
}

/// The `occurrence`-th day of month `mm` of year `yy` that falls on
/// `weekday`, counted from the first day of the month on. An `occurrence`
/// of 0 counts as 1.
pub fn find_weekday_ascending(weekday: Weekday, yy: i32, mm: u32, occurrence: u32) -> (r: Date)
    requires
        MIN_YEAR <= yy <= MAX_YEAR,
        1 <= mm <= 12,
        in_day_range(
            month_start_number(yy as int, mm as int) + 6 + 7 * if occurrence > 1 {
                occurrence - 1
            } else {
                0
            },
        ),
    ensures
        r@.valid(),
        r@.day_number() == month_start_number(yy as int, mm as int) + days_until_weekday(
            weekday_index(month_start_number(yy as int, mm as int)),
            weekday.index(),
        ) + 7 * if occurrence > 1 {
            occurrence - 1
        } else {
            0
        },
{
    let anchor = Date::from_ymd(yy, mm, 1);
    let anchor_day = naive::weekday(anchor);
    let mut offset: u32 = (weekday.number_from_monday() + 7 - anchor_day.number_from_monday()) % 7;

    if occurrence > 1 {
        offset += 7 * (occurrence - 1);
    }
    proof {
        lemma_valid_in_day_range(anchor@);
    }
    naive::add_days(anchor, offset as i64).unwrap()
}

/// The `occurrence`-th day of month `mm` of year `yy` that falls on
/// `weekday`, counted from the last day of the month back. An `occurrence`
/// of 0 counts as 1.
pub fn find_weekday_descending(weekday: Weekday, yy: i32, mm: u32, occurrence: u32) -> (r: Date)
    requires
        MIN_YEAR <= yy <= MAX_YEAR,
        1 <= mm <= 12,
        in_day_range(
            month_end_number(yy as int, mm as int) - 6 - 7 * if occurrence > 1 {
                occurrence - 1
            } else {
                0
            },
        ),
    ensures
        r@.valid(),
        r@.day_number() == month_end_number(yy as int, mm as int) - days_until_weekday(
            weekday.index(),
            weekday_index(month_end_number(yy as int, mm as int)),
        ) - 7 * if occurrence > 1 {
            occurrence - 1
        } else {
            0
        },
{
    let anchor = month_end(yy, mm);
    let anchor_day = naive::weekday(anchor);
    let mut offset: u32 = (anchor_day.number_from_monday() + 7 - weekday.number_from_monday()) % 7;

    if occurrence > 1 {
        offset += 7 * (occurrence - 1);
    }
    proof {
        lemma_valid_in_day_range(anchor@);
    }
    naive::add_days(anchor, -(offset as i64)).unwrap()
}

/// Number of the ISO 8601 week that the last day of the year of `date`
/// lies in: 52 or 53, or 1 where that day belongs to the first week of
/// the year after.
pub fn weeks_in_year(date: &Date) -> (r: u32)
    ensures
        r == iso_week_of((Ymd { year: date@.year, month: 12, day: 31 }).day_number()).1,
{
    let last = Date::from_ymd(date.year(), 12, 31);
    let week = naive::iso_week(last);
    proof {
        lemma_iso_week_unique(last@.day_number(), week.0 as int, week.1 as int);
    }
    week.1
}

/// First month of the quarter that `date` lies in: 1, 4, 7 or 10.
pub fn quarter_month(date: &Date) -> (r: u32)
    ensures
        r == 1 + 3 * ((date@.month - 1) / 3),
{
    1 + 3 * ((date.month() - 1) / 3)
}

/// Last day of month `mm` of year `yy`.
pub fn month_end(yy: i32, mm: u32) -> (r: Date)
    requires
        MIN_YEAR <= yy <= MAX_YEAR,
        1 <= mm <= 12,
    ensures
        r@ == (Ymd { year: yy as int, month: mm as int, day: month_len(yy as int, mm as int) }),
{
    if mm == 12 && yy == MAX_YEAR {
        return Date::from_ymd(yy, 12, 31);
    }
    let next = if mm == 12 {
        Date::from_ymd(yy + 1, 1, 1)
    } else {
        Date::from_ymd(yy, mm + 1, 1)
    };
    let ghost last = Ymd { year: yy as int, month: mm as int, day: month_len(yy as int, mm as int) };
    proof {
        lemma_days_before_month_step(yy as int, mm as int);
        lemma_days_before_year_step(yy as int);
        lemma_valid_in_day_range(last);
        assert(next@.day_number() - 1 == last.day_number());
    }
    let before = naive::pred(next);
    let r = before.unwrap();
    proof {
        lemma_day_number_unique(r@, last);
    }
    r
}

/// First day of the quarter that `d` lies in.
pub fn beginning_of_quarter(d: &Date) -> (r: Date)
    ensures
        r@ == (Ymd { year: d@.year, month: 1 + 3 * ((d@.month - 1) / 3), day: 1 }),
{
    let month = quarter_month(d);
    Date::from_ymd(d.year(), month, 1)
}

/// First day of the year that `d` lies in.
pub fn beginning_of_year(d: &Date) -> (r: Date)
    ensures
        r@ == (Ymd { year: d@.year, month: 1, day: 1 }),
{
    Date::from_ymd(d.year(), 1, 1)
}

/// First day of the month that `d` lies in.
pub fn beginning_of_month(d: &Date) -> (r: Date)
    ensures
        r@ == d@.month_start(),
{
    Date::from_ymd(d.year(), d.month(), 1)
}

/// Day number of the Monday of the week that day number `n` lies in.
pub open spec fn week_start_number(n: int) -> int {
    n - weekday_index(n)
}

/// Day number of the first day of the biweek that day number `n` lies in. A
/// biweek is an odd ISO 8601 week and the even one after it; it begins on
/// the Monday of the odd week.
pub open spec fn biweek_start_number(n: int) -> int {
    if iso_week_of(n).1 % 2 == 0 {
        week_start_number(n) - 7
    } else {
        week_start_number(n)
    }
}

/// First day of the biweek that `d` lies in.
pub fn beginning_of_biweek(d: &Date) -> (r: Date)
    requires
        in_day_range(biweek_start_number(d@.day_number())),
    ensures
        r@.valid(),
        r@.day_number() == biweek_start_number(d@.day_number()),
{
    let date = *d;
    let week = naive::iso_week(date);
    proof {
        use_type_invariant(&date);
        lemma_valid_in_day_range(date@);
        lemma_iso_week_unique(date@.day_number(), week.0 as int, week.1 as int);
    }
    let monday = naive::from_isoywd(week.0, week.1, Weekday::Mon).unwrap();
    if week.1 % 2 == 0 {
        naive::add_days(monday, -7).unwrap()
    } else {
        monday
    }
}

/// The Monday of the week that `d` lies in.
pub fn beginning_of_week(d: &Date) -> (r: Date)
    requires
        in_day_range(week_start_number(d@.day_number())),
    ensures
        r@.valid(),
        r@.day_number() == week_start_number(d@.day_number()),
{
    let week = naive::iso_week(*d);
    naive::from_isoywd(week.0, week.1, Weekday::Mon).unwrap()
}

/// Last day of the year that `d` lies in.
pub fn end_of_year(d: &Date) -> (r: Date)
    ensures
        r@ == (Ymd { year: d@.year, month: 12, day: 31 }),
{
    Date::from_ymd(d.year(), 12, 31)
}

/// Last day of the month that `d` lies in.
pub fn end_of_month(d: &Date) -> (r: Date)
    ensures
        r@ == d@.month_end(),
{
    let month = d.month();
    let year = d.year();
    let days_in_month = days_in_month(year, month);
    Date::from_ymd(year, month, days_in_month)
}

/// Last day of the quarter that `d` lies in.
pub fn end_of_quarter(d: &Date) -> (r: Date)
    ensures
        r@ == (Ymd {
            year: d@.year,
            month: 3 + 3 * ((d@.month - 1) / 3),
            day: month_len(d@.year, 3 + 3 * ((d@.month - 1) / 3)),
        }),
{
    let first = beginning_of_quarter(d);
    month_end(first.year(), first.month() + 2)
}

/// Last day of the biweek that `d` lies in.
pub fn end_of_biweek(d: &Date) -> (r: Date)
    requires
        in_day_range(biweek_start_number(d@.day_number())),
        in_day_range(biweek_start_number(d@.day_number()) + 14),
    ensures
        r@.valid(),
        r@.day_number() == biweek_start_number(d@.day_number()) + 13,
{
    let next = add_biweek_duration(beginning_of_biweek(d));
    naive::pred(next).unwrap()
}

/// The Sunday of the week that `d` lies in.
pub fn end_of_week(d: &Date) -> (r: Date)
    requires
        in_day_range(week_start_number(d@.day_number()) + 6),
    ensures
        r@.valid(),
        r@.day_number() == week_start_number(d@.day_number()) + 6,
{
    let week = naive::iso_week(*d);
    naive::from_isoywd(week.0, week.1, Weekday::Sun).unwrap()
}

} // verus!
