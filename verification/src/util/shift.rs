//! Shifts of a date by whole months, weeks and days.

use crate::date::naive;
use crate::date::{in_day_range, month_len, Date, Ymd, MAX_YEAR, MIN_YEAR};
use crate::util::search::month_end;
use vstd::prelude::*;

verus! {

/// The date `months` months after `a` (before it, for a negative count).
///
/// The day of the month is kept where the target month has it. The last day
/// of a month goes to the last day of the target month, and so does a day
/// that the target month is too short for.
pub open spec fn months_later(a: Ymd, months: int) -> Ymd {
    let total = a.month - 1 + months;
    let year = a.year + total / 12;
    let month = total % 12 + 1;
    let last = month_len(year, month);
    Ymd { year, month, day: if a.is_month_end() || a.day > last { last } else { a.day } }
}

/// Whether the month that lies `months` months after `a` is one that a
/// [`Date`] can hold.
pub open spec fn can_shift_months(a: Ymd, months: int) -> bool {
    MIN_YEAR <= a.year + (a.month - 1 + months) / 12 <= MAX_YEAR
}

/// Two shifts by months, one after the other, are one shift by the sum
/// of the months, where the day of the month is none of the last days
/// that a month may lack or end on.
pub proof fn lemma_shift_compose(a: Ymd, first: int, second: int)
    requires
        1 <= a.month <= 12,
        1 <= a.day <= 27,
    ensures
        months_later(months_later(a, first), second) == months_later(a, first + second),
{
    let t1 = a.month - 1 + first;
    let there = months_later(a, first);
    assert(there.day == a.day && there.month == t1 % 12 + 1 && there.year == a.year + t1 / 12);
    let t2 = there.month - 1 + second;
    let t = a.month - 1 + first + second;
    assert(t == 12 * (t1 / 12 + t2 / 12) + t2 % 12) by {
        vstd::arithmetic::div_mod::lemma_fundamental_div_mod(t1, 12);
        vstd::arithmetic::div_mod::lemma_fundamental_div_mod(t2, 12);
    }
    assert(t / 12 == t1 / 12 + t2 / 12 && t % 12 == t2 % 12) by {
        vstd::arithmetic::div_mod::lemma_fundamental_div_mod_converse(
            t,
            12,
            t1 / 12 + t2 / 12,
            t2 % 12,
        );
    }
}

/// A shift by months is undone by the opposite shift where the day of the
/// month is none of the last days that a month may lack or end on. From
/// the 28th on that does not hold: the 30th of January goes to the 28th of
/// February, the last day of its month, and from there back to the 31st.
pub proof fn lemma_shift_back(a: Ymd, months: int)
    requires
        1 <= a.month <= 12,
        1 <= a.day <= 27,
    ensures
        months_later(months_later(a, months), -months) == a,
{
    lemma_shift_compose(a, months, -months);
}

/// Shifts `date` by `months` months; a month has no fixed number of days.
pub fn shift_months(date: Date, months: i32) -> (r: Date)
    requires
        can_shift_months(date@, months as int),
    ensures
        r@ == months_later(date@, months as int),
{
    let from_month: i32 = date.month() as i32;
    let mut year: i32 = date.year() + (from_month + months) / 12;
    let mut month: i32 = (from_month + months) % 12;

    if month < 1 {
        year -= 1;
        month += 12;
    }
    let date_end_of_month = month_end(date.year(), date.month());
    let target_end = month_end(year, month as u32);
    let day = if date_end_of_month.day() == date.day() {
        // the last day of a month stays the last day of a month
        target_end.day()
    } else if date.day() < target_end.day() {
        date.day()
    } else {
        target_end.day()
    };
    Date::from_ymd(year, month as u32, day)
}

/// Shifts `date` by `months` months, or gives `None` where the month so
/// reached is beyond the years that a [`Date`] can hold.
pub fn checked_shift_months(date: Date, months: i32) -> (r: Option<Date>)
    ensures
        r.is_some() <==> can_shift_months(date@, months as int),
        r matches Some(d) ==> d@ == months_later(date@, months as int),
{
    let total: i64 = date.month() as i64 - 1 + months as i64;
    let years: i64 = if total >= 0 {
        total / 12
    } else {
        -((11 - total) / 12)
    };
    let year: i64 = date.year() as i64 + years;
    if year < MIN_YEAR as i64 || year > MAX_YEAR as i64 {
        None
    } else {
        Some(shift_months(date, months))
    }
}

/// Shifts `date` by `quarters` quarters of a year.
pub fn shift_quarters(date: Date, quarters: i32) -> (r: Date)
    requires
        can_shift_months(date@, 3 * quarters),
    ensures
        r@ == months_later(date@, 3 * quarters),
{
    proof {
        use_type_invariant(&date);
    }
    shift_months(date, 3 * quarters)
}

/// Shifts `date` by `years` years.
pub fn shift_years(date: Date, years: i32) -> (r: Date)
    requires
        can_shift_months(date@, 12 * years),
    ensures
        r@ == months_later(date@, 12 * years),
{
    proof {
        use_type_invariant(&date);
    }
    shift_months(date, years * 12)
}

/// Shifts `date` by `delta` weeks.
pub fn shift_weeks(date: Date, delta: i32) -> (r: Date)
    requires
        in_day_range(date@.day_number() + 7 * delta),
    ensures
        r@.valid(),
        r@.day_number() == date@.day_number() + 7 * delta,
{
    naive::add_days(date, 7 * (delta as i64)).unwrap()
}

/// Shifts `date` by `days` days.
pub fn shift_days(date: Date, days: i32) -> (r: Date)
    requires
        in_day_range(date@.day_number() + days),
    ensures
        r@.valid(),
        r@.day_number() == date@.day_number() + days,
{
    naive::add_days(date, days as i64).unwrap()
}

/// The same day and month one year later.
pub fn add_year_duration(date: Date) -> (r: Date)
    requires
        (Ymd { year: date@.year + 1, month: date@.month, day: date@.day }).valid(),
    ensures
        r@ == (Ymd { year: date@.year + 1, month: date@.month, day: date@.day }),
{
    Date::from_ymd(date.year() + 1, date.month(), date.day())
}

/// The day one week after `date`.
pub fn add_week_duration(date: Date) -> (r: Date)
    requires
        in_day_range(date@.day_number() + 7),
    ensures
        r@.valid(),
        r@.day_number() == date@.day_number() + 7,
{
    naive::add_days(date, 7).unwrap()
}

/// The day two weeks after `date`.
pub fn add_biweek_duration(date: Date) -> (r: Date)
    requires
        in_day_range(date@.day_number() + 14),
    ensures
        r@.valid(),
        r@.day_number() == date@.day_number() + 14,
{
    naive::add_days(date, 14).unwrap()
}

/// The day after `date`.
pub fn add_day(date: Date) -> (r: Date)
    requires
        in_day_range(date@.day_number() + 1),
    ensures
        r@.valid(),
        r@.day_number() == date@.day_number() + 1,
{
    naive::add_days(date, 1).unwrap()
}

} // verus!
