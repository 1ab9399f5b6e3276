//! The calls into `chrono` that the date arithmetic rests on. Each function
//! here hands a [`Date`] to `chrono::NaiveDate` and back; its contract is
//! taken on trust from chrono's documentation and is not proved.

use super::{
    date_text, in_day_range, in_iso_week, iso_date_exists, iso_day_number, weekday_index, Date,
    Weekday,
};
use chrono::Datelike;
use vstd::prelude::*;

verus! {

/// `NaiveDate::checked_add_signed` with `TimeDelta::try_days`: the date that
/// lies `days` days after `date` (before it, for a negative count), and
/// `None` exactly where that day is outside the range of dates.
#[verifier::external_body]
pub(crate) fn add_days(date: Date, days: i64) -> (r: Option<Date>)
    ensures
        r.is_some() <==> in_day_range(date@.day_number() + days),
        r matches Some(d) ==> d@.valid() && d@.day_number() == date@.day_number() + days,
{
    let naive = chrono::NaiveDate::from_ymd_opt(date.year, date.month, date.day)?;
    let moved = naive.checked_add_signed(chrono::TimeDelta::try_days(days)?)?;
    Some(Date { year: moved.year(), month: moved.month(), day: moved.day() })
}

/// `NaiveDate::pred_opt`: the day before `date`, and `None` exactly where
/// `date` is the first date there is.
#[verifier::external_body]
pub(crate) fn pred(date: Date) -> (r: Option<Date>)
    ensures
        r.is_some() <==> in_day_range(date@.day_number() - 1),
        r matches Some(d) ==> d@.valid() && d@.day_number() == date@.day_number() - 1,
{
    let naive = chrono::NaiveDate::from_ymd_opt(date.year, date.month, date.day)?;
    let moved = naive.pred_opt()?;
    Some(Date { year: moved.year(), month: moved.month(), day: moved.day() })
}

/// `NaiveDate::succ_opt`: the day after `date`, and `None` exactly where
/// `date` is the last date there is.
#[verifier::external_body]
pub(crate) fn succ(date: Date) -> (r: Option<Date>)
    ensures
        r.is_some() <==> in_day_range(date@.day_number() + 1),
        r matches Some(d) ==> d@.valid() && d@.day_number() == date@.day_number() + 1,
{
    let naive = chrono::NaiveDate::from_ymd_opt(date.year, date.month, date.day)?;
    let moved = naive.succ_opt()?;
    Some(Date { year: moved.year(), month: moved.month(), day: moved.day() })
}

/// `NaiveDate::signed_duration_since` with `TimeDelta::num_days`: the number
/// of days from `earlier` to `later`, negative where `later` comes first.
#[verifier::external_body]
pub(crate) fn days_between(later: Date, earlier: Date) -> (r: i64)
    ensures
        r == later@.day_number() - earlier@.day_number(),
{
    let a = chrono::NaiveDate::from_ymd_opt(later.year, later.month, later.day).unwrap();
    let b = chrono::NaiveDate::from_ymd_opt(earlier.year, earlier.month, earlier.day).unwrap();
    a.signed_duration_since(b).num_days()
}

/// `Datelike::weekday`: the day of the week that `date` falls on.
#[verifier::external_body]
pub(crate) fn weekday(date: Date) -> (r: Weekday)
    ensures
        r.index() == weekday_index(date@.day_number()),
{
    let naive = chrono::NaiveDate::from_ymd_opt(date.year, date.month, date.day).unwrap();
    match naive.weekday() {
        chrono::Weekday::Mon => Weekday::Mon,
        chrono::Weekday::Tue => Weekday::Tue,
        chrono::Weekday::Wed => Weekday::Wed,
        chrono::Weekday::Thu => Weekday::Thu,
        chrono::Weekday::Fri => Weekday::Fri,
        chrono::Weekday::Sat => Weekday::Sat,
        chrono::Weekday::Sun => Weekday::Sun,
    }
}

/// `Datelike::iso_week` with `IsoWeek::year` and `IsoWeek::week`: the ISO 8601
/// week year and week number of the week that `date` lies in. The year may
/// differ from the calendar year of `date` by one.
#[verifier::external_body]
pub(crate) fn iso_week(date: Date) -> (r: (i32, u32))
    ensures
        in_iso_week(date@.day_number(), r.0 as int, r.1 as int),
{
    let naive = chrono::NaiveDate::from_ymd_opt(date.year, date.month, date.day).unwrap();
    let week = naive.iso_week();
    (week.year(), week.week())
}

/// `NaiveDate::from_isoywd_opt`: the date that falls on `weekday` in week
/// `week` of the ISO 8601 week year `year`, and `None` exactly where that
/// year has no such week or the day is outside the range of dates.
#[verifier::external_body]
pub(crate) fn from_isoywd(year: i32, week: u32, weekday: Weekday) -> (r: Option<Date>)
    requires
        i32::MIN < year < i32::MAX,
    ensures
        r.is_some() <==> iso_date_exists(year as int, week as int, weekday.index()),
        r matches Some(d) ==> d@.valid() && d@.day_number() == iso_day_number(year as int, week as int, weekday.index()),
{
    let day = match weekday {
        Weekday::Mon => chrono::Weekday::Mon,
        Weekday::Tue => chrono::Weekday::Tue,
        Weekday::Wed => chrono::Weekday::Wed,
        Weekday::Thu => chrono::Weekday::Thu,
        Weekday::Fri => chrono::Weekday::Fri,
        Weekday::Sat => chrono::Weekday::Sat,
        Weekday::Sun => chrono::Weekday::Sun,
    };
    let naive = chrono::NaiveDate::from_isoywd_opt(year, week, day)?;
    Some(Date { year: naive.year(), month: naive.month(), day: naive.day() })
}

/// `Display` of `NaiveDate`: the date in the form `2022-01-31`. A year
/// outside 0 to 9999 is written with its sign.
#[verifier::external_body]
pub(crate) fn to_text(date: Date) -> (r: String)
    ensures
        r@ == date_text(date@),
{
    let naive = chrono::NaiveDate::from_ymd_opt(date.year, date.month, date.day).unwrap();
    naive.to_string()
}

} // verus!
