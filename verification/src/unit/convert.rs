//! From a date to the frame that holds it.

use crate::date::naive;
use crate::date::{iso_week_of, lemma_iso_week_unique, Date};
use crate::unit::domain::CalendarUnit;
use vstd::prelude::*;

verus! {

/// The calendar year that `date` lies in.
pub fn convert_to_year(date: Date) -> (r: CalendarUnit)
    ensures
        r == CalendarUnit::Year(date@.year as i32),
{
    CalendarUnit::Year(date.year())
}

/// The quarter that `date` lies in: months 1 to 3 make the first quarter.
pub fn convert_to_quarter(date: Date) -> (r: CalendarUnit)
    ensures
        r == CalendarUnit::Quarter(date@.year as i32, ((date@.month - 1) / 3 + 1) as u8),
        1 <= (date@.month - 1) / 3 + 1 <= 4,
{
    CalendarUnit::Quarter(date.year(), ((date.month() - 1) / 3 + 1) as u8)
}

/// The half of the year that `date` lies in: months 1 to 6 make the first
/// half.
pub fn convert_to_half(date: Date) -> (r: CalendarUnit)
    ensures
        r == CalendarUnit::Half(date@.year as i32, ((date@.month - 1) / 6 + 1) as u8),
        1 <= (date@.month - 1) / 6 + 1 <= 2,
{
    CalendarUnit::Half(date.year(), ((date.month() - 1) / 6 + 1) as u8)
}

/// The month that `date` lies in.
pub fn convert_to_month(date: Date) -> (r: CalendarUnit)
    ensures
        r == CalendarUnit::Month(date@.year as i32, date@.month as u8),
{
    CalendarUnit::Month(date.year(), date.month() as u8)
}

/// The week that `date` lies in: the number of its ISO 8601 week, beside
/// the calendar year of `date`. In the first and the last days of a year
/// that year can differ from the week's own year.
pub fn convert_to_iso_week(date: Date) -> (r: CalendarUnit)
    ensures
        r == CalendarUnit::Week(date@.year as i32, iso_week_of(date@.day_number()).1 as u8),
        1 <= iso_week_of(date@.day_number()).1 <= 53,
{
    let week = naive::iso_week(date);
    proof {
        lemma_iso_week_unique(date@.day_number(), week.0 as int, week.1 as int);
        crate::date::lemma_iso_week_bound(week.0 as int, week.1 as int);
    }
    CalendarUnit::Week(date.year(), week.1 as u8)
}

impl CalendarUnit {
    /// The calendar year that `date` lies in.
    pub fn from_date_for_year(date: Date) -> (r: CalendarUnit)
        ensures
            r == CalendarUnit::Year(date@.year as i32),
    {
        convert_to_year(date)
    }

    /// The half of the year that `date` lies in.
    pub fn from_date_for_half(date: Date) -> (r: CalendarUnit)
        ensures
            r == CalendarUnit::Half(date@.year as i32, ((date@.month - 1) / 6 + 1) as u8),
    {
        convert_to_half(date)
    }

    /// The quarter that `date` lies in.
    pub fn from_date_for_quarter(date: Date) -> (r: CalendarUnit)
        ensures
            r == CalendarUnit::Quarter(date@.year as i32, ((date@.month - 1) / 3 + 1) as u8),
    {
        convert_to_quarter(date)
    }

    /// The month that `date` lies in.
    pub fn from_date_for_month(date: Date) -> (r: CalendarUnit)
        ensures
            r == CalendarUnit::Month(date@.year as i32, date@.month as u8),
    {
        convert_to_month(date)
    }

    /// The week that `date` lies in.
    pub fn from_date_for_week(date: Date) -> (r: CalendarUnit)
        ensures
            r == CalendarUnit::Week(date@.year as i32, iso_week_of(date@.day_number()).1 as u8),
    {
        convert_to_iso_week(date)
    }
}

} // verus!
