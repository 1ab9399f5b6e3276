//! A calendar whose year may begin in another month than January.

use crate::date::Date;
use crate::month_day::MonthDay;
use crate::util::shift::{can_shift_months, months_later, shift_months};
use vstd::prelude::*;

verus! {

/// A calendar, given by the month and day on which its year begins.
#[derive(Clone, Copy, Debug)]
pub struct Calendar {
    /// First day of the year of this calendar.
    pub year_start: MonthDay,
}

impl Calendar {
    /// Number of months by which this calendar runs ahead of the common
    /// one.
    pub open spec fn lead(&self) -> int {
        13 - self.year_start.spec_month()
    }

    /// Whether a date can be placed in this calendar: the year begins in a
    /// month that exists, and the date moved to this calendar is one that
    /// a [`Date`] can hold.
    pub open spec fn places(&self, date: Date) -> bool {
        self.year_start.spec_month() <= 13 && can_shift_months(date@, self.lead())
    }

    /// The calendar whose year begins on `year_start`.
    pub fn new(year_start: MonthDay) -> (r: Self)
        ensures
            r.year_start == year_start,
    {
        Self { year_start }
    }

    /// The common calendar, whose year begins on the first of January.
    pub fn calendar_year() -> (r: Self)
        ensures
            r.year_start.spec_month() == 1,
            r.year_start.spec_day() == 1,
    {
        Calendar { year_start: MonthDay::new(1, 1) }
    }

    /// Month of this calendar that `date` lies in: 1 for the month in
    /// which the year of the calendar begins.
    pub fn month(&self, date: Date) -> (r: u32)
        requires
            self.places(date),
        ensures
            r == months_later(date@, self.lead()).month,
    {
        shift_months(date, (13 - self.year_start.month()) as i32).month()
    }

    /// Year of this calendar that `date` lies in.
    pub fn year(&self, date: Date) -> (r: i32)
        requires
            self.places(date),
        ensures
            r == months_later(date@, self.lead()).year,
    {
        shift_months(date, (13 - self.year_start.month()) as i32).year()
    }

    /// The beginning of the quarter of this calendar that `date` lies in.
    /// Quarters of a calendar other than the common one are not worked out:
    /// the date itself is given back.
    pub fn beginning_of_quarter(&self, date: Date) -> (r: Date)
        requires
            self.places(date),
        ensures
            r == date,
    {
        let _quarter_start = 1 + 3 * ((self.month(date) - 1) / 3);
        date
    }
}

} // verus!
