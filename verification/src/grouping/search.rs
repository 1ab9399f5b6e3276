//! From a date to the quarter or half that holds it, and back to an
//! interval.

use crate::date::{Date, MAX_YEAR, MIN_YEAR};
use crate::grain::Grain;
use crate::interval::closed::ClosedInterval;
use crate::interval::Interval;
use crate::unit::domain::{first_of_month, last_of_month, lemma_months_end, of_months};
use vstd::prelude::*;

verus! {

/// A quarter or a half of a year. Unlike an interval, which may begin on
/// any day and have any length, a grouping is one of the fixed pieces
/// that years are cut into.
#[derive(Clone, Copy, Debug, PartialEq, Eq, Structural)]
pub enum Grouping {
    /// A quarter: the year, and 1 to 4.
    Quarter(i32, i8),
    /// A half: the year, and 1 or 2.
    Half(i32, i8),
}

impl Grouping {
    /// The year of the grouping.
    pub open spec fn year(self) -> int {
        match self {
            Grouping::Quarter(y, _) => y as int,
            Grouping::Half(y, _) => y as int,
        }
    }

    /// Number of months in a grouping of this kind.
    pub open spec fn months(self) -> int {
        match self {
            Grouping::Quarter(_, _) => 3,
            Grouping::Half(_, _) => 6,
        }
    }

    /// Place of the grouping in the year, from 1.
    pub open spec fn ordinal(self) -> int {
        match self {
            Grouping::Quarter(_, q) => q as int,
            Grouping::Half(_, h) => h as int,
        }
    }

    /// First month of the grouping.
    pub open spec fn first_month(self) -> int {
        (self.ordinal() - 1) * self.months() + 1
    }

    /// Whether the grouping can be made into an interval: it names a
    /// piece of a year that exists, and its days and the first day after
    /// it are days that a [`Date`] can hold.
    pub open spec fn has_interval(self) -> bool {
        &&& MIN_YEAR <= self.year() < MAX_YEAR
        &&& 1 <= self.ordinal()
        &&& self.ordinal() * self.months() <= 12
    }

    /// The quarter that `date` lies in.
    pub fn from_date_for_quarter(date: Date) -> (r: Self)
        ensures
            r == Grouping::Quarter(date@.year as i32, ((date@.month - 1) / 3 + 1) as i8),
            1 <= (date@.month - 1) / 3 + 1 <= 4,
    {
        Grouping::Quarter(date.year(), ((date.month() - 1) / 3 + 1) as i8)
    }

    /// The half of the year that `date` lies in.
    pub fn from_date_for_half(date: Date) -> (r: Self)
        ensures
            r == Grouping::Half(date@.year as i32, ((date@.month - 1) / 6 + 1) as i8),
            1 <= (date@.month - 1) / 6 + 1 <= 2,
    {
        Grouping::Half(date.year(), ((date.month() - 1) / 6 + 1) as i8)
    }

    /// The grouping as an interval: from its first day, with the duration
    /// of its grain, so that it ends on its last day.
    pub fn into_interval(&self) -> (r: Interval)
        requires
            self.has_interval(),
        ensures
            r matches Interval::Closed(c) && c.spec_start()@ == first_of_month(
                self.year(),
                self.first_month(),
            ) && c.spec_duration()@ == of_months(self.months()) && c.spec_end()@ == last_of_month(
                self.year(),
                self.first_month() + self.months() - 1,
            ),
    {
        let res = match self {
            Grouping::Quarter(year, quarter) => {
                let month: u32 = *quarter as u32 * 3 - 2;
                proof {
                    lemma_months_end(*year as int, month as int, 3);
                }
                ClosedInterval::from_start(
                    Date::from_ymd(*year, month, 1),
                    Grain::Quarter.into_duration(),
                )
            },
            Grouping::Half(year, half) => {
                let month: u32 = *half as u32 * 6 - 5;
                proof {
                    lemma_months_end(*year as int, month as int, 6);
                }
                ClosedInterval::from_start(
                    Date::from_ymd(*year, month, 1),
                    Grain::Half.into_duration(),
                )
            },
        };
        proof {
            crate::interval::closed::lemma_end(res);
        }
        Interval::Closed(res)
    }
}

} // verus!
