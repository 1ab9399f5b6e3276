//! Calendar arithmetic: durations made of months, weeks and days, date
//! intervals that may be open on either side, and recurring date sequences.
//!
//! A [`RelativeDuration`] has no fixed length in days. Applied to a
//! [`Date`] it shifts by its months first, then by its weeks, then by its
//! days, so a duration of one month and minus two days leads from the
//! first of January to the thirtieth.
//!
//! An [`Interval`] is closed, or open on one side. A closed interval is
//! held as its first date and a duration; stepping through it gives
//! intervals of that duration that follow one another without gap or
//! overlap.
//!
//! A [`Recurrence`] gives the dates that follow from a first date by a
//! [`Rule`], and a [`CalendarUnit`] names a fixed frame of the calendar.

pub mod bound;
pub mod calendar;
pub mod date;
pub mod duration;
pub mod event;
pub mod grain;
pub mod grouping;
pub mod interval;
pub mod month_day;
pub mod parser;
pub mod recurrence;
pub mod text;
pub mod unit;
pub mod util;

pub use crate::date::{Date, Weekday};
pub use crate::duration::RelativeDuration;
pub use crate::interval::{Interval, IntervalLike};
pub use crate::recurrence::{Recurrence, Rule};
pub use crate::unit::CalendarUnit;
pub use crate::util::{
    add_biweek_duration, add_day, add_week_duration, add_year_duration, beginning_of_biweek,
    beginning_of_month, beginning_of_quarter, beginning_of_week, beginning_of_year,
    days_in_month, end_of_biweek, end_of_month, end_of_quarter, end_of_week, end_of_year,
    find_weekday_ascending, find_weekday_descending, month_end, quarter_month, shift_days,
    shift_months, shift_quarters, shift_weeks, shift_years, weeks_in_year,
};
