//! Date primitives: boundaries of calendar periods and shifts by whole
//! months, weeks and days.

pub mod search;
pub mod shift;

pub use search::{
    beginning_of_biweek, beginning_of_month, beginning_of_quarter, beginning_of_week,
    beginning_of_year, days_in_month, end_of_biweek, end_of_month, end_of_quarter, end_of_week,
    end_of_year, find_weekday_ascending, find_weekday_descending, month_end, quarter_month,
    weeks_in_year,
};
pub use shift::{
    add_biweek_duration, add_day, add_week_duration, add_year_duration, shift_days, shift_months,
    shift_quarters, shift_weeks, shift_years,
};
