//! Fixed frames of the calendar: years, halves, quarters, months and weeks.

pub mod convert;
pub mod domain;

pub use convert::{
    convert_to_half, convert_to_iso_week, convert_to_month, convert_to_quarter, convert_to_year,
};
pub use domain::CalendarUnit;
