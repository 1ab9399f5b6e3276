//! Groupings of dates into quarters and halves of a year.

pub mod search;

pub use search::Grouping;
