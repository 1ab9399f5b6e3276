//! Spans of dates, closed or open on one side.

pub mod base;
pub mod calendar;
pub mod closed;
pub mod iter;
pub mod laws;
pub mod like;
pub mod marker;
pub mod naive;
pub mod open;
pub mod parse;

pub use base::{Interval, IntervalError, IntervalWithEnd, IntervalWithStart};
pub use closed::ClosedInterval;
pub use iter::UntilAfter;
pub use like::IntervalLike;
pub use open::{OpenEndInterval, OpenStartInterval};
