//! Durations counted in months, weeks and days.

pub mod format;
pub mod laws;
pub mod order;
pub mod parse;
pub mod relative;

pub use relative::RelativeDuration;
