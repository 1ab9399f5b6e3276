//! Dates that repeat by a rule.

pub mod laws;
pub mod recur;
pub mod until;

pub use recur::{Recurrence, RecurrenceError, Rule};
pub use until::Until;
