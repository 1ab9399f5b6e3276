//! Marks for the intervals that have a first date, and for those that have
//! a last date.

use crate::date::Date;
use crate::interval::like::IntervalLike;
use vstd::prelude::*;

verus! {

/// Implemented by the intervals that have a lower bound.
pub trait Start: IntervalLike {
    /// The first date of the interval.
    fn start(&self) -> (r: Date)
        requires
            !(self.lower() is Unbounded),
        ensures
            Some(r) == crate::interval::like::bound_value(self.lower()),
    {
        self.start_opt().unwrap()
    }
}

/// Implemented by the intervals that have an upper bound.
pub trait End: IntervalLike {
    /// The last date of the interval.
    fn end(&self) -> (r: Date)
        requires
            !(self.upper() is Unbounded),
        ensures
            Some(r) == crate::interval::like::bound_value(self.upper()),
    {
        self.end_opt().unwrap()
    }
}

} // verus!
