//! Intervals that have only one bound.

use crate::bound::Bound;
use crate::date::Date;
use crate::duration::RelativeDuration;
use crate::interval::like::IntervalLike;
use crate::interval::marker::{End, Start};
use vstd::prelude::*;

verus! {

/// The dates up to and including a last one.
#[derive(Clone, Copy, Debug, PartialEq, Eq, Structural)]
pub struct OpenStartInterval {
    end: Date,
}

impl OpenStartInterval {
    /// The last date, as contracts read it.
    pub closed spec fn spec_end(&self) -> Date {
        self.end
    }

    /// The interval of all dates up to and including `end`.
    pub fn new(end: Date) -> (r: Self)
        ensures
            r.spec_end() == end,
    {
        Self { end }
    }
}

impl IntervalLike for OpenStartInterval {
    open spec fn lower(&self) -> Bound<Date> {
        Bound::Unbounded
    }

    open spec fn upper(&self) -> Bound<Date> {
        Bound::Included(self.spec_end())
    }

    open spec fn step(&self) -> Option<RelativeDuration> {
        None
    }

    fn bound_start(&self) -> (r: Bound<Date>) {
        Bound::Unbounded
    }

    fn bound_end(&self) -> (r: Bound<Date>) {
        Bound::Included(self.end)
    }

    fn duration(&self) -> (r: Option<RelativeDuration>) {
        None
    }
}

impl End for OpenStartInterval {

}

/// The dates from a first one on.
#[derive(Clone, Copy, Debug, PartialEq, Eq, Structural)]
pub struct OpenEndInterval {
    start: Date,
}

impl OpenEndInterval {
    /// The first date, as contracts read it.
    pub closed spec fn spec_start(&self) -> Date {
        self.start
    }

    /// The interval of all dates from `start` on.
    pub fn new(start: Date) -> (r: Self)
        ensures
            r.spec_start() == start,
    {
        Self { start }
    }
}

impl IntervalLike for OpenEndInterval {
    open spec fn lower(&self) -> Bound<Date> {
        Bound::Included(self.spec_start())
    }

    open spec fn upper(&self) -> Bound<Date> {
        Bound::Unbounded
    }

    open spec fn step(&self) -> Option<RelativeDuration> {
        None
    }

    fn bound_start(&self) -> (r: Bound<Date>) {
        Bound::Included(self.start)
    }

    fn bound_end(&self) -> (r: Bound<Date>) {
        Bound::Unbounded
    }

    fn duration(&self) -> (r: Option<RelativeDuration>) {
        None
    }
}

impl Start for OpenEndInterval {

}

} // verus!
