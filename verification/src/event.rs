//! Something that happens on a date and may happen again.

use crate::date::Date;
use crate::recurrence::{Recurrence, Rule};
use vstd::prelude::*;

verus! {

/// An event on a date.
#[derive(Clone, Copy, Debug)]
pub struct Event(Date);

impl Event {
    /// The date of the event, as contracts read it.
    pub closed spec fn spec_date(&self) -> Date {
        self.0
    }

    /// The event on `date`.
    pub fn new(date: Date) -> (r: Self)
        ensures
            r.spec_date() == date,
    {
        Self(date)
    }

    /// The dates on which the event happens when it repeats by `rule`.
    pub fn recur(&self, rule: Rule) -> (r: Recurrence)
        ensures
            r.spec_rule() == rule,
            r.spec_date() == self.spec_date(),
            r.spec_count() == 0,
    {
        Recurrence::with_start(rule, self.0)
    }
}

} // verus!
