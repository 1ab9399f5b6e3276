//! An interval given by its two bounds and nothing else.

use crate::bound::{cmp_range, range_order, Bound};
use crate::date::naive;
use crate::date::{date_text, Date};
use crate::duration::relative::{applied, can_apply};
use crate::duration::RelativeDuration;
use crate::interval::like::IntervalLike;
use std::cmp::Ordering;
use vstd::prelude::*;
use vstd::std_specs::cmp::PartialOrdSpecImpl;
use vstd::string::StringExecFns;

verus! {

/// An interval as its lower and its upper bound.
#[derive(Debug, PartialEq, Eq, Clone, Copy)]
pub struct NaiveInterval {
    /// The lower bound.
    pub start: Bound<Date>,
    /// The upper bound.
    pub end: Bound<Date>,
}

/// A bound as text: its kind, and its date in brackets where it has one.
pub open spec fn bound_words(b: Bound<Date>) -> Seq<char> {
    match b {
        Bound::Included(d) => "Included("@ + date_text(d@) + seq![')'],
        Bound::Excluded(d) => "Excluded("@ + date_text(d@) + seq![')'],
        Bound::Unbounded => "Unbounded"@,
    }
}

/// A bound as text.
fn bound_to_words(b: Bound<Date>) -> (r: String)
    ensures
        r@ == bound_words(b),
{
    match b {
        Bound::Included(d) => {
            let mut s = String::from_str("Included(");
            s.append(naive::to_text(d).as_str());
            proof {
                reveal_strlit(")");
                assert(")"@ =~= seq![')']);
            }
            s.append(")");
            s
        },
        Bound::Excluded(d) => {
            let mut s = String::from_str("Excluded(");
            s.append(naive::to_text(d).as_str());
            proof {
                reveal_strlit(")");
                assert(")"@ =~= seq![')']);
            }
            s.append(")");
            s
        },
        Bound::Unbounded => String::from_str("Unbounded"),
    }
}

impl NaiveInterval {
    /// The interval from `start` to `end`.
    pub fn new(start: Bound<Date>, end: Bound<Date>) -> (r: Self)
        ensures
            r.start == start,
            r.end == end,
    {
        Self { start, end }
    }

    /// The lower bound.
    pub fn start(&self) -> (r: Bound<Date>)
        ensures
            r == self.start,
    {
        self.start
    }

    /// The upper bound.
    pub fn end(&self) -> (r: Bound<Date>)
        ensures
            r == self.end,
    {
        self.end
    }

    /// The order of intervals: by their lower bounds, and by their upper
    /// bounds where the lower ones are the same.
    pub fn cmp(&self, other: &Self) -> (r: Ordering)
        ensures
            r == range_order((self.start, self.end), (other.start, other.end)),
    {
        cmp_range((&self.start(), &self.end()), (&other.start(), &other.end()))
    }

    /// The interval in words: its two bounds with ` to ` between them.
    pub fn to_string(&self) -> (r: String)
        ensures
            r@ == bound_words(self.start) + " to "@ + bound_words(self.end),
    {
        let mut s = bound_to_words(self.start);
        s.append(" to ");
        s.append(bound_to_words(self.end).as_str());
        s
    }
}

impl RelativeDuration {
    /// The interval from `start_date` to the date that it becomes under
    /// this duration, both of them in it.
    pub fn into_interval(&self, start_date: Date) -> (r: NaiveInterval)
        requires
            can_apply(start_date@, self@),
        ensures
            r.start == Bound::Included(start_date),
            r.end == Bound::Included(Date::of(applied(start_date@, self@))),
    {
        NaiveInterval::new(Bound::Included(start_date), Bound::Included(start_date.shifted(*self)))
    }
}

impl PartialOrd for NaiveInterval {
    fn partial_cmp(&self, other: &Self) -> (r: Option<Ordering>) {
        Some(cmp_range((&self.start(), &self.end()), (&other.start(), &other.end())))
    }
}

impl PartialOrdSpecImpl for NaiveInterval {
    open spec fn obeys_partial_cmp_spec() -> bool {
        true
    }

    open spec fn partial_cmp_spec(&self, other: &Self) -> Option<Ordering> {
        Some(range_order((self.start, self.end), (other.start, other.end)))
    }
}

impl IntervalLike for NaiveInterval {
    open spec fn lower(&self) -> Bound<Date> {
        self.start
    }

    open spec fn upper(&self) -> Bound<Date> {
        self.end
    }

    fn bound_start(&self) -> (r: Bound<Date>) {
        self.start
    }

    fn bound_end(&self) -> (r: Bound<Date>) {
        self.end
    }

    fn duration(&self) -> (r: Option<RelativeDuration>) {
        None
    }
}

} // verus!
