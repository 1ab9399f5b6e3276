//! What every kind of interval offers: its two bounds, and what follows
//! from them.

use crate::bound::{begins_by, ends_after, within, Bound};
use crate::date::naive;
use crate::date::{date_text, Date};
use crate::duration::RelativeDuration;
use crate::interval::marker::{End, Start};
use vstd::prelude::*;
use vstd::string::StringExecFns;

verus! {

/// The value that a bound holds, if it holds one.
pub open spec fn bound_value(b: Bound<Date>) -> Option<Date> {
    match b {
        Bound::Included(d) => Some(d),
        Bound::Excluded(d) => Some(d),
        Bound::Unbounded => None,
    }
}

/// A bound as text: its date, or two dots where there is none.
pub open spec fn bound_text(b: Bound<Date>) -> Seq<char> {
    match b {
        Bound::Included(d) => date_text(d@),
        Bound::Excluded(d) => date_text(d@),
        Bound::Unbounded => seq!['.', '.'],
    }
}

/// An interval as text: its lower and its upper bound with `/` between
/// them.
pub open spec fn interval_text(lower: Bound<Date>, upper: Bound<Date>) -> Seq<char> {
    bound_text(lower) + seq!['/'] + bound_text(upper)
}

/// A bound as text.
fn bound_to_text(b: Bound<Date>) -> (r: String)
    ensures
        r@ == bound_text(b),
{
    match b {
        Bound::Included(d) => naive::to_text(d),
        Bound::Excluded(d) => naive::to_text(d),
        Bound::Unbounded => {
            proof {
                reveal_strlit("..");
            }
            let r = String::from_str("..");
            assert(r@ =~= seq!['.', '.']);
            r
        },
    }
}

/// A span of dates with a lower and an upper bound, each of which may be
/// absent.
pub trait IntervalLike {
    /// The lower bound, as contracts read it. An interval that has one
    /// says so here; the others are taken to have none.
    open spec fn lower(&self) -> Bound<Date> {
        Bound::Unbounded
    }

    /// The upper bound, as contracts read it. An interval that has one
    /// says so here; the others are taken to have none.
    open spec fn upper(&self) -> Bound<Date> {
        Bound::Unbounded
    }

    /// The step from one interval to the next, as contracts read it. An
    /// interval that can be stepped through says so here.
    open spec fn step(&self) -> Option<RelativeDuration> {
        None
    }

    /// The lower bound.
    fn bound_start(&self) -> (r: Bound<Date>)
        ensures
            r == self.lower(),
    ;

    /// The upper bound.
    fn bound_end(&self) -> (r: Bound<Date>)
        ensures
            r == self.upper(),
    ;

    /// The duration that the interval was made with, where it has one.
    fn duration(&self) -> (r: Option<RelativeDuration>)
        ensures
            r == self.step(),
    ;

    /// The first date of the interval, or `None` where it has no lower
    /// bound.
    fn start_opt(&self) -> (r: Option<Date>)
        ensures
            r == bound_value(self.lower()),
    {
        match self.bound_start() {
            Bound::Included(d) => Some(d),
            Bound::Excluded(d) => Some(d),
            Bound::Unbounded => None,
        }
    }

    /// The last date of the interval, or `None` where it has no upper
    /// bound.
    fn end_opt(&self) -> (r: Option<Date>)
        ensures
            r == bound_value(self.upper()),
    {
        match self.bound_end() {
            Bound::Included(d) => Some(d),
            Bound::Excluded(d) => Some(d),
            Bound::Unbounded => None,
        }
    }

    /// Whether `date` lies in the interval. An absent bound lets in every
    /// date on its side.
    fn within(&self, date: Date) -> (r: bool)
        ensures
            r == (begins_by(self.lower(), date) && ends_after(self.upper(), date)),
    {
        within(date, &self.bound_start(), &self.bound_end())
    }

    /// The interval in the form `2022-01-01/2022-12-31`, with `..` in
    /// place of a bound that is absent.
    fn iso8601(&self) -> (r: String)
        ensures
            r@ == interval_text(self.lower(), self.upper()),
    {
        let mut result = bound_to_text(self.bound_start());
        proof {
            reveal_strlit("/");
            assert("/"@ =~= seq!['/']);
        }
        result.append("/");
        let end = bound_to_text(self.bound_end());
        result.append(end.as_str());
        result
    }
}

/// An interval that has a first date.
pub trait IntervalLikeWithStart: IntervalLike + Start {

}

/// An interval that has a last date.
pub trait IntervalLikeWithEnd: IntervalLike + End {

}

/// An interval that has a first and a last date.
pub trait IntervalLikeWithStartAndEnd: IntervalLike + Start + End {

}

} // verus!
