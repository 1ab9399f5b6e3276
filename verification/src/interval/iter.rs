//! Stepping through consecutive intervals up to a date.

use crate::date::Date;
use crate::interval::closed::ClosedInterval;
use crate::interval::like::IntervalLike;
use crate::interval::marker::End;
use vstd::prelude::*;

verus! {

/// Consecutive intervals, given one by one as long as their last date lies
/// before a date.
#[derive(Clone, Copy, Debug)]
pub struct UntilAfter {
    iter: ClosedInterval,
    until: Date,
}

impl UntilAfter {
    /// The interval that comes next, as contracts read it.
    pub closed spec fn spec_iter(&self) -> ClosedInterval {
        self.iter
    }

    /// The date that ends the sequence, as contracts read it.
    pub closed spec fn spec_until(&self) -> Date {
        self.until
    }

    /// The intervals from `iter` on whose last date lies before `until`.
    pub fn new(iter: ClosedInterval, until: Date) -> (r: Self)
        ensures
            r.spec_iter() == iter,
            r.spec_until() == until,
    {
        UntilAfter { iter, until }
    }

    /// Whether `next` can be called: the interval after the one that comes
    /// next exists.
    pub fn has_next(&self) -> (r: bool)
        ensures
            r == self.spec_iter().can_advance(),
    {
        self.iter.has_next()
    }

    /// The interval that comes next, or `None` where its last date is
    /// `until` or later. Either way the sequence moves on by one interval.
    pub fn next(&mut self) -> (r: Option<ClosedInterval>)
        requires
            old(self).spec_iter().can_advance(),
        ensures
            final(self).spec_until() == old(self).spec_until(),
            final(self).spec_iter() == old(self).spec_iter().successor(),
            r == if old(self).spec_iter().spec_end()@.before(old(self).spec_until()@) {
                Some(old(self).spec_iter())
            } else {
                None
            },
    {
        match self.iter.next() {
            Some(item) => {
                if item.end().is_before(&self.until) {
                    Some(item)
                } else {
                    None
                }
            },
            None => None,
        }
    }
}

impl UntilAfter {
    /// Whether the sequence gives the interval that comes `k` steps after
    /// the next one: its last date lies before the date that ends the
    /// sequence.
    pub open spec fn lets_through(&self, k: nat) -> bool {
        self.spec_iter().later(k).spec_end()@.before(self.spec_until()@)
    }

    /// Takes intervals from the sequence, one after the other, into a
    /// list: until one of them ends on the closing date or later, until
    /// the interval after the one at hand cannot be held, or until `limit`
    /// of them are taken. The sequence is left behind the last interval
    /// looked at.
    pub fn collect(&mut self, limit: usize) -> (r: Vec<ClosedInterval>)
        ensures
            r@.len() <= limit,
            forall|k: int|
                0 <= k < r@.len() ==> r@[k] == old(self).spec_iter().later(k as nat) && old(self).lets_through(k as nat),
            r@.len() == limit || !old(self).spec_iter().later(r@.len()).can_advance() || !old(self).lets_through(r@.len()),
            final(self).spec_until() == old(self).spec_until(),
            final(self).spec_iter() == old(self).spec_iter().later(r@.len()) || final(self).spec_iter() == old(self).spec_iter().later(r@.len() + 1),
    {
        let mut found: Vec<ClosedInterval> = Vec::new();
        while found.len() < limit && self.has_next()
            invariant
                found@.len() <= limit,
                self.spec_until() == old(self).spec_until(),
                self.spec_iter() == old(self).spec_iter().later(found@.len()),
                forall|k: int|
                    0 <= k < found@.len() ==> found@[k] == old(self).spec_iter().later(k as nat)
                        && old(self).lets_through(k as nat),
            decreases limit - found@.len(),
        {
            proof {
                old(self).spec_iter().lemma_later_step(found@.len());
            }
            match self.next() {
                Some(interval) => {
                    found.push(interval);
                },
                None => {
                    return found;
                },
            }
        }
        found
    }
}

} // verus!
