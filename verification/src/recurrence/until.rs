//! A sequence of dates cut off at a date.

use crate::bound::{cmp_bound, ends_after, Bound};
use crate::date::Date;
use crate::duration::relative::applied;
use crate::recurrence::recur::Recurrence;
use std::cmp::Ordering;
use vstd::prelude::*;

verus! {

/// The dates of a sequence as far as a bound lets them through.
#[derive(Clone, Copy, Debug)]
pub struct Until {
    /// The bound that ends the sequence.
    pub until: Bound<Date>,
    /// The sequence.
    pub iter: Recurrence,
}

impl Until {
    /// The dates of `iter` up to `until`, and `until` where `iter` meets
    /// it.
    pub fn inclusive(until: Date, iter: Recurrence) -> (r: Self)
        ensures
            r.until == Bound::Included(until),
            r.iter == iter,
    {
        Self { until: Bound::Included(until), iter }
    }

    /// The dates of `iter` that lie before `until`.
    pub fn exclusive(until: Date, iter: Recurrence) -> (r: Self)
        ensures
            r.until == Bound::Excluded(until),
            r.iter == iter,
    {
        Self { until: Bound::Excluded(until), iter }
    }

    /// Whether `next` can be called.
    pub fn has_next(&self) -> (r: bool)
        ensures
            r == self.iter.can_advance(),
    {
        self.iter.has_next()
    }

    /// Whether the sequence gives a date after `k` steps and the bound
    /// lets it through.
    pub open spec fn lets_through(&self, k: nat) -> bool {
        self.iter.later(k).gives() && ends_after(self.until, self.iter.later(k).spec_date())
    }

    /// Takes dates from the sequence, one after the other, into a list:
    /// until one of them lies past the bound or the sequence gives none,
    /// until the date after the one at hand cannot be held, or until
    /// `limit` of them are taken. The sequence is left behind the last
    /// date looked at.
    pub fn collect(&mut self, limit: usize) -> (r: Vec<Date>)
        ensures
            r@.len() <= limit,
            forall|k: int|
                0 <= k < r@.len() ==> r@[k] == old(self).iter.later(k as nat).spec_date() && old(self).lets_through(k as nat),
            r@.len() == limit || !old(self).iter.later(r@.len()).can_advance() || !old(self).lets_through(r@.len()),
            final(self).until == old(self).until,
            final(self).iter == old(self).iter.later(r@.len()) || final(self).iter == old(self).iter.later(r@.len() + 1),
    {
        let mut found: Vec<Date> = Vec::new();
        while found.len() < limit && self.has_next()
            invariant
                found@.len() <= limit,
                self.until == old(self).until,
                self.iter == old(self).iter.later(found@.len()),
                forall|k: int|
                    0 <= k < found@.len() ==> found@[k] == old(self).iter.later(k as nat).spec_date()
                        && old(self).lets_through(k as nat),
            decreases limit - found@.len(),
        {
            proof {
                old(self).iter.lemma_later_step(found@.len());
            }
            match self.next() {
                Some(date) => {
                    found.push(date);
                },
                None => {
                    return found;
                },
            }
        }
        found
    }

    /// Takes the next date from the sequence and gives it where the bound
    /// lets it through; `None` where the date lies past the bound, or where
    /// the sequence gave none.
    pub fn next(&mut self) -> (r: Option<Date>)
        requires
            old(self).iter.can_advance(),
        ensures
            final(self).until == old(self).until,
            final(self).iter == old(self).iter.advanced(),
            final(self).iter.spec_rule() == old(self).iter.spec_rule(),
            final(self).iter.spec_count() == old(self).iter.spec_count(),
            old(self).iter.gives() ==> final(self).iter.spec_date()@ == applied(
                old(self).iter.spec_date()@,
                old(self).iter.spec_rule().period()@,
            ),
            !old(self).iter.gives() ==> final(self).iter.spec_date() == old(self).iter.spec_date(),
            r == if old(self).iter.gives() && ends_after(
                old(self).until,
                old(self).iter.spec_date(),
            ) {
                Some(old(self).iter.spec_date())
            } else {
                None
            },
    {
        let event = match self.iter.next() {
            Some(event) => event,
            None => { return None; },
        };
        match cmp_bound(&Bound::Included(event), &self.until) {
            Ordering::Less => Some(event),
            Ordering::Equal => Some(event),
            Ordering::Greater => None,
        }
    }
}

} // verus!
