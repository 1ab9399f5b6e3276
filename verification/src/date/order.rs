//! The order of dates: earlier days come first.

use super::{lemma_day_number_order, Date};
use crate::bound::{order_of, Ordinal};
use std::cmp::Ordering;
use vstd::prelude::*;
use vstd::std_specs::cmp::PartialOrdSpecImpl;

verus! {

impl Date {
    /// Whether this date is an earlier day than `other`.
    pub fn is_before(&self, other: &Date) -> (r: bool)
        ensures
            r == self@.before(other@),
            r == (self@.day_number() < other@.day_number()),
    {
        proof {
            use_type_invariant(self);
            use_type_invariant(other);
            lemma_day_number_order(self@, other@);
        }
        self.year < other.year || (self.year == other.year && (self.month < other.month || (
        self.month == other.month && self.day < other.day)))
    }
}

impl Ordinal for Date {
    open spec fn position(&self) -> int {
        self@.day_number()
    }

    fn precedes(&self, other: &Date) -> (r: bool) {
        self.is_before(other)
    }
}

impl PartialOrd for Date {
    fn partial_cmp(&self, other: &Date) -> (r: Option<Ordering>) {
        if self.is_before(other) {
            Some(Ordering::Less)
        } else if other.is_before(self) {
            Some(Ordering::Greater)
        } else {
            Some(Ordering::Equal)
        }
    }
}

impl PartialOrdSpecImpl for Date {
    open spec fn obeys_partial_cmp_spec() -> bool {
        true
    }

    open spec fn partial_cmp_spec(&self, other: &Date) -> Option<Ordering> {
        Some(order_of(self@.before(other@), other@.before(self@)))
    }
}

} // verus!
