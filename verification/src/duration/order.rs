//! The order of durations: by months, then weeks, then days.

use super::relative::RelativeDuration;
use crate::bound::order_of;
use std::cmp::Ordering;
use vstd::prelude::*;
use vstd::std_specs::cmp::PartialOrdSpecImpl;

verus! {

impl RelativeDuration {
    /// Whether this duration comes before `other` in the order of durations.
    pub fn is_less_than(&self, other: &RelativeDuration) -> (r: bool)
        ensures
            r == self@.less_than(other@),
    {
        let (m, w, d) = (self.num_months(), self.num_weeks(), self.num_days());
        let (om, ow, od) = (other.num_months(), other.num_weeks(), other.num_days());
        m < om || (m == om && (w < ow || (w == ow && d < od)))
    }
}

impl PartialOrd for RelativeDuration {
    fn partial_cmp(&self, other: &RelativeDuration) -> (r: Option<Ordering>) {
        if self.is_less_than(other) {
            Some(Ordering::Less)
        } else if other.is_less_than(self) {
            Some(Ordering::Greater)
        } else {
            Some(Ordering::Equal)
        }
    }
}

impl PartialOrdSpecImpl for RelativeDuration {
    open spec fn obeys_partial_cmp_spec() -> bool {
        true
    }

    open spec fn partial_cmp_spec(&self, other: &RelativeDuration) -> Option<Ordering> {
        Some(order_of(self@.less_than(other@), other@.less_than(self@)))
    }
}

} // verus!
