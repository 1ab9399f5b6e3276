//! Laws of recurrences: where the dates of a sequence lie.

use crate::date::{
    in_day_range, lemma_date_at, lemma_date_exists, lemma_valid_in_day_range, Date,
};
use crate::duration::relative::{applied, Mwd};
use crate::recurrence::recur::Recurrence;
use crate::util::shift::{can_shift_months, lemma_shift_compose, months_later};
use vstd::prelude::*;

verus! {

/// A sequence that steps by whole months from a day that every month has
/// gives that day of every month that it comes to: after `k` steps the
/// date lies `k` times the months after the first one.
pub proof fn lemma_month_dates(first: Recurrence, months: int, k: nat)
    requires
        first.spec_date().well_formed(),
        first.spec_date()@.day <= 27,
        first.spec_rule() is Offset,
        first.spec_rule().period()@ == (Mwd { months, weeks: 0, days: 0 }),
        1 <= months,
        can_shift_months(first.spec_date()@, months * k),
    ensures
        first.later(k).spec_rule() == first.spec_rule(),
        first.later(k).spec_count() == first.spec_count(),
        first.later(k).gives(),
        first.later(k).spec_date()@ == months_later(first.spec_date()@, months * k),
        first.later(k).spec_date()@.valid(),
        forall|j: nat| j < k ==> #[trigger] first.later(j).can_advance(),
    decreases k,
{
    let a = first.spec_date()@;
    if k == 0 {
        assert(months * k == 0) by (nonlinear_arith)
            requires
                k == 0,
        ;
        assert(months_later(a, 0) == a);
    } else {
        let before = (k - 1) as nat;
        assert(0 <= months * before <= months * k && months * before + months == months * k)
            by (nonlinear_arith)
            requires
                1 <= months,
                before + 1 == k,
                0 <= before,
        ;
        lemma_month_dates(first, months, before);
        first.lemma_later_step(before);
        let prev = first.later(before);
        prev.lemma_advanced();
        let here = months_later(a, months * k);
        lemma_shift_compose(a, months * before, months);
        assert(here.valid());
        lemma_valid_in_day_range(here);
        lemma_date_at(here);
        Date::lemma_of(here);
        assert(prev.can_advance());
        assert forall|j: nat| j < k implies #[trigger] first.later(j).can_advance() by {
            if j < before {
            }
        }
    }
}

/// Whether step `j` of a sequence that begins on day number `n` and steps
/// by `weeks` weeks and `days` days stays within the range of dates: the
/// day that the weeks lead to, and the day that the days lead to from
/// there.
pub open spec fn step_in_range(n: int, weeks: int, days: int, j: int) -> bool {
    in_day_range(n + (7 * weeks + days) * j + 7 * weeks) && in_day_range(
        n + (7 * weeks + days) * (j + 1),
    )
}

/// A sequence that steps by whole weeks and days gives dates that lie
/// that many days apart: after `k` steps the date lies `k` times the
/// step after the first one.
pub proof fn lemma_day_dates(first: Recurrence, weeks: int, days: int, k: nat)
    requires
        first.spec_date().well_formed(),
        first.spec_rule() is Offset,
        first.spec_rule().period()@ == (Mwd { months: 0, weeks, days }),
        forall|j: int|
            0 <= j < k ==> #[trigger] step_in_range(
                first.spec_date()@.day_number(),
                weeks,
                days,
                j,
            ),
    ensures
        first.later(k).spec_rule() == first.spec_rule(),
        first.later(k).spec_count() == first.spec_count(),
        first.later(k).gives(),
        first.later(k).spec_date()@.valid(),
        first.later(k).spec_date()@.day_number() == first.spec_date()@.day_number() + (7 * weeks
            + days) * k,
        forall|j: nat| j < k ==> #[trigger] first.later(j).can_advance(),
    decreases k,
{
    let a = first.spec_date()@;
    let step = 7 * weeks + days;
    if k == 0 {
        assert(step * k == 0) by (nonlinear_arith)
            requires
                k == 0,
        ;
    } else {
        let before = (k - 1) as nat;
        assert(step * before + step == step * k && step * (before + 1) == step * k)
            by (nonlinear_arith)
            requires
                before + 1 == k,
        ;
        lemma_day_dates(first, weeks, days, before);
        first.lemma_later_step(before);
        let prev = first.later(before);
        prev.lemma_advanced();
        let from = prev.spec_date()@;
        assert(months_later(from, 0) == from);
        assert(step_in_range(a.day_number(), weeks, days, before as int));
        lemma_date_exists(a.day_number() + step * k);
        Date::lemma_of(applied(from, first.spec_rule().period()@));
        assert(prev.can_advance());
        assert forall|j: nat| j < k implies #[trigger] first.later(j).can_advance() by {
            if j < before {
            }
        }
    }
}

} // verus!
