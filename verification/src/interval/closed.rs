//! The interval with a first and a last date.

use crate::bound::Bound;
use crate::date::{
    lemma_date_at, lemma_date_exists, lemma_valid_in_day_range, month_len, Date, Ymd,
};
use crate::util::shift::months_later;
use crate::duration::relative::{applied, can_apply, component_fits, Mwd};
use crate::duration::RelativeDuration;
use crate::interval::iter::UntilAfter;
use crate::interval::like::IntervalLike;
use crate::interval::marker::{End, Start};
use vstd::prelude::*;

verus! {

/// The duration of one day.
pub open spec fn one_day() -> Mwd {
    Mwd { months: 0, weeks: 0, days: 1 }
}

/// The duration that leads from the first date of an interval to its last:
/// `d` made one day shorter, towards zero in the order of durations. So the
/// last date of an interval is the day before the first date of the next.
pub open spec fn adjusted(d: Mwd) -> Mwd {
    if d.less_than(Mwd::zero()) {
        d.plus(one_day())
    } else if Mwd::zero().less_than(d) {
        d.minus(one_day())
    } else {
        d
    }
}

/// Whether an interval that begins on `start` and steps by `d` has a last
/// date that a [`Date`] can hold.
pub open spec fn has_end(start: Ymd, d: Mwd) -> bool {
    adjusted(d).fits() && can_apply(start, adjusted(d))
}

/// The last date of the interval that begins on `start` and steps by `d`.
pub open spec fn end_of(start: Ymd, d: Mwd) -> Ymd {
    applied(start, adjusted(d))
}

/// The inverse of `adjusted`: `d` made one day longer, away from zero in
/// the order of durations.
pub open spec fn widened(d: Mwd) -> Mwd {
    if d.less_than(Mwd::zero()) {
        d.minus(one_day())
    } else {
        d.plus(one_day())
    }
}

/// The duration of the interval from `start` to `end`, both of them in it:
/// the literal difference between the two dates and the day that `end`
/// itself takes up.
pub open spec fn span(start: Ymd, end: Ymd) -> Mwd {
    widened(difference(start, end))
}

/// The literal difference between two dates: months between their months,
/// days between their days of the month.
pub open spec fn difference(start: Ymd, end: Ymd) -> Mwd {
    Mwd {
        months: (end.year - start.year) * 12 + (end.month - start.month),
        weeks: 0,
        days: end.day - start.day,
    }
}

/// An interval of dates with a first and a last date. It is held as its
/// first date and the duration that leads to the interval after it; the
/// last date follows from the two.
#[derive(Clone, Copy, Debug, PartialEq, Eq, Structural, Hash)]
pub struct ClosedInterval {
    date: Date,
    duration: RelativeDuration,
}

impl ClosedInterval {
    /// Every `ClosedInterval` has a last date.
    #[verifier::type_invariant]
    pub open spec fn well_formed(self) -> bool {
        has_end(self.spec_start()@, self.spec_duration()@)
    }

    /// The first date, as contracts read it.
    pub closed spec fn spec_start(&self) -> Date {
        self.date
    }

    /// The duration, as contracts read it.
    pub closed spec fn spec_duration(&self) -> RelativeDuration {
        self.duration
    }

    /// The last date, as contracts read it.
    pub open spec fn spec_end(&self) -> Date {
        Date::of(end_of(self.spec_start()@, self.spec_duration()@))
    }

    /// The interval from a first date and a duration, as contracts read it.
    pub closed spec fn spec_from_start(date: Date, duration: RelativeDuration) -> ClosedInterval {
        ClosedInterval { date, duration }
    }

    /// Whether the interval after this one exists: its first and its last
    /// date are dates that a [`Date`] can hold.
    pub open spec fn can_advance(&self) -> bool {
        &&& can_apply(self.spec_start()@, self.spec_duration()@)
        &&& has_end(applied(self.spec_start()@, self.spec_duration()@), self.spec_duration()@)
    }

    /// The interval after this one, as contracts read it.
    pub open spec fn successor(&self) -> ClosedInterval {
        Self::spec_from_start(
            Date::of(applied(self.spec_start()@, self.spec_duration()@)),
            self.spec_duration(),
        )
    }

    /// The interval that comes `k` steps after this one, as contracts
    /// read it.
    pub open spec fn later(&self, k: nat) -> ClosedInterval
        decreases k,
    {
        if k == 0 {
            *self
        } else {
            self.successor().later((k - 1) as nat)
        }
    }

    /// One step more leads to the interval after the one that `k` steps
    /// lead to.
    pub proof fn lemma_later_step(self, k: nat)
        ensures
            self.later(k + 1) == self.later(k).successor(),
        decreases k,
    {
        assert(self.later(k + 1) == self.successor().later(k)) by {
            assert(((k + 1) - 1) as nat == k);
        }
        if k > 0 {
            self.successor().lemma_later_step((k - 1) as nat);
            assert(self.later(k) == self.successor().later((k - 1) as nat));
        } else {
            assert(self.successor().later(0) == self.successor());
        }
    }

    /// An interval is what its first date and its duration are.
    pub proof fn lemma_parts(self)
        ensures
            self == Self::spec_from_start(self.spec_start(), self.spec_duration()),
    {
    }

    /// The parts of an interval are those it was made from.
    pub proof fn lemma_from_start(date: Date, duration: RelativeDuration)
        ensures
            Self::spec_from_start(date, duration).spec_start() == date,
            Self::spec_from_start(date, duration).spec_duration() == duration,
    {
    }

    /// The interval that begins on `date` and is followed, `duration`
    /// later, by the next one.
    #[verifier::when_used_as_spec(spec_from_start)]
    pub fn from_start(date: Date, duration: RelativeDuration) -> (r: Self)
        requires
            has_end(date@, duration@),
        ensures
            r == Self::spec_from_start(date, duration),
            r.spec_start() == date,
            r.spec_duration() == duration,
    {
        ClosedInterval { date, duration }
    }

    /// The interval that begins on `date` and steps by `duration`, or `None`
    /// where it has no last date that a [`Date`] can hold.
    pub fn checked_from_start(date: Date, duration: RelativeDuration) -> (r: Option<Self>)
        ensures
            r.is_some() <==> has_end(date@, duration@),
            r matches Some(i) ==> i == Self::spec_from_start(date, duration),
    {
        match Self::checked_adjust_duration(duration) {
            Some(step) => match date.checked_add(step) {
                Some(_) => Some(ClosedInterval { date, duration }),
                None => None,
            },
            None => None,
        }
    }

    /// The interval whose first date lies `duration` before `end`.
    pub fn from_end(end: Date, duration: RelativeDuration) -> (r: Self)
        requires
            can_apply(end@, duration@.negated()),
            has_end(applied(end@, duration@.negated()), duration@),
        ensures
            r.spec_start()@ == applied(end@, duration@.negated()),
            r.spec_duration() == duration,
    {
        ClosedInterval { date: end + RelativeDuration::from_mwd(-duration.num_months(), -duration.num_weeks(), -duration.num_days()), duration }
    }

    /// The interval from `start` to `end`. Its duration is the literal
    /// difference between the two dates, in months and days, and one day
    /// more, so that its last date is the first date shifted by that
    /// difference. Where the day of `start` exists in the month of `end`
    /// too, that is `end` itself.
    pub fn with_dates(start: Date, end: Date) -> (r: Self)
        requires
            component_fits(difference(start@, end@).months),
            has_end(start@, span(start@, end@)),
        ensures
            r.spec_start() == start,
            r.spec_duration()@ == span(start@, end@),
    {
        proof {
            use_type_invariant(&start);
            use_type_invariant(&end);
        }
        let between = RelativeDuration::from_duration_between(start, end);
        let zero = RelativeDuration::zero();
        let duration = if between.is_less_than(&zero) {
            between.with_days(between.num_days() - 1)
        } else {
            between.with_days(between.num_days() + 1)
        };
        ClosedInterval { date: start, duration }
    }

    /// The duration from the first to the last date of an interval that
    /// steps by `duration`: one day less, towards zero.
    pub fn adjust_duration(duration: RelativeDuration) -> (r: RelativeDuration)
        requires
            adjusted(duration@).fits(),
        ensures
            r@ == adjusted(duration@),
    {
        let zero = RelativeDuration::zero();
        if duration.is_less_than(&zero) {
            duration.with_days(duration.num_days() + 1)
        } else if zero.is_less_than(&duration) {
            duration.with_days(duration.num_days() - 1)
        } else {
            duration
        }
    }

    /// As `adjust_duration`, or `None` where the day count would leave its
    /// bounds.
    pub fn checked_adjust_duration(duration: RelativeDuration) -> (r: Option<RelativeDuration>)
        ensures
            r.is_some() <==> adjusted(duration@).fits(),
            r matches Some(d) ==> d@ == adjusted(duration@),
    {
        let zero = RelativeDuration::zero();
        let days = if duration.is_less_than(&zero) {
            duration.num_days() + 1
        } else if zero.is_less_than(&duration) {
            duration.num_days() - 1
        } else {
            duration.num_days()
        };
        RelativeDuration::from_raw(duration.num_months(), duration.num_weeks(), days)
    }

    /// First date of the interval.
    fn computed_start_date(&self) -> (r: Date)
        ensures
            r == self.spec_start(),
    {
        self.date
    }

    /// Last date of the interval.
    fn computed_end_date(&self) -> (r: Date)
        ensures
            r == self.spec_end(),
            r@ == end_of(self.spec_start()@, self.spec_duration()@),
            r@.valid(),
    {
        proof {
            use_type_invariant(self);
        }
        let r = self.date.shifted(ClosedInterval::adjust_duration(self.duration));
        proof {
            r.lemma_of_view();
        }
        r
    }

    /// The intervals from this one on whose last date lies before `until`.
    pub fn until_after(self, until: Date) -> (r: UntilAfter)
        ensures
            r.spec_iter() == self,
            r.spec_until() == until,
    {
        UntilAfter::new(self, until)
    }

    /// Whether the interval after this one exists.
    pub fn has_next(&self) -> (r: bool)
        ensures
            r == self.can_advance(),
    {
        proof {
            use_type_invariant(self);
        }
        match self.date.checked_add(self.duration) {
            Some(next) => next.checked_add(ClosedInterval::adjust_duration(self.duration)).is_some(),
            None => false,
        }
    }

    /// Gives this interval and moves on to the one that follows it: the
    /// first date advances by the duration.
    pub fn next(&mut self) -> (r: Option<ClosedInterval>)
        requires
            old(self).can_advance(),
        ensures
            r == Some(*old(self)),
            *final(self) == old(self).successor(),
    {
        proof {
            use_type_invariant(&*self);
        }
        let interval = ClosedInterval::from_start(self.date, self.duration);
        let date = self.date.shifted(self.duration);
        proof {
            date.lemma_of_view();
        }
        self.date = date;
        Some(interval)
    }
}

impl IntervalLike for ClosedInterval {
    open spec fn lower(&self) -> Bound<Date> {
        Bound::Included(self.spec_start())
    }

    open spec fn upper(&self) -> Bound<Date> {
        Bound::Included(self.spec_end())
    }

    open spec fn step(&self) -> Option<RelativeDuration> {
        Some(self.spec_duration())
    }

    fn bound_start(&self) -> (r: Bound<Date>) {
        Bound::Included(self.computed_start_date())
    }

    fn bound_end(&self) -> (r: Bound<Date>) {
        Bound::Included(self.computed_end_date())
    }

    fn duration(&self) -> (r: Option<RelativeDuration>) {
        Some(self.duration)
    }
}

impl Start for ClosedInterval {

}

impl End for ClosedInterval {

}

/// The last date of an interval is the date that its first date becomes
/// under its duration less one day.
pub proof fn lemma_end(i: ClosedInterval)
    requires
        i.well_formed(),
    ensures
        i.spec_end()@ == end_of(i.spec_start()@, i.spec_duration()@),
        i.spec_end()@.valid(),
        i.spec_end()@.day_number() == months_later(
            i.spec_start()@,
            adjusted(i.spec_duration()@).months,
        ).day_number() + 7 * adjusted(i.spec_duration()@).weeks + adjusted(
            i.spec_duration()@,
        ).days,
{
    let step = adjusted(i.spec_duration()@);
    lemma_date_exists(
        months_later(i.spec_start()@, step.months).day_number() + 7 * step.weeks + step.days,
    );
    Date::lemma_of(end_of(i.spec_start()@, i.spec_duration()@));
}

/// Consecutive intervals neither overlap nor leave a gap: where the
/// duration points forwards, the interval after this one begins on the day
/// after the last date of this one; where it points backwards, on the day
/// before.
pub proof fn lemma_contiguous(i: ClosedInterval)
    requires
        i.well_formed(),
        i.spec_start().well_formed(),
        i.can_advance(),
    ensures
        i.successor().spec_duration() == i.spec_duration(),
        Mwd::zero().less_than(i.spec_duration()@) ==> i.successor().spec_start()@.day_number()
            == i.spec_end()@.day_number() + 1,
        i.spec_duration()@.less_than(Mwd::zero()) ==> i.successor().spec_start()@.day_number()
            == i.spec_end()@.day_number() - 1,
        i.spec_duration()@ == Mwd::zero() ==> i.successor() == i,
{
    let d = i.spec_duration()@;
    lemma_end(i);
    let next = applied(i.spec_start()@, d);
    lemma_date_exists(months_later(i.spec_start()@, d.months).day_number() + 7 * d.weeks + d.days);
    Date::lemma_of(next);
    ClosedInterval::lemma_from_start(Date::of(next), i.spec_duration());
    if d == Mwd::zero() {
        assert(months_later(i.spec_start()@, 0) == i.spec_start()@);
        lemma_date_at(i.spec_start()@);
        i.spec_start().lemma_of_view();
        i.lemma_parts();
    }
}

/// A duration made one day longer and then one day shorter is the
/// duration itself.
pub proof fn lemma_adjusted_widened(d: Mwd)
    ensures
        adjusted(widened(d)) == d,
{
}

/// The interval made from two dates ends on the second of them, where
/// the first is not the last day of its month and its day of the month
/// exists in the month of the second too.
pub proof fn lemma_with_dates_end(start: Ymd, end: Ymd)
    requires
        start.valid(),
        end.valid(),
        !start.is_month_end(),
        start.day <= month_len(end.year, end.month),
    ensures
        has_end(start, span(start, end)) <==> component_fits(difference(start, end).months),
        end_of(start, span(start, end)) == end,
{
    let d = difference(start, end);
    lemma_adjusted_widened(d);
    let moved = months_later(start, d.months);
    assert(moved == Ymd { year: end.year, month: end.month, day: start.day }) by {
        let total = start.month - 1 + d.months;
        assert(total == (end.year - start.year) * 12 + (end.month - 1));
        assert(total / 12 == end.year - start.year && total % 12 == end.month - 1) by {
            vstd::arithmetic::div_mod::lemma_fundamental_div_mod_converse(
                total,
                12,
                end.year - start.year,
                end.month - 1,
            );
        }
    }
    assert(moved.day_number() + d.days == end.day_number());
    lemma_valid_in_day_range(moved);
    lemma_valid_in_day_range(end);
    lemma_date_at(end);
}

/// An interval made again from its own first date and duration is the
/// same interval, with the same bounds.
pub proof fn lemma_reciprocity(i: ClosedInterval)
    ensures
        i.lower() == Bound::Included(i.spec_start()),
        i.step() == Some(i.spec_duration()),
        ClosedInterval::from_start(i.spec_start(), i.spec_duration()) == i,
        ClosedInterval::from_start(i.spec_start(), i.spec_duration()).lower() == i.lower(),
        ClosedInterval::from_start(i.spec_start(), i.spec_duration()).upper() == i.upper(),
{
    i.lemma_parts();
}

} // verus!
