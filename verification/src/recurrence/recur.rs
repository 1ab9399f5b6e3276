//! Rules of recurrence and the sequence of dates that a rule gives.

use crate::date::{Date, Weekday};
use crate::duration::relative::{applied, can_apply, Mwd};
use crate::duration::RelativeDuration;
use crate::recurrence::until::Until;
use vstd::prelude::*;

verus! {

/// How a date repeats.
#[derive(Clone, Copy, Debug, PartialEq, Eq, Structural)]
pub enum Rule {
    /// A place within a period that repeats: the duration of the period,
    /// and the offset in days within it, counted from its beginning where
    /// positive and from its end where negative.
    Offset(RelativeDuration, i32),
    /// A day of the week within a period that repeats: the duration of the
    /// period, which of the days of that name in the period (the third,
    /// or the last), and the day of the week. How the day is found is not
    /// laid down; see [`Rule::supported`].
    Occurence(RelativeDuration, i32, Weekday),
}

/// Why a rule cannot be followed.
#[derive(Clone, Copy, Debug, PartialEq, Eq, Structural)]
pub enum RecurrenceError {
    /// Rules of this kind are not implemented.
    NotImplemented,
}

impl Rule {
    /// Every quarter of a year.
    pub fn quarterly() -> (r: Rule)
        ensures
            r matches Rule::Offset(d, o) && d@ == (Mwd { months: 3, weeks: 0, days: 0 }) && o == 0,
    {
        Rule::Offset(RelativeDuration::months(3), 0)
    }

    /// Every month.
    pub fn monthly() -> (r: Rule)
        ensures
            r matches Rule::Offset(d, o) && d@ == (Mwd { months: 1, weeks: 0, days: 0 }) && o == 0,
    {
        Rule::Offset(RelativeDuration::months(1), 0)
    }

    /// Every two weeks.
    pub fn biweekly() -> (r: Rule)
        ensures
            r matches Rule::Offset(d, o) && d@ == (Mwd { months: 0, weeks: 2, days: 0 }) && o == 0,
    {
        Rule::Offset(RelativeDuration::weeks(2), 0)
    }

    /// Every week.
    pub fn weekly() -> (r: Rule)
        ensures
            r matches Rule::Offset(d, o) && d@ == (Mwd { months: 0, weeks: 1, days: 0 }) && o == 0,
    {
        Rule::Offset(RelativeDuration::weeks(1), 0)
    }

    /// Every day.
    pub fn daily() -> (r: Rule)
        ensures
            r matches Rule::Offset(d, o) && d@ == (Mwd { months: 0, weeks: 0, days: 1 }) && o == 0,
    {
        Rule::Offset(RelativeDuration::days(1), 0)
    }

    /// The duration from one date of the sequence to the next.
    pub open spec fn period(self) -> RelativeDuration {
        match self {
            Rule::Offset(d, _) => d,
            Rule::Occurence(d, _, _) => d,
        }
    }

    /// Whether a sequence that has given `given` dates by the count of the
    /// rule gives another one. A rule by offset always does.
    pub open spec fn gives(self, given: int) -> bool {
        match self {
            Rule::Offset(_, _) => true,
            Rule::Occurence(_, count, _) => count < given,
        }
    }

    /// Whether rules of this kind are implemented in full: those by offset
    /// are, those by day of the week are not.
    pub fn supported(&self) -> (r: Result<(), RecurrenceError>)
        ensures
            *self is Offset ==> r.is_ok(),
            *self is Occurence ==> r == Err::<(), RecurrenceError>(RecurrenceError::NotImplemented),
    {
        match self {
            Rule::Offset(_, _) => Ok(()),
            Rule::Occurence(_, _, _) => Err(RecurrenceError::NotImplemented),
        }
    }
}

/// The sequence of dates that a rule gives from a first date on. The
/// sequence has no end of its own.
#[derive(Clone, Copy, Debug)]
pub struct Recurrence {
    rule: Rule,
    occurence_count: i32,
    date: Date,
}

impl Recurrence {
    /// The rule, as contracts read it.
    pub closed spec fn spec_rule(&self) -> Rule {
        self.rule
    }

    /// The date that comes next, as contracts read it.
    pub closed spec fn spec_date(&self) -> Date {
        self.date
    }

    /// The count that a rule by day of the week is held against, as
    /// contracts read it.
    pub closed spec fn spec_count(&self) -> int {
        self.occurence_count as int
    }

    /// Whether the sequence gives another date.
    pub open spec fn gives(&self) -> bool {
        self.spec_rule().gives(self.spec_count())
    }

    /// Whether `next` can be called: where the sequence gives a date, the
    /// date after it is one that a [`Date`] can hold.
    pub open spec fn can_advance(&self) -> bool {
        self.gives() ==> can_apply(self.spec_date()@, self.spec_rule().period()@)
    }

    /// The sequence after it gave its next date, as contracts read it:
    /// moved on by the duration of the rule, or as it is where it gives no
    /// more.
    pub closed spec fn advanced(&self) -> Recurrence {
        if self.gives() {
            Recurrence {
                rule: self.rule,
                occurence_count: self.occurence_count,
                date: Date::of(applied(self.date@, self.rule.period()@)),
            }
        } else {
            *self
        }
    }

    /// The sequence after `k` steps, as contracts read it.
    pub open spec fn later(&self, k: nat) -> Recurrence
        decreases k,
    {
        if k == 0 {
            *self
        } else {
            self.advanced().later((k - 1) as nat)
        }
    }

    /// What a step changes and what it leaves.
    pub proof fn lemma_advanced(self)
        ensures
            self.advanced().spec_rule() == self.spec_rule(),
            self.advanced().spec_count() == self.spec_count(),
            self.gives() ==> self.advanced().spec_date() == Date::of(
                applied(self.spec_date()@, self.spec_rule().period()@),
            ),
            !self.gives() ==> self.advanced() == self,
    {
    }

    /// One step more leads to the sequence after the one that `k` steps
    /// lead to.
    pub proof fn lemma_later_step(self, k: nat)
        ensures
            self.later(k + 1) == self.later(k).advanced(),
        decreases k,
    {
        assert(self.later(k + 1) == self.advanced().later(k)) by {
            assert(((k + 1) - 1) as nat == k);
        }
        if k > 0 {
            self.advanced().lemma_later_step((k - 1) as nat);
            assert(self.later(k) == self.advanced().later((k - 1) as nat));
        } else {
            assert(self.advanced().later(0) == self.advanced());
        }
    }

    /// The sequence of `rule` that begins with `date`.
    pub fn with_start(rule: Rule, date: Date) -> (r: Self)
        ensures
            r.spec_rule() == rule,
            r.spec_date() == date,
            r.spec_count() == 0,
    {
        Self { rule, occurence_count: 0, date }
    }

    /// The sequence of `rule` that begins with `date`, or the error where
    /// rules of the kind of `rule` are not implemented in full.
    pub fn try_with_start(rule: Rule, date: Date) -> (r: Result<Self, RecurrenceError>)
        ensures
            rule is Offset ==> (r matches Ok(rec) && rec.spec_rule() == rule && rec.spec_date()
                == date && rec.spec_count() == 0),
            rule is Occurence ==> r == Err::<Self, RecurrenceError>(
                RecurrenceError::NotImplemented,
            ),
    {
        match rule.supported() {
            Ok(_) => Ok(Self::with_start(rule, date)),
            Err(e) => Err(e),
        }
    }

    /// The dates of the sequence from here on that lie before `date`.
    pub fn until(&self, date: Date) -> (r: Until)
        ensures
            r.until == crate::bound::Bound::Excluded(date),
            r.iter == *self,
    {
        Until::exclusive(date, *self)
    }

    /// The dates of the sequence from here on up to `date`, and `date`
    /// itself where the sequence meets it.
    pub fn until_and_including(&self, date: Date) -> (r: Until)
        ensures
            r.until == crate::bound::Bound::Included(date),
            r.iter == *self,
    {
        Until::inclusive(date, *self)
    }

    /// Whether `next` can be called.
    pub fn has_next(&self) -> (r: bool)
        ensures
            r == self.can_advance(),
    {
        match &self.rule {
            Rule::Offset(duration, _) => self.date.checked_add(*duration).is_some(),
            Rule::Occurence(duration, count, _) => {
                if *count < self.occurence_count {
                    self.date.checked_add(*duration).is_some()
                } else {
                    true
                }
            },
        }
    }

    /// Gives the next date of the sequence and moves on by the duration of
    /// the rule; `None`, and no move, where the sequence gives no more.
    pub fn next(&mut self) -> (r: Option<Date>)
        requires
            old(self).can_advance(),
        ensures
            *final(self) == old(self).advanced(),
            final(self).spec_rule() == old(self).spec_rule(),
            final(self).spec_count() == old(self).spec_count(),
            old(self).gives() ==> r == Some(old(self).spec_date()) && final(self).spec_date()@
                == applied(old(self).spec_date()@, old(self).spec_rule().period()@),
            !old(self).gives() ==> r.is_none() && final(self).spec_date() == old(self).spec_date(),
    {
        let date = self.date;

        match &self.rule {
            Rule::Offset(duration, _) => {
                self.date = date.shifted(*duration);
                Some(date)
            },
            Rule::Occurence(duration, count, _) => {
                if *count < self.occurence_count {
                    self.date = date.shifted(*duration);
                    Some(date)
                } else {
                    None
                }
            },
        }
    }
}

} // verus!
