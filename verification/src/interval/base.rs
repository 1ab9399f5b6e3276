//! The interval in its three shapes, and the two narrower types that
//! promise one of the bounds.

use crate::bound::Bound;
use crate::date::Date;
use crate::duration::relative::{applied, can_apply, component_fits};
use crate::duration::RelativeDuration;
use crate::interval::closed::{difference, has_end, span, ClosedInterval};
use crate::interval::iter::UntilAfter;
use crate::interval::like::IntervalLike;
use crate::interval::marker::{End, Start};
use crate::interval::open::{OpenEndInterval, OpenStartInterval};
use vstd::prelude::*;
use vstd::std_specs::convert::{FromSpecImpl, TryFromSpecImpl};
use vstd::string::StringExecFns;

verus! {

/// What can go wrong with the shape of an interval.
#[derive(Clone, Copy, Debug, PartialEq, Eq, Structural)]
pub enum IntervalError {
    /// The interval has no duration to step by.
    NotIterable,
    /// The interval has no first date.
    NotConvertibleToWithStart,
    /// The interval has no last date.
    NotConvertibleToWithEnd,
}

impl IntervalError {
    /// The error in words.
    pub fn to_string(&self) -> (r: String)
        ensures
            *self is NotIterable ==> r@ == "the variant is not iterable"@,
            *self is NotConvertibleToWithStart ==> r@ == "is not convertible to with start"@,
            *self is NotConvertibleToWithEnd ==> r@ == "is not convertible to with end"@,
    {
        match self {
            IntervalError::NotIterable => String::from_str("the variant is not iterable"),
            IntervalError::NotConvertibleToWithStart => String::from_str(
                "is not convertible to with start",
            ),
            IntervalError::NotConvertibleToWithEnd => String::from_str(
                "is not convertible to with end",
            ),
        }
    }
}

/// An interval of dates of the Gregorian calendar: closed, or open on one
/// side. Both bounds that an interval has belong to it.
#[derive(Clone, Copy, Debug, PartialEq, Eq, Structural)]
pub enum Interval {
    /// An interval with a first and a last date.
    Closed(ClosedInterval),
    /// All dates up to a last one.
    OpenStart(OpenStartInterval),
    /// All dates from a first one on.
    OpenEnd(OpenEndInterval),
}

impl Interval {
    /// The closed interval that begins on `date` and is followed,
    /// `duration` later, by the next one.
    pub fn closed_from_start(date: Date, duration: RelativeDuration) -> (r: Self)
        requires
            has_end(date@, duration@),
        ensures
            r == Interval::Closed(ClosedInterval::from_start(date, duration)),
    {
        Interval::Closed(ClosedInterval::from_start(date, duration))
    }

    /// The closed interval whose first date lies `duration` before `end`.
    pub fn closed_from_end(end: Date, duration: RelativeDuration) -> (r: Self)
        requires
            can_apply(end@, duration@.negated()),
            has_end(applied(end@, duration@.negated()), duration@),
        ensures
            r matches Interval::Closed(c) && c.spec_start()@ == applied(end@, duration@.negated())
                && c.spec_duration() == duration,
    {
        Interval::Closed(ClosedInterval::from_end(end, duration))
    }

    /// The closed interval from `start` to `end`. Its duration is the
    /// literal difference between the two dates and one day more.
    pub fn closed_with_dates(start: Date, end: Date) -> (r: Self)
        requires
            component_fits(difference(start@, end@).months),
            has_end(start@, span(start@, end@)),
        ensures
            r matches Interval::Closed(c) && c.spec_start() == start && c.spec_duration()@
                == span(start@, end@),
    {
        Interval::Closed(ClosedInterval::with_dates(start, end))
    }

    /// All dates up to and including `end`.
    pub fn open_start(end: Date) -> (r: Self)
        ensures
            r matches Interval::OpenStart(o) && o.spec_end() == end,
    {
        Interval::OpenStart(OpenStartInterval::new(end))
    }

    /// All dates from `start` on.
    pub fn open_end(start: Date) -> (r: Self)
        ensures
            r matches Interval::OpenEnd(o) && o.spec_start() == start,
    {
        Interval::OpenEnd(OpenEndInterval::new(start))
    }

    /// The intervals from this one on whose last date lies before `until`.
    /// Only a closed interval can be stepped through.
    pub fn until_after(self, until: Date) -> (r: Result<UntilAfter, IntervalError>)
        ensures
            match self {
                Interval::Closed(c) => r matches Ok(u) && u.spec_iter() == c && u.spec_until()
                    == until,
                _ => r == Err::<UntilAfter, IntervalError>(IntervalError::NotIterable),
            },
    {
        match self {
            Interval::Closed(closed) => Ok(UntilAfter::new(closed, until)),
            Interval::OpenStart(_) => Err(IntervalError::NotIterable),
            Interval::OpenEnd(_) => Err(IntervalError::NotIterable),
        }
    }
}

impl IntervalLike for Interval {
    open spec fn lower(&self) -> Bound<Date> {
        match self {
            Interval::Closed(c) => c.lower(),
            Interval::OpenStart(us) => us.lower(),
            Interval::OpenEnd(ue) => ue.lower(),
        }
    }

    open spec fn upper(&self) -> Bound<Date> {
        match self {
            Interval::Closed(c) => c.upper(),
            Interval::OpenStart(us) => us.upper(),
            Interval::OpenEnd(ue) => ue.upper(),
        }
    }

    open spec fn step(&self) -> Option<RelativeDuration> {
        match self {
            Interval::Closed(c) => c.step(),
            Interval::OpenStart(us) => us.step(),
            Interval::OpenEnd(ue) => ue.step(),
        }
    }

    fn bound_start(&self) -> (r: Bound<Date>) {
        match self {
            Interval::Closed(c) => c.bound_start(),
            Interval::OpenStart(us) => us.bound_start(),
            Interval::OpenEnd(ue) => ue.bound_start(),
        }
    }

    fn bound_end(&self) -> (r: Bound<Date>) {
        match self {
            Interval::Closed(c) => c.bound_end(),
            Interval::OpenStart(us) => us.bound_end(),
            Interval::OpenEnd(ue) => ue.bound_end(),
        }
    }

    fn duration(&self) -> (r: Option<RelativeDuration>) {
        match self {
            Interval::Closed(i) => i.duration(),
            Interval::OpenStart(i) => i.duration(),
            Interval::OpenEnd(i) => i.duration(),
        }
    }
}

impl From<IntervalWithStart> for Interval {
    fn from(i: IntervalWithStart) -> (r: Interval) {
        match i {
            IntervalWithStart::Closed(i) => Interval::Closed(i),
            IntervalWithStart::OpenEnd(i) => Interval::OpenEnd(i),
        }
    }
}

impl FromSpecImpl<IntervalWithStart> for Interval {
    open spec fn obeys_from_spec() -> bool {
        true
    }

    open spec fn from_spec(i: IntervalWithStart) -> Interval {
        match i {
            IntervalWithStart::Closed(i) => Interval::Closed(i),
            IntervalWithStart::OpenEnd(i) => Interval::OpenEnd(i),
        }
    }
}

impl From<IntervalWithEnd> for Interval {
    fn from(i: IntervalWithEnd) -> (r: Interval) {
        match i {
            IntervalWithEnd::Closed(i) => Interval::Closed(i),
            IntervalWithEnd::OpenStart(i) => Interval::OpenStart(i),
        }
    }
}

impl FromSpecImpl<IntervalWithEnd> for Interval {
    open spec fn obeys_from_spec() -> bool {
        true
    }

    open spec fn from_spec(i: IntervalWithEnd) -> Interval {
        match i {
            IntervalWithEnd::Closed(i) => Interval::Closed(i),
            IntervalWithEnd::OpenStart(i) => Interval::OpenStart(i),
        }
    }
}

/// An interval that has a first date; it may have no last one.
#[derive(Clone, Copy, Debug, PartialEq, Eq, Structural)]
pub enum IntervalWithStart {
    /// An interval with a first and a last date.
    Closed(ClosedInterval),
    /// All dates from a first one on.
    OpenEnd(OpenEndInterval),
}

impl IntervalWithStart {
    /// The intervals from this one on whose last date lies before `until`.
    /// Only a closed interval can be stepped through.
    pub fn until_after(self, until: Date) -> (r: Result<UntilAfter, IntervalError>)
        ensures
            match self {
                IntervalWithStart::Closed(c) => r matches Ok(u) && u.spec_iter() == c
                    && u.spec_until() == until,
                _ => r == Err::<UntilAfter, IntervalError>(IntervalError::NotIterable),
            },
    {
        match self {
            IntervalWithStart::Closed(closed) => Ok(UntilAfter::new(closed, until)),
            IntervalWithStart::OpenEnd(_) => Err(IntervalError::NotIterable),
        }
    }
}

impl IntervalLike for IntervalWithStart {
    open spec fn lower(&self) -> Bound<Date> {
        match self {
            IntervalWithStart::Closed(c) => c.lower(),
            IntervalWithStart::OpenEnd(ue) => ue.lower(),
        }
    }

    open spec fn upper(&self) -> Bound<Date> {
        match self {
            IntervalWithStart::Closed(c) => c.upper(),
            IntervalWithStart::OpenEnd(ue) => ue.upper(),
        }
    }

    open spec fn step(&self) -> Option<RelativeDuration> {
        match self {
            IntervalWithStart::Closed(c) => c.step(),
            IntervalWithStart::OpenEnd(ue) => ue.step(),
        }
    }

    fn bound_start(&self) -> (r: Bound<Date>) {
        match self {
            IntervalWithStart::Closed(c) => c.bound_start(),
            IntervalWithStart::OpenEnd(ue) => ue.bound_start(),
        }
    }

    fn bound_end(&self) -> (r: Bound<Date>) {
        match self {
            IntervalWithStart::Closed(c) => c.bound_end(),
            IntervalWithStart::OpenEnd(ue) => ue.bound_end(),
        }
    }

    fn duration(&self) -> (r: Option<RelativeDuration>) {
        match self {
            IntervalWithStart::Closed(i) => i.duration(),
            IntervalWithStart::OpenEnd(i) => i.duration(),
        }
    }
}

impl Start for IntervalWithStart {

}

impl TryFrom<Interval> for IntervalWithStart {
    type Error = IntervalError;

    fn try_from(value: Interval) -> (r: Result<Self, Self::Error>) {
        match value {
            Interval::Closed(i) => Ok(IntervalWithStart::Closed(i)),
            Interval::OpenStart(_) => Err(IntervalError::NotConvertibleToWithStart),
            Interval::OpenEnd(i) => Ok(IntervalWithStart::OpenEnd(i)),
        }
    }
}

impl TryFromSpecImpl<Interval> for IntervalWithStart {
    open spec fn obeys_try_from_spec() -> bool {
        true
    }

    open spec fn try_from_spec(value: Interval) -> Result<Self, Self::Error> {
        match value {
            Interval::Closed(i) => Ok(IntervalWithStart::Closed(i)),
            Interval::OpenStart(_) => Err(IntervalError::NotConvertibleToWithStart),
            Interval::OpenEnd(i) => Ok(IntervalWithStart::OpenEnd(i)),
        }
    }
}

/// An interval that has a last date; it may have no first one.
#[derive(Clone, Copy, Debug, PartialEq, Eq, Structural)]
pub enum IntervalWithEnd {
    /// An interval with a first and a last date.
    Closed(ClosedInterval),
    /// All dates up to a last one.
    OpenStart(OpenStartInterval),
}

impl IntervalLike for IntervalWithEnd {
    open spec fn lower(&self) -> Bound<Date> {
        match self {
            IntervalWithEnd::Closed(c) => c.lower(),
            IntervalWithEnd::OpenStart(u) => u.lower(),
        }
    }

    open spec fn upper(&self) -> Bound<Date> {
        match self {
            IntervalWithEnd::Closed(c) => c.upper(),
            IntervalWithEnd::OpenStart(u) => u.upper(),
        }
    }

    open spec fn step(&self) -> Option<RelativeDuration> {
        match self {
            IntervalWithEnd::Closed(c) => c.step(),
            IntervalWithEnd::OpenStart(u) => u.step(),
        }
    }

    fn bound_start(&self) -> (r: Bound<Date>) {
        match self {
            IntervalWithEnd::Closed(c) => c.bound_start(),
            IntervalWithEnd::OpenStart(u) => u.bound_start(),
        }
    }

    fn bound_end(&self) -> (r: Bound<Date>) {
        match self {
            IntervalWithEnd::Closed(c) => c.bound_end(),
            IntervalWithEnd::OpenStart(u) => u.bound_end(),
        }
    }

    fn duration(&self) -> (r: Option<RelativeDuration>) {
        match self {
            IntervalWithEnd::Closed(i) => i.duration(),
            IntervalWithEnd::OpenStart(i) => i.duration(),
        }
    }
}

impl End for IntervalWithEnd {

}

impl TryFrom<Interval> for IntervalWithEnd {
    type Error = IntervalError;

    fn try_from(value: Interval) -> (r: Result<Self, Self::Error>) {
        match value {
            Interval::Closed(i) => Ok(IntervalWithEnd::Closed(i)),
            Interval::OpenEnd(_) => Err(IntervalError::NotConvertibleToWithEnd),
            Interval::OpenStart(i) => Ok(IntervalWithEnd::OpenStart(i)),
        }
    }
}

impl TryFromSpecImpl<Interval> for IntervalWithEnd {
    open spec fn obeys_try_from_spec() -> bool {
        true
    }

    open spec fn try_from_spec(value: Interval) -> Result<Self, Self::Error> {
        match value {
            Interval::Closed(i) => Ok(IntervalWithEnd::Closed(i)),
            Interval::OpenEnd(_) => Err(IntervalError::NotConvertibleToWithEnd),
            Interval::OpenStart(i) => Ok(IntervalWithEnd::OpenStart(i)),
        }
    }
}

} // verus!
