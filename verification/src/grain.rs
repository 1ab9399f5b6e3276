//! Sizes of calendar frames.

use crate::duration::relative::Mwd;
use crate::duration::RelativeDuration;
use vstd::prelude::*;

verus! {

/// The size of a frame of the calendar.
#[derive(Clone, Copy, Debug, PartialEq, Eq, Structural)]
pub enum Grain {
    Day,
    Week,
    Month,
    Quarter,
    Half,
    Year,
    Lustrum,
    Decade,
    Century,
}

impl Grain {
    /// Whether a duration is laid down for the grain: it is for the
    /// grains up to the year.
    pub open spec fn has_duration(self) -> bool {
        !(self is Lustrum || self is Decade || self is Century)
    }

    /// The duration of a frame of this grain, as contracts read it.
    pub open spec fn length(self) -> Mwd {
        match self {
            Grain::Day => Mwd { months: 0, weeks: 0, days: 1 },
            Grain::Week => Mwd { months: 0, weeks: 0, days: 7 },
            Grain::Month => Mwd { months: 1, weeks: 0, days: 0 },
            Grain::Quarter => Mwd { months: 3, weeks: 0, days: 0 },
            Grain::Half => Mwd { months: 6, weeks: 0, days: 0 },
            _ => Mwd { months: 12, weeks: 0, days: 0 },
        }
    }

    /// The duration of a frame of this grain.
    pub fn into_duration(&self) -> (r: RelativeDuration)
        requires
            self.has_duration(),
        ensures
            r@ == self.length(),
    {
        match self {
            Grain::Day => RelativeDuration::days(1),
            Grain::Week => RelativeDuration::days(7),
            Grain::Month => RelativeDuration::months(1),
            Grain::Quarter => RelativeDuration::months(3),
            Grain::Half => RelativeDuration::months(6),
            _ => RelativeDuration::months(12),
        }
    }
}

} // verus!
