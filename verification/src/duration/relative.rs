//! A duration of months, weeks and days, each with its own sign, and its
//! arithmetic.

use crate::date::{date_at, in_day_range, lemma_date_at, Date, Ymd};
use crate::date::naive;
use crate::util::shift::{
    can_shift_months, checked_shift_months, months_later, shift_days, shift_months, shift_weeks,
};
use core::ops::{Add, Div, Mul, Neg, Sub};
use vstd::prelude::*;
use vstd::std_specs::ops::{AddSpecImpl, DivSpecImpl, MulSpecImpl, NegSpecImpl, SubSpecImpl};

verus! {

/// Largest magnitude that a component of a [`RelativeDuration`] can have.
pub const MAX_COMPONENT: i32 = 0xF_FFFF;

/// Whether `n` can be a component of a [`RelativeDuration`].
pub open spec fn component_fits(n: int) -> bool {
    -MAX_COMPONENT <= n <= MAX_COMPONENT
}

/// A duration as the mathematical triple that contracts speak of.
pub struct Mwd {
    pub months: int,
    pub weeks: int,
    pub days: int,
}

/// Quotient of `a` by `b`, rounded towards zero.
pub open spec fn quotient(a: int, b: int) -> int {
    if a >= 0 {
        a / b
    } else {
        -((-a) / b)
    }
}

/// A quotient is no larger in magnitude than what was divided.
pub proof fn lemma_quotient_bound(a: int, b: int)
    requires
        b != 0,
    ensures
        a >= 0 ==> -a <= quotient(a, b) <= a,
        a <= 0 ==> a <= quotient(a, b) <= -a,
{
    let n = if a >= 0 { a } else { -a };
    let q = n / b;
    assert(n == b * q + n % b && 0 <= n % b) by {
        vstd::arithmetic::div_mod::lemma_fundamental_div_mod(n, b);
        if b > 0 {
            vstd::arithmetic::div_mod::lemma_mod_bound(n, b);
        }
    }
    assert(-n <= q <= n) by (nonlinear_arith)
        requires
            b != 0,
            n >= 0,
            n == b * q + n % b,
            0 <= n % b,
            b > 0 ==> n % b < b,
            b < 0 ==> n % b < -b,
    ;
}

/// A product divided by one of its factors gives the other.
pub proof fn lemma_quotient_of_product(a: int, b: int)
    requires
        b != 0,
    ensures
        quotient(a * b, b) == a,
{
    assert(quotient(a * b, b) == a) by (nonlinear_arith)
        requires
            b != 0,
    ;
}

impl Mwd {
    /// The duration of no length.
    pub open spec fn zero() -> Mwd {
        Mwd { months: 0, weeks: 0, days: 0 }
    }

    /// Each component can be held by a [`RelativeDuration`].
    pub open spec fn fits(self) -> bool {
        component_fits(self.months) && component_fits(self.weeks) && component_fits(self.days)
    }

    /// Sum, component by component.
    pub open spec fn plus(self, other: Mwd) -> Mwd {
        Mwd {
            months: self.months + other.months,
            weeks: self.weeks + other.weeks,
            days: self.days + other.days,
        }
    }

    /// The same lengths in the other direction.
    pub open spec fn negated(self) -> Mwd {
        Mwd { months: -self.months, weeks: -self.weeks, days: -self.days }
    }

    /// Difference, component by component.
    pub open spec fn minus(self, other: Mwd) -> Mwd {
        self.plus(other.negated())
    }

    /// Each component multiplied by `k`.
    pub open spec fn times(self, k: int) -> Mwd {
        Mwd { months: self.months * k, weeks: self.weeks * k, days: self.days * k }
    }

    /// Each component divided by `k`, rounded towards zero.
    pub open spec fn divided(self, k: int) -> Mwd {
        Mwd {
            months: quotient(self.months, k),
            weeks: quotient(self.weeks, k),
            days: quotient(self.days, k),
        }
    }

    /// Order by months, then weeks, then days.
    pub open spec fn less_than(self, other: Mwd) -> bool {
        self.months < other.months || (self.months == other.months && (self.weeks < other.weeks
            || (self.weeks == other.weeks && self.days < other.days)))
    }
}

/// A duration of time in calendar units, which can point forwards or
/// backwards in each unit. No unit is converted into another: 40 days stay 40
/// days.
#[derive(Clone, Copy, Debug, PartialEq, Eq, Structural, Hash, Ord)]
pub struct RelativeDuration {
    months: i32,
    weeks: i32,
    days: i32,
}

impl View for RelativeDuration {
    type V = Mwd;

    open spec fn view(&self) -> Mwd {
        Mwd {
            months: self.spec_num_months() as int,
            weeks: self.spec_num_weeks() as int,
            days: self.spec_num_days() as int,
        }
    }
}

impl RelativeDuration {
    /// Every component of a `RelativeDuration` is within its bounds.
    #[verifier::type_invariant]
    pub open spec fn well_formed(self) -> bool {
        self@.fits()
    }

    /// Number of months, as contracts read it.
    pub closed spec fn spec_num_months(&self) -> i32 {
        self.months
    }

    /// Number of weeks, as contracts read it.
    pub closed spec fn spec_num_weeks(&self) -> i32 {
        self.weeks
    }

    /// Number of days, as contracts read it.
    pub closed spec fn spec_num_days(&self) -> i32 {
        self.days
    }

    /// The duration with the given components, as contracts read it.
    pub closed spec fn spec_from_mwd(months: i32, weeks: i32, days: i32) -> RelativeDuration {
        RelativeDuration { months, weeks, days }
    }

    /// The duration that a triple stands for.
    pub open spec fn of(d: Mwd) -> RelativeDuration {
        Self::spec_from_mwd(d.months as i32, d.weeks as i32, d.days as i32)
    }

    /// The duration that a triple stands for has that triple as its view.
    pub proof fn lemma_of(d: Mwd)
        requires
            d.fits(),
        ensures
            Self::of(d)@ == d,
            Self::of(d).well_formed(),
    {
    }

    /// A duration is what its three components are.
    pub proof fn lemma_components(self)
        ensures
            self == Self::spec_from_mwd(self.num_months(), self.num_weeks(), self.num_days()),
            self == Self::of(self@),
    {
    }

    /// The components of a duration are those it was made from.
    pub proof fn lemma_from_mwd(months: i32, weeks: i32, days: i32)
        ensures
            Self::from_mwd(months, weeks, days).num_months() == months,
            Self::from_mwd(months, weeks, days).num_weeks() == weeks,
            Self::from_mwd(months, weeks, days).num_days() == days,
    {
    }

    /// The duration of `months` months, `weeks` weeks and `days` days.
    #[verifier::when_used_as_spec(spec_from_mwd)]
    pub fn from_mwd(months: i32, weeks: i32, days: i32) -> (r: RelativeDuration)
        requires
            component_fits(months as int),
            component_fits(weeks as int),
            component_fits(days as int),
        ensures
            r == Self::spec_from_mwd(months, weeks, days),
            r@ == (Mwd { months: months as int, weeks: weeks as int, days: days as int }),
            r.num_months() == months,
            r.num_weeks() == weeks,
            r.num_days() == days,
    {
        RelativeDuration { months, weeks, days }
    }

    /// The duration of `months` months, `weeks` weeks and `days` days, or
    /// `None` where one of them is beyond `MAX_COMPONENT` in either direction.
    pub fn from_raw(months: i32, weeks: i32, days: i32) -> (r: Option<RelativeDuration>)
        ensures
            r.is_some() <==> component_fits(months as int) && component_fits(weeks as int)
                && component_fits(days as int),
            r matches Some(d) ==> d == Self::from_mwd(months, weeks, days),
            r matches Some(d) ==> d@ == (Mwd { months: months as int, weeks: weeks as int, days: days as int }),
    {
        if months < -MAX_COMPONENT || months > MAX_COMPONENT || weeks < -MAX_COMPONENT || weeks
            > MAX_COMPONENT || days < -MAX_COMPONENT || days > MAX_COMPONENT {
            None
        } else {
            Some(RelativeDuration { months, weeks, days })
        }
    }

    /// The literal difference between two dates: the months from the month
    /// of `start` to the month of `end`, and the days from the day of the
    /// month of `start` to that of `end`.
    pub fn from_duration_between(start: Date, end: Date) -> (r: RelativeDuration)
        requires
            component_fits((end@.year - start@.year) * 12 + (end@.month - start@.month)),
        ensures
            r@ == (Mwd {
                months: (end@.year - start@.year) * 12 + (end@.month - start@.month),
                weeks: 0,
                days: end@.day - start@.day,
            }),
    {
        let years: i32 = end.year() - start.year();
        let months: i32 = years * 12 + (end.month() as i32 - start.month() as i32);
        let days: i32 = end.day() as i32 - start.day() as i32;
        RelativeDuration { months, weeks: 0, days }
    }

    /// The duration of `years` years, held as twelve months each.
    pub fn years(years: i32) -> (r: RelativeDuration)
        requires
            component_fits(years * 12),
        ensures
            r == Self::from_mwd((years * 12) as i32, 0, 0),
            r@ == (Mwd { months: years * 12, weeks: 0, days: 0 }),
    {
        RelativeDuration { months: years * 12, weeks: 0, days: 0 }
    }

    /// The duration of `months` months.
    pub fn months(months: i32) -> (r: RelativeDuration)
        requires
            component_fits(months as int),
        ensures
            r == Self::from_mwd(months, 0, 0),
            r@ == (Mwd { months: months as int, weeks: 0, days: 0 }),
    {
        RelativeDuration { months, weeks: 0, days: 0 }
    }

    /// The duration of `weeks` weeks.
    pub fn weeks(weeks: i32) -> (r: RelativeDuration)
        requires
            component_fits(weeks as int),
        ensures
            r == Self::from_mwd(0, weeks, 0),
            r@ == (Mwd { months: 0, weeks: weeks as int, days: 0 }),
    {
        RelativeDuration { months: 0, weeks, days: 0 }
    }

    /// The duration of `days` days.
    pub fn days(days: i32) -> (r: RelativeDuration)
        requires
            component_fits(days as int),
        ensures
            r == Self::from_mwd(0, 0, days),
            r@ == (Mwd { months: 0, weeks: 0, days: days as int }),
    {
        RelativeDuration { months: 0, weeks: 0, days }
    }

    /// This duration with its months replaced.
    pub fn with_months(&self, months: i32) -> (r: RelativeDuration)
        requires
            component_fits(months as int),
        ensures
            r == Self::from_mwd(months, self.num_weeks(), self.num_days()),
            r@ == (Mwd { months: months as int, weeks: self@.weeks, days: self@.days }),
    {
        proof {
            use_type_invariant(self);
        }
        RelativeDuration { months, weeks: self.weeks, days: self.days }
    }

    /// Number of months in the duration.
    #[verifier::when_used_as_spec(spec_num_months)]
    pub fn num_months(&self) -> (r: i32)
        ensures
            r == self.spec_num_months(),
            component_fits(r as int),
    {
        proof {
            use_type_invariant(self);
        }
        self.months
    }

    /// Number of weeks in the duration.
    #[verifier::when_used_as_spec(spec_num_weeks)]
    pub fn num_weeks(&self) -> (r: i32)
        ensures
            r == self.spec_num_weeks(),
            component_fits(r as int),
    {
        proof {
            use_type_invariant(self);
        }
        self.weeks
    }

    /// This duration with its weeks replaced.
    pub fn with_weeks(&self, weeks: i32) -> (r: RelativeDuration)
        requires
            component_fits(weeks as int),
        ensures
            r == Self::from_mwd(self.num_months(), weeks, self.num_days()),
            r@ == (Mwd { months: self@.months, weeks: weeks as int, days: self@.days }),
    {
        proof {
            use_type_invariant(self);
        }
        RelativeDuration { months: self.months, weeks, days: self.days }
    }

    /// Number of days in the duration.
    #[verifier::when_used_as_spec(spec_num_days)]
    pub fn num_days(&self) -> (r: i32)
        ensures
            r == self.spec_num_days(),
            component_fits(r as int),
    {
        proof {
            use_type_invariant(self);
        }
        self.days
    }

    /// This duration with its days replaced.
    pub fn with_days(&self, days: i32) -> (r: RelativeDuration)
        requires
            component_fits(days as int),
        ensures
            r == Self::from_mwd(self.num_months(), self.num_weeks(), days),
            r@ == (Mwd { months: self@.months, weeks: self@.weeks, days: days as int }),
    {
        proof {
            use_type_invariant(self);
        }
        RelativeDuration { months: self.months, weeks: self.weeks, days }
    }

    /// The duration of no length.
    pub fn zero() -> (r: RelativeDuration)
        ensures
            r == Self::from_mwd(0, 0, 0),
            r@ == Mwd::zero(),
    {
        RelativeDuration::from_mwd(0, 0, 0)
    }

    /// Whether the duration has no length in any unit.
    pub fn is_zero(&self) -> (r: bool)
        ensures
            r == (self@ == Mwd::zero()),
    {
        self.num_months() == 0 && self.num_weeks() == 0 && self.num_days() == 0
    }
}

impl RelativeDuration {
    /// The same lengths in the other direction.
    pub fn negated(self) -> (r: RelativeDuration)
        ensures
            r@ == self@.negated(),
            r == RelativeDuration::of(self@.negated()),
    {
        proof {
            use_type_invariant(&self);
        }
        RelativeDuration { months: -self.months, weeks: -self.weeks, days: -self.days }
    }
}

impl Neg for RelativeDuration {
    type Output = RelativeDuration;

    /// The same lengths in the other direction.
    fn neg(self) -> (r: RelativeDuration)
        ensures
            r@ == self@.negated(),
    {
        self.negated()
    }
}

impl NegSpecImpl for RelativeDuration {
    open spec fn obeys_neg_spec() -> bool {
        true
    }

    open spec fn neg_req(self) -> bool {
        true
    }

    open spec fn neg_spec(self) -> RelativeDuration {
        RelativeDuration::of(self@.negated())
    }
}

impl Add<RelativeDuration> for RelativeDuration {
    type Output = RelativeDuration;

    /// Sum, component by component.
    fn add(self, rhs: RelativeDuration) -> (r: RelativeDuration)
        ensures
            r@ == self@.plus(rhs@),
    {
        RelativeDuration::from_mwd(
            self.num_months() + rhs.num_months(),
            self.num_weeks() + rhs.num_weeks(),
            self.num_days() + rhs.num_days(),
        )
    }
}

impl AddSpecImpl<RelativeDuration> for RelativeDuration {
    open spec fn obeys_add_spec() -> bool {
        true
    }

    open spec fn add_req(self, rhs: RelativeDuration) -> bool {
        self@.plus(rhs@).fits()
    }

    open spec fn add_spec(self, rhs: RelativeDuration) -> RelativeDuration {
        RelativeDuration::of(self@.plus(rhs@))
    }
}

impl Sub<RelativeDuration> for RelativeDuration {
    type Output = RelativeDuration;

    /// Difference, component by component.
    fn sub(self, rhs: RelativeDuration) -> (r: RelativeDuration)
        ensures
            r@ == self@.minus(rhs@),
    {
        self + rhs.neg()
    }
}

impl SubSpecImpl<RelativeDuration> for RelativeDuration {
    open spec fn obeys_sub_spec() -> bool {
        true
    }

    open spec fn sub_req(self, rhs: RelativeDuration) -> bool {
        self@.minus(rhs@).fits()
    }

    open spec fn sub_spec(self, rhs: RelativeDuration) -> RelativeDuration {
        RelativeDuration::of(self@.minus(rhs@))
    }
}

impl Mul<i32> for RelativeDuration {
    type Output = RelativeDuration;

    /// Each component multiplied by `rhs`.
    fn mul(self, rhs: i32) -> (r: RelativeDuration)
        ensures
            r@ == self@.times(rhs as int),
    {
        RelativeDuration::from_mwd(
            self.num_months() * rhs,
            self.num_weeks() * rhs,
            self.num_days() * rhs,
        )
    }
}

impl MulSpecImpl<i32> for RelativeDuration {
    open spec fn obeys_mul_spec() -> bool {
        true
    }

    open spec fn mul_req(self, rhs: i32) -> bool {
        self@.times(rhs as int).fits()
    }

    open spec fn mul_spec(self, rhs: i32) -> RelativeDuration {
        RelativeDuration::of(self@.times(rhs as int))
    }
}

impl Div<i32> for RelativeDuration {
    type Output = RelativeDuration;

    /// Each component divided by `rhs`, rounded towards zero.
    fn div(self, rhs: i32) -> (r: RelativeDuration)
        ensures
            r@ == self@.divided(rhs as int),
    {
        proof {
            lemma_quotient_bound(self@.months, rhs as int);
            lemma_quotient_bound(self@.weeks, rhs as int);
            lemma_quotient_bound(self@.days, rhs as int);
        }
        RelativeDuration::from_mwd(
            self.num_months() / rhs,
            self.num_weeks() / rhs,
            self.num_days() / rhs,
        )
    }
}

impl DivSpecImpl<i32> for RelativeDuration {
    open spec fn obeys_div_spec() -> bool {
        true
    }

    open spec fn div_req(self, rhs: i32) -> bool {
        rhs != 0
    }

    open spec fn div_spec(self, rhs: i32) -> RelativeDuration {
        RelativeDuration::of(self@.divided(rhs as int))
    }
}

/// Whether `d` can be applied to `a`: the month shift, the week shift after
/// it and the day shift after that each end on a date that a [`Date`] can
/// hold.
pub open spec fn can_apply(a: Ymd, d: Mwd) -> bool {
    &&& can_shift_months(a, d.months)
    &&& in_day_range(months_later(a, d.months).day_number() + 7 * d.weeks)
    &&& in_day_range(months_later(a, d.months).day_number() + 7 * d.weeks + d.days)
}

/// The date that `a` becomes under `d`: shifted by the months first, then
/// by the weeks, then by the days.
pub open spec fn applied(a: Ymd, d: Mwd) -> Ymd {
    date_at(months_later(a, d.months).day_number() + 7 * d.weeks + d.days)
}

impl Date {
    /// Applies a duration to this date: shifts it by the months first, then
    /// by the weeks, then by the days.
    pub fn shifted(self, rhs: RelativeDuration) -> (r: Date)
        requires
            can_apply(self@, rhs@),
        ensures
            r@ == applied(self@, rhs@),
            r == Date::of(applied(self@, rhs@)),
            r@.valid(),
            r@.day_number() == months_later(self@, rhs@.months).day_number() + 7 * rhs@.weeks
                + rhs@.days,
    {
        let date = shift_months(self, rhs.num_months());
        let date = shift_weeks(date, rhs.num_weeks());
        let date = shift_days(date, rhs.num_days());
        proof {
            lemma_date_at(date@);
            date.lemma_of_view();
        }
        date
    }

    /// Applies a duration to this date, largest unit first, or gives `None`
    /// where one of the three shifts leaves the range of dates.
    pub fn checked_add(self, rhs: RelativeDuration) -> (r: Option<Date>)
        ensures
            r.is_some() <==> can_apply(self@, rhs@),
            r matches Some(d) ==> d@ == applied(self@, rhs@) && d@.valid(),
    {
        let by_months = match checked_shift_months(self, rhs.num_months()) {
            Some(d) => d,
            None => { return None; },
        };
        let by_weeks = match naive::add_days(by_months, 7 * (rhs.num_weeks() as i64)) {
            Some(d) => d,
            None => { return None; },
        };
        match naive::add_days(by_weeks, rhs.num_days() as i64) {
            Some(d) => {
                proof {
                    lemma_date_at(d@);
                }
                Some(d)
            },
            None => None,
        }
    }
}

impl Default for RelativeDuration {
    /// The duration of no length.
    fn default() -> (r: RelativeDuration)
        ensures
            r == RelativeDuration::from_mwd(0, 0, 0),
            r@ == Mwd::zero(),
    {
        RelativeDuration { months: 0, weeks: 0, days: 0 }
    }
}

impl Add<RelativeDuration> for Date {
    type Output = Date;

    /// Applies a duration to a date, largest unit first.
    fn add(self, rhs: RelativeDuration) -> (r: Date)
        ensures
            r@ == applied(self@, rhs@),
            r@.valid(),
            r@.day_number() == months_later(self@, rhs@.months).day_number() + 7 * rhs@.weeks
                + rhs@.days,
    {
        self.shifted(rhs)
    }
}

impl AddSpecImpl<RelativeDuration> for Date {
    open spec fn obeys_add_spec() -> bool {
        true
    }

    open spec fn add_req(self, rhs: RelativeDuration) -> bool {
        can_apply(self@, rhs@)
    }

    open spec fn add_spec(self, rhs: RelativeDuration) -> Date {
        Date::of(applied(self@, rhs@))
    }
}

} // verus!
