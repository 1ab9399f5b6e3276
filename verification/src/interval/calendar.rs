//! Intervals that are periods of the calendar: a year, a quarter, a
//! month, two weeks, a week or a day.

use crate::bound::{cmp_bound, upper_before, Bound};
use crate::date::naive;
use crate::date::{in_day_range, month_len, Date, Ymd};
use crate::duration::RelativeDuration;
use crate::interval::like::IntervalLike;
use crate::util::search::{
    beginning_of_biweek, beginning_of_month, beginning_of_quarter, beginning_of_week,
    beginning_of_year, biweek_start_number, end_of_biweek, end_of_month, end_of_quarter,
    end_of_week, end_of_year, week_start_number,
};
use crate::util::shift::{
    add_biweek_duration, add_day, add_week_duration, add_year_duration, can_shift_months,
    checked_shift_months, months_later, shift_quarters,
};
use std::cmp::Ordering;
use std::hash::{Hash, Hasher};
use vstd::prelude::*;

verus! {

/// The kinds of period that a [`CalendarInterval`] can be.
#[derive(Debug, Clone, Copy, PartialEq, Eq, Structural, Hash, PartialOrd, Ord)]
pub enum CalendarBasis {
    Year,
    Quarter,
    Month,
    BiWeek,
    Week,
    Day,
}

/// A period of the calendar, held as its first and its last date and its
/// kind. Both dates belong to the period.
#[derive(Debug, Clone, Copy, PartialEq, Eq, Structural, Hash, PartialOrd, Ord)]
pub struct CalendarInterval {
    start: Date,
    end: Date,
    period: CalendarBasis,
}

/// The text that base64 in its standard alphabet, with padding, makes of
/// `bytes`.
pub uninterp spec fn base64_text(bytes: Seq<u8>) -> Seq<char>;

/// The eight bytes of `hash`, the most significant first.
pub open spec fn be_bytes(hash: u64) -> Seq<u8> {
    seq![
        (hash >> 56) as u8,
        ((hash >> 48) & 0xff) as u8,
        ((hash >> 40) & 0xff) as u8,
        ((hash >> 32) & 0xff) as u8,
        ((hash >> 24) & 0xff) as u8,
        ((hash >> 16) & 0xff) as u8,
        ((hash >> 8) & 0xff) as u8,
        (hash & 0xff) as u8,
    ]
}

/// `base64::encode`: the bytes as text in base64. Taken on trust; the
/// text is a function of the bytes alone.
#[verifier::external_body]
fn base64_encode(bytes: &Vec<u8>) -> (r: String)
    ensures
        r@ == base64_text(bytes@),
{
    base64::encode(bytes)
}

/// `fnv::FnvHasher` fed with the two dates, as `chrono` hashes them, and
/// with the kind of period. What comes out depends on how the machine
/// lays out numbers, so nothing is said of it.
#[verifier::external_body]
fn fnv_hash(start: Date, end: Date, period: CalendarBasis) -> (r: u64) {
    let first = chrono::NaiveDate::from_ymd_opt(start.year(), start.month(), start.day());
    let last = chrono::NaiveDate::from_ymd_opt(end.year(), end.month(), end.day());
    let mut hash = fnv::FnvHasher::default();
    first.unwrap().hash(&mut hash);
    last.unwrap().hash(&mut hash);
    period.hash(&mut hash);
    hash.finish()
}

/// A hash as text: its eight bytes, the most significant first, in
/// base64.
pub fn hash_text(hash: u64) -> (r: String)
    ensures
        r@ == base64_text(be_bytes(hash)),
{
    let mut bytes: Vec<u8> = Vec::new();
    bytes.push((hash >> 56) as u8);
    bytes.push(((hash >> 48) & 0xff) as u8);
    bytes.push(((hash >> 40) & 0xff) as u8);
    bytes.push(((hash >> 32) & 0xff) as u8);
    bytes.push(((hash >> 24) & 0xff) as u8);
    bytes.push(((hash >> 16) & 0xff) as u8);
    bytes.push(((hash >> 8) & 0xff) as u8);
    bytes.push((hash & 0xff) as u8);
    assert(bytes@ =~= be_bytes(hash));
    base64_encode(&bytes)
}

impl CalendarInterval {
    /// The first date, as contracts read it.
    pub closed spec fn spec_start(&self) -> Date {
        self.start
    }

    /// The last date, as contracts read it.
    pub closed spec fn spec_end(&self) -> Date {
        self.end
    }

    /// The kind of period, as contracts read it.
    pub closed spec fn spec_period(&self) -> CalendarBasis {
        self.period
    }

    /// Whether the period of kind `basis` around `date` lies within the
    /// dates that a [`Date`] can hold, with the day after it where a
    /// period of that kind is found by way of that day.
    pub open spec fn has_period(basis: CalendarBasis, date: Date) -> bool {
        match basis {
            CalendarBasis::BiWeek => in_day_range(biweek_start_number(date@.day_number()))
                && in_day_range(biweek_start_number(date@.day_number()) + 14),
            CalendarBasis::Week => in_day_range(week_start_number(date@.day_number()))
                && in_day_range(week_start_number(date@.day_number()) + 6),
            _ => true,
        }
    }

    /// The period of kind `basis` that holds `date`.
    pub fn from_calendar_basis(basis: CalendarBasis, date: Date) -> (r: Self)
        requires
            Self::has_period(basis, date),
        ensures
            r == match basis {
                CalendarBasis::Year => Self::year_for_date(date),
                CalendarBasis::Quarter => Self::quarter_for_date(date),
                CalendarBasis::Month => Self::month_for_date(date),
                CalendarBasis::BiWeek => Self::biweek_for_date(date),
                CalendarBasis::Week => Self::week_for_date(date),
                CalendarBasis::Day => Self::day_for_date(date),
            },
    {
        match basis {
            CalendarBasis::Year => CalendarInterval::year_for_date(date),
            CalendarBasis::Quarter => CalendarInterval::quarter_for_date(date),
            CalendarBasis::Month => CalendarInterval::month_for_date(date),
            CalendarBasis::BiWeek => CalendarInterval::biweek_for_date(date),
            CalendarBasis::Week => CalendarInterval::week_for_date(date),
            CalendarBasis::Day => CalendarInterval::day_for_date(date),
        }
    }

    /// The period with the given dates and kind, as contracts read it.
    pub closed spec fn of(start: Date, end: Date, period: CalendarBasis) -> CalendarInterval {
        CalendarInterval { start, end, period }
    }

    /// The year of `date`, as contracts read it.
    pub open spec fn spec_year_for_date(date: Date) -> CalendarInterval {
        Self::of(
            Date::of(Ymd { year: date@.year, month: 1, day: 1 }),
            Date::of(Ymd { year: date@.year, month: 12, day: 31 }),
            CalendarBasis::Year,
        )
    }

    /// The quarter of `date`, as contracts read it.
    pub open spec fn spec_quarter_for_date(date: Date) -> CalendarInterval {
        Self::of(
            Date::of(Ymd { year: date@.year, month: 1 + 3 * ((date@.month - 1) / 3), day: 1 }),
            Date::of(
                Ymd {
                    year: date@.year,
                    month: 3 + 3 * ((date@.month - 1) / 3),
                    day: month_len(date@.year, 3 + 3 * ((date@.month - 1) / 3)),
                },
            ),
            CalendarBasis::Quarter,
        )
    }

    /// The month of `date`, as contracts read it.
    pub open spec fn spec_month_for_date(date: Date) -> CalendarInterval {
        Self::of(
            Date::of(date@.month_start()),
            Date::of(date@.month_end()),
            CalendarBasis::Month,
        )
    }

    /// The two weeks of `date`, as contracts read it.
    pub open spec fn spec_biweek_for_date(date: Date) -> CalendarInterval {
        Self::of(
            Date::of(crate::date::date_at(biweek_start_number(date@.day_number()))),
            Date::of(crate::date::date_at(biweek_start_number(date@.day_number()) + 13)),
            CalendarBasis::BiWeek,
        )
    }

    /// The week of `date`, as contracts read it.
    pub open spec fn spec_week_for_date(date: Date) -> CalendarInterval {
        Self::of(
            Date::of(crate::date::date_at(week_start_number(date@.day_number()))),
            Date::of(crate::date::date_at(week_start_number(date@.day_number()) + 6)),
            CalendarBasis::Week,
        )
    }

    /// The day `date` as a period, as contracts read it.
    pub open spec fn spec_day_for_date(date: Date) -> CalendarInterval {
        Self::of(date, date, CalendarBasis::Day)
    }

    /// The parts of a period are those it was made of.
    pub proof fn lemma_of(start: Date, end: Date, period: CalendarBasis)
        ensures
            Self::of(start, end, period).spec_start() == start,
            Self::of(start, end, period).spec_end() == end,
            Self::of(start, end, period).spec_period() == period,
    {
    }

    /// The year that `date` lies in: from the first of January to the
    /// last of December.
    #[verifier::when_used_as_spec(spec_year_for_date)]
    pub fn year_for_date(date: Date) -> (r: Self)
        ensures
            r == Self::spec_year_for_date(date),
    {
        let start = beginning_of_year(&date);
        let end = end_of_year(&date);
        proof {
            start.lemma_of_view();
            end.lemma_of_view();
        }
        CalendarInterval { start, end, period: CalendarBasis::Year }
    }

    /// The quarter that `date` lies in. Quarters begin on the first of
    /// January, April, July and October.
    #[verifier::when_used_as_spec(spec_quarter_for_date)]
    pub fn quarter_for_date(date: Date) -> (r: Self)
        ensures
            r == Self::spec_quarter_for_date(date),
    {
        let start = beginning_of_quarter(&date);
        let end = end_of_quarter(&date);
        proof {
            start.lemma_of_view();
            end.lemma_of_view();
        }
        CalendarInterval { start, end, period: CalendarBasis::Quarter }
    }

    /// The month that `date` lies in.
    #[verifier::when_used_as_spec(spec_month_for_date)]
    pub fn month_for_date(date: Date) -> (r: Self)
        ensures
            r == Self::spec_month_for_date(date),
    {
        let start = beginning_of_month(&date);
        let end = end_of_month(&date);
        proof {
            start.lemma_of_view();
            end.lemma_of_view();
        }
        CalendarInterval { start, end, period: CalendarBasis::Month }
    }

    /// The two weeks that `date` lies in: an odd ISO 8601 week and the
    /// even week after it.
    #[verifier::when_used_as_spec(spec_biweek_for_date)]
    pub fn biweek_for_date(date: Date) -> (r: Self)
        requires
            Self::has_period(CalendarBasis::BiWeek, date),
        ensures
            r == Self::spec_biweek_for_date(date),
    {
        let start = beginning_of_biweek(&date);
        let end = end_of_biweek(&date);
        proof {
            crate::date::lemma_date_at(start@);
            crate::date::lemma_date_at(end@);
            start.lemma_of_view();
            end.lemma_of_view();
        }
        CalendarInterval { start, end, period: CalendarBasis::BiWeek }
    }

    /// The week that `date` lies in, from its Monday to its Sunday.
    #[verifier::when_used_as_spec(spec_week_for_date)]
    pub fn week_for_date(date: Date) -> (r: Self)
        requires
            Self::has_period(CalendarBasis::Week, date),
        ensures
            r == Self::spec_week_for_date(date),
    {
        let start = beginning_of_week(&date);
        let end = end_of_week(&date);
        proof {
            crate::date::lemma_date_at(start@);
            crate::date::lemma_date_at(end@);
            start.lemma_of_view();
            end.lemma_of_view();
        }
        CalendarInterval { start, end, period: CalendarBasis::Week }
    }

    /// The day `date` as a period of one day.
    #[verifier::when_used_as_spec(spec_day_for_date)]
    pub fn day_for_date(date: Date) -> (r: Self)
        ensures
            r == Self::spec_day_for_date(date),
    {
        CalendarInterval { start: date, end: date, period: CalendarBasis::Day }
    }

    /// Day number of the first date of the period that `succ` gives: that
    /// of the day after the last date of this one, and for a day the one
    /// after that.
    pub open spec fn next_start_number(&self) -> int {
        match self.spec_period() {
            CalendarBasis::Day => self.spec_end()@.day_number() + 2,
            _ => self.spec_end()@.day_number() + 1,
        }
    }

    /// The day after the last date of this period.
    pub open spec fn day_after(&self) -> Ymd {
        crate::date::date_at(self.spec_end()@.day_number() + 1)
    }

    /// Day number of the last date of the period that `succ` gives.
    pub open spec fn next_end_number(&self) -> int {
        match self.spec_period() {
            CalendarBasis::Year => (Ymd {
                year: self.day_after().year + 1,
                month: self.day_after().month,
                day: self.day_after().day,
            }).day_number(),
            CalendarBasis::Quarter => months_later(self.day_after(), 3).day_number(),
            CalendarBasis::Month => self.day_after().month_end().day_number(),
            CalendarBasis::BiWeek => self.spec_end()@.day_number() + 15,
            CalendarBasis::Week => self.spec_end()@.day_number() + 8,
            CalendarBasis::Day => self.spec_end()@.day_number() + 2,
        }
    }

    /// Whether `succ` can be called: the dates that it passes through and
    /// gives are dates that a [`Date`] can hold.
    pub open spec fn can_advance(&self) -> bool {
        &&& in_day_range(self.spec_end()@.day_number() + 1)
        &&& match self.spec_period() {
            CalendarBasis::Year => (Ymd {
                year: self.day_after().year + 1,
                month: self.day_after().month,
                day: self.day_after().day,
            }).valid(),
            CalendarBasis::Quarter => can_shift_months(self.day_after(), 3),
            CalendarBasis::Month => true,
            CalendarBasis::BiWeek => in_day_range(self.spec_end()@.day_number() + 15),
            CalendarBasis::Week => in_day_range(self.spec_end()@.day_number() + 8),
            CalendarBasis::Day => in_day_range(self.spec_end()@.day_number() + 2),
        }
    }

    /// The period that follows this one. It begins on the day after the
    /// last date of this one. A year ends on the same day of the next
    /// year, a quarter three months on, a month on its last day, two
    /// weeks and a week fourteen and seven days on. The period after a day
    /// is the day after the next.
    pub fn succ(&self) -> (r: Self)
        requires
            self.can_advance(),
        ensures
            r.spec_period() == self.spec_period(),
            r.spec_start()@.valid(),
            r.spec_end()@.valid(),
            r.spec_start()@.day_number() == self.next_start_number(),
            r.spec_end()@.day_number() == self.next_end_number(),
    {
        proof {
            crate::date::lemma_date_exists(self.spec_end()@.day_number() + 1);
        }
        match self.period {
            CalendarBasis::Year => {
                let start = naive::succ(self.end_date().unwrap()).unwrap();
                proof {
                    crate::date::lemma_date_at(start@);
                }
                let end = add_year_duration(start);

                CalendarInterval { start, end, period: CalendarBasis::Year }
            },
            CalendarBasis::Quarter => {
                let start = naive::succ(self.end_date().unwrap()).unwrap();
                proof {
                    crate::date::lemma_date_at(start@);
                }
                let end = shift_quarters(start, 1);

                CalendarInterval { start, end, period: CalendarBasis::Quarter }
            },
            CalendarBasis::Month => {
                // End of the last month + 1 day
                let start = naive::succ(self.end_date().unwrap()).unwrap();
                proof {
                    crate::date::lemma_date_at(start@);
                }
                let end = end_of_month(&start);

                CalendarInterval { start, end, period: CalendarBasis::Month }
            },
            CalendarBasis::BiWeek => {
                let start = naive::succ(self.end_date().unwrap()).unwrap();
                let end = add_biweek_duration(start);

                CalendarInterval { start, end, period: CalendarBasis::BiWeek }
            },
            CalendarBasis::Week => {
                let start = naive::succ(self.end_date().unwrap()).unwrap();
                let end = add_week_duration(start);

                CalendarInterval { start, end, period: CalendarBasis::Week }
            },
            CalendarBasis::Day => {
                let start = naive::succ(self.end_date().unwrap()).unwrap();
                let end = add_day(start);

                CalendarInterval { start: end, end, period: CalendarBasis::Day }
            },
        }
    }

    /// Whether `succ` can be called.
    pub fn has_next(&self) -> (r: bool)
        ensures
            r == self.can_advance(),
    {
        let start = match naive::succ(self.end) {
            Some(start) => start,
            None => { return false; },
        };
        proof {
            crate::date::lemma_date_at(start@);
        }
        match self.period {
            CalendarBasis::Year => {
                start.year() < crate::date::MAX_YEAR && Date::from_ymd_opt(
                    start.year() + 1,
                    start.month(),
                    start.day(),
                ).is_some()
            },
            CalendarBasis::Quarter => checked_shift_months(start, 3).is_some(),
            CalendarBasis::Month => true,
            CalendarBasis::BiWeek => naive::add_days(start, 14).is_some(),
            CalendarBasis::Week => naive::add_days(start, 7).is_some(),
            CalendarBasis::Day => naive::add_days(start, 1).is_some(),
        }
    }

    /// The kind of period.
    pub fn period(&self) -> (r: CalendarBasis)
        ensures
            r == self.spec_period(),
    {
        self.period
    }

    /// A hash of the period as text: the FNV hash of its dates and its
    /// kind, in base64.
    pub fn hash_str(&self) -> (r: String)
        ensures
            exists|hash: u64| r@ == base64_text(be_bytes(hash)),
    {
        let hash = fnv_hash(self.start, self.end, self.period);
        hash_text(hash)
    }

    /// The periods from this one on that end on `date` or before it.
    pub fn until(&self, date: Date) -> (r: CalendarUntil)
        ensures
            r.until == Bound::Included(date),
            r.calendar_iter.spec_interval() == *self,
    {
        CalendarUntil::new(date, self.into_iter())
    }

    /// The first date of the period.
    pub fn start_date(&self) -> (r: Option<Date>)
        ensures
            r == Some(self.spec_start()),
    {
        Some(self.start)
    }

    /// The last date of the period.
    pub fn end_date(&self) -> (r: Option<Date>)
        ensures
            r == Some(self.spec_end()),
    {
        Some(self.end)
    }

    /// The first date of the period, as a bound.
    pub fn start(&self) -> (r: Bound<Date>)
        ensures
            r == Bound::Included(self.spec_start()),
    {
        Bound::Included(self.start)
    }

    /// The last date of the period, as a bound.
    pub fn end(&self) -> (r: Bound<Date>)
        ensures
            r == Bound::Included(self.spec_end()),
    {
        Bound::Included(self.end)
    }

    /// This period and those that follow it, one by one.
    pub fn into_iter(self) -> (r: CalendarIntoIter)
        ensures
            r.spec_interval() == self,
    {
        CalendarIntoIter { interval: self }
    }
}

impl IntervalLike for CalendarInterval {
    open spec fn lower(&self) -> Bound<Date> {
        Bound::Included(self.spec_start())
    }

    open spec fn upper(&self) -> Bound<Date> {
        Bound::Included(self.spec_end())
    }

    fn bound_start(&self) -> (r: Bound<Date>) {
        Bound::Included(self.start)
    }

    fn bound_end(&self) -> (r: Bound<Date>) {
        Bound::Included(self.end)
    }

    fn duration(&self) -> (r: Option<RelativeDuration>) {
        None
    }
}

/// The periods that follow one another from a first one on.
#[derive(Debug, Clone, Copy)]
pub struct CalendarIntoIter {
    interval: CalendarInterval,
}

impl CalendarIntoIter {
    /// The period that comes next, as contracts read it.
    pub closed spec fn spec_interval(&self) -> CalendarInterval {
        self.interval
    }

    /// Whether `next` can be called.
    pub fn has_next(&self) -> (r: bool)
        ensures
            r == self.spec_interval().can_advance(),
    {
        self.interval.has_next()
    }

    /// Gives the period that comes next and moves on to the one after it.
    pub fn next(&mut self) -> (r: Option<CalendarInterval>)
        requires
            old(self).spec_interval().can_advance(),
        ensures
            r == Some(old(self).spec_interval()),
            final(self).spec_interval().spec_period() == old(self).spec_interval().spec_period(),
            final(self).spec_interval().spec_start()@.day_number() == old(
                self,
            ).spec_interval().next_start_number(),
            final(self).spec_interval().spec_end()@.day_number() == old(
                self,
            ).spec_interval().next_end_number(),
    {
        let current = self.interval;
        self.interval = self.interval.succ();
        Some(current)
    }
}

/// Periods that follow one another, as far as they end by a date.
#[derive(Debug, Clone, Copy)]
pub struct CalendarUntil {
    /// The bound that the last date of a period is held against.
    pub until: Bound<Date>,
    /// The periods.
    pub calendar_iter: CalendarIntoIter,
}

impl CalendarUntil {
    /// The periods of `calendar_iter` that end on `until` or before it.
    pub fn new(until: Date, calendar_iter: CalendarIntoIter) -> (r: Self)
        ensures
            r.until == Bound::Included(until),
            r.calendar_iter == calendar_iter,
    {
        Self { until: Bound::Included(until), calendar_iter }
    }

    /// Whether `next` can be called.
    pub fn has_next(&self) -> (r: bool)
        ensures
            r == self.calendar_iter.spec_interval().can_advance(),
    {
        self.calendar_iter.has_next()
    }

    /// Takes the next period and gives it where it ends by the bound;
    /// `None` where it ends later.
    pub fn next(&mut self) -> (r: Option<CalendarInterval>)
        requires
            old(self).calendar_iter.spec_interval().can_advance(),
        ensures
            final(self).until == old(self).until,
            r == if upper_before(
                old(self).until,
                Bound::Included(old(self).calendar_iter.spec_interval().spec_end()),
            ) {
                None
            } else {
                Some(old(self).calendar_iter.spec_interval())
            },
    {
        let event = match self.calendar_iter.next() {
            Some(event) => event,
            None => { return None; },
        };
        match cmp_bound(&event.end(), &self.until) {
            Ordering::Less => Some(event),
            Ordering::Equal => Some(event),
            Ordering::Greater => None,
        }
    }
}

} // verus!
