//! Calendar dates of the proleptic Gregorian calendar and the arithmetic
//! model that the rest of the crate states its contracts over.

use crate::text::padded;
use vstd::prelude::*;

pub mod naive;
pub mod order;

verus! {

/// First year that a [`Date`] can hold; the first year of `chrono::NaiveDate`.
pub const MIN_YEAR: i32 = -262143;

/// Last year that a [`Date`] can hold; the last year of `chrono::NaiveDate`.
pub const MAX_YEAR: i32 = 262142;

/// Whether `year` is a leap year of the Gregorian calendar.
pub open spec fn is_leap_year(year: int) -> bool {
    year % 4 == 0 && (year % 100 != 0 || year % 400 == 0)
}

/// Number of days of month `month` (1 to 12) in `year`.
pub open spec fn month_len(year: int, month: int) -> int {
    if month == 2 {
        if is_leap_year(year) { 29 } else { 28 }
    } else if month == 4 || month == 6 || month == 9 || month == 11 {
        30
    } else {
        31
    }
}

/// Number of days of `year` that lie before the first day of `month`.
pub open spec fn days_before_month(year: int, month: int) -> int {
    let base: int = if month <= 1 {
        0
    } else if month == 2 {
        31
    } else if month == 3 {
        59
    } else if month == 4 {
        90
    } else if month == 5 {
        120
    } else if month == 6 {
        151
    } else if month == 7 {
        181
    } else if month == 8 {
        212
    } else if month == 9 {
        243
    } else if month == 10 {
        273
    } else if month == 11 {
        304
    } else {
        334
    };
    if month > 2 && is_leap_year(year) { base + 1 } else { base }
}

/// Number of days between 0001-01-01 and the first day of `year`.
pub open spec fn days_before_year(year: int) -> int {
    365 * (year - 1) + (year - 1) / 4 - (year - 1) / 100 + (year - 1) / 400
}

/// A date as the mathematical triple that contracts speak of.
pub struct Ymd {
    pub year: int,
    pub month: int,
    pub day: int,
}

impl Ymd {
    /// The triple names a day that exists and that a [`Date`] can hold.
    pub open spec fn valid(self) -> bool {
        &&& MIN_YEAR <= self.year <= MAX_YEAR
        &&& 1 <= self.month <= 12
        &&& 1 <= self.day <= month_len(self.year, self.month)
    }

    /// Position of the day on the line of days, 0001-01-01 being day 1.
    pub open spec fn day_number(self) -> int {
        days_before_year(self.year) + days_before_month(self.year, self.month) + self.day
    }

    /// The day is the last one of its month.
    pub open spec fn is_month_end(self) -> bool {
        self.day == month_len(self.year, self.month)
    }

    /// The first day of the month of this date.
    pub open spec fn month_start(self) -> Ymd {
        Ymd { year: self.year, month: self.month, day: 1 }
    }

    /// The last day of the month of this date.
    pub open spec fn month_end(self) -> Ymd {
        Ymd { year: self.year, month: self.month, day: month_len(self.year, self.month) }
    }

    /// The day after this one.
    pub open spec fn next_day(self) -> Ymd {
        if self.day < month_len(self.year, self.month) {
            Ymd { year: self.year, month: self.month, day: self.day + 1 }
        } else if self.month < 12 {
            Ymd { year: self.year, month: self.month + 1, day: 1 }
        } else {
            Ymd { year: self.year + 1, month: 1, day: 1 }
        }
    }

    /// Calendar order: by year, then month, then day.
    pub open spec fn before(self, other: Ymd) -> bool {
        self.year < other.year || (self.year == other.year && (self.month < other.month || (
        self.month == other.month && self.day < other.day)))
    }
}

/// Day number of the first date that a [`Date`] can hold.
pub open spec fn min_day_number() -> int {
    days_before_year(MIN_YEAR as int) + 1
}

/// Day number of the last date that a [`Date`] can hold.
pub open spec fn max_day_number() -> int {
    days_before_year(MAX_YEAR as int + 1)
}

/// Whether `n` is the day number of a date that a [`Date`] can hold.
pub open spec fn in_day_range(n: int) -> bool {
    min_day_number() <= n <= max_day_number()
}

/// Place of day number `n` in its week: 0 for a Monday, 6 for a Sunday.
pub open spec fn weekday_index(n: int) -> int {
    (n - 1) % 7
}

/// Day number of the first Thursday of `year`. The week that holds it is the
/// first week of the ISO 8601 week year `year`.
pub open spec fn first_thursday(year: int) -> int {
    let jan1 = days_before_year(year) + 1;
    jan1 + (3 - weekday_index(jan1)) % 7
}

/// Whether the ISO 8601 week year `year` has a week numbered `week`: its
/// Thursday is a day of `year`.
pub open spec fn iso_week_exists(year: int, week: int) -> bool {
    week >= 1 && first_thursday(year) + 7 * (week - 1) <= days_before_year(year + 1)
}

/// Day number of the day at place `index` (0 for Monday) of week `week` of
/// the ISO 8601 week year `year`.
pub open spec fn iso_day_number(year: int, week: int, index: int) -> int {
    first_thursday(year) + 7 * (week - 1) - 3 + index
}

/// Whether day number `n` lies in week `week` of the ISO 8601 week year
/// `year`.
pub open spec fn in_iso_week(n: int, year: int, week: int) -> bool {
    iso_week_exists(year, week) && iso_day_number(year, week, weekday_index(n)) == n
}

/// ISO 8601 week year and week number of the week that day number `n` lies
/// in.
pub open spec fn iso_week_of(n: int) -> (int, int) {
    choose|p: (int, int)| in_iso_week(n, p.0, p.1)
}

/// Whether a [`Date`] can hold the day at place `index` of week `week` of the
/// ISO 8601 week year `year`.
pub open spec fn iso_date_exists(year: int, week: int, index: int) -> bool {
    iso_week_exists(year, week) && in_day_range(iso_day_number(year, week, index))
}

/// A day of the week.
#[derive(Clone, Copy, Debug, PartialEq, Eq, Structural, Hash)]
pub enum Weekday {
    Mon,
    Tue,
    Wed,
    Thu,
    Fri,
    Sat,
    Sun,
}

impl Weekday {
    /// Place of the day in the week: 0 for Monday, 6 for Sunday.
    pub open spec fn index(self) -> int {
        match self {
            Weekday::Mon => 0,
            Weekday::Tue => 1,
            Weekday::Wed => 2,
            Weekday::Thu => 3,
            Weekday::Fri => 4,
            Weekday::Sat => 5,
            Weekday::Sun => 6,
        }
    }

    /// Number of the day in the week, counted from Monday as 1.
    pub fn number_from_monday(&self) -> (r: u32)
        ensures
            r == self.index() + 1,
    {
        match self {
            Weekday::Mon => 1,
            Weekday::Tue => 2,
            Weekday::Wed => 3,
            Weekday::Thu => 4,
            Weekday::Fri => 5,
            Weekday::Sat => 6,
            Weekday::Sun => 7,
        }
    }
}

/// The year as text: four digits for the years 0 to 9999, and a sign and
/// at least four digits for the others.
pub open spec fn year_text(year: int) -> Seq<char> {
    if 0 <= year <= 9999 {
        padded(year as nat, 4)
    } else if year < 0 {
        seq!['-'] + padded((-year) as nat, 4)
    } else {
        seq!['+'] + padded(year as nat, 4)
    }
}

/// A date as text: year, month and day with `-` between them, month and day
/// in two digits each.
pub open spec fn date_text(a: Ymd) -> Seq<char> {
    year_text(a.year) + seq!['-'] + padded(a.month as nat, 2) + seq!['-'] + padded(
        a.day as nat,
        2,
    )
}

/// The date whose day number is `n`.
pub open spec fn date_at(n: int) -> Ymd {
    choose|a: Ymd| a.valid() && a.day_number() == n
}

/// A calendar date: year, month and day of month.
#[derive(Clone, Copy, Debug, PartialEq, Eq, Structural, Hash, Ord)]
pub struct Date {
    year: i32,
    month: u32,
    day: u32,
}

impl View for Date {
    type V = Ymd;

    closed spec fn view(&self) -> Ymd {
        Ymd { year: self.year as int, month: self.month as int, day: self.day as int }
    }
}

impl Date {
    /// Every `Date` names a day that exists.
    #[verifier::type_invariant]
    pub open spec fn well_formed(self) -> bool {
        self@.valid()
    }

    /// The date that a triple stands for.
    pub closed spec fn of(a: Ymd) -> Date {
        Date { year: a.year as i32, month: a.month as u32, day: a.day as u32 }
    }

    /// The date that a triple stands for has that triple as its view.
    pub proof fn lemma_of(a: Ymd)
        requires
            a.valid(),
        ensures
            Date::of(a)@ == a,
            Date::of(a).well_formed(),
    {
    }

    /// A date is what its year, month and day are.
    pub proof fn lemma_of_view(self)
        ensures
            Date::of(self@) == self,
    {
    }

    /// The date `year`-`month`-`day`, or `None` where no such day exists or
    /// the year lies outside `MIN_YEAR..=MAX_YEAR`.
    pub fn from_ymd_opt(year: i32, month: u32, day: u32) -> (r: Option<Date>)
        ensures
            r.is_some() <==> (Ymd { year: year as int, month: month as int, day: day as int }).valid(),
            r matches Some(d) ==> d@ == (Ymd { year: year as int, month: month as int, day: day as int }),
    {
        if year < MIN_YEAR || year > MAX_YEAR || month < 1 || month > 12 || day < 1 {
            return None;
        }
        if day > month_length(year, month) {
            return None;
        }
        Some(Date { year, month, day })
    }

    /// The date `year`-`month`-`day`, which must exist.
    pub fn from_ymd(year: i32, month: u32, day: u32) -> (r: Date)
        requires
            (Ymd { year: year as int, month: month as int, day: day as int }).valid(),
        ensures
            r@ == (Ymd { year: year as int, month: month as int, day: day as int }),
    {
        Date { year, month, day }
    }

    /// The year.
    pub fn year(&self) -> (r: i32)
        ensures
            r == self@.year,
            self@.valid(),
    {
        proof {
            use_type_invariant(self);
        }
        self.year
    }

    /// The month, 1 to 12.
    pub fn month(&self) -> (r: u32)
        ensures
            r == self@.month,
            self@.valid(),
    {
        proof {
            use_type_invariant(self);
        }
        self.month
    }

    /// The day of the month, 1 to 31.
    pub fn day(&self) -> (r: u32)
        ensures
            r == self@.day,
            self@.valid(),
    {
        proof {
            use_type_invariant(self);
        }
        self.day
    }
}

/// Lifting a year by 2147484000, a multiple of 400, changes none of the
/// remainders that decide on leap years.
proof fn lemma_lifted_year(year: int)
    ensures
        (year + 2_147_484_000) % 4 == year % 4,
        (year + 2_147_484_000) % 100 == year % 100,
        (year + 2_147_484_000) % 400 == year % 400,
{
    vstd::arithmetic::div_mod::lemma_mod_multiples_vanish(536_871_000, year, 4);
    vstd::arithmetic::div_mod::lemma_mod_multiples_vanish(21_474_840, year, 100);
    vstd::arithmetic::div_mod::lemma_mod_multiples_vanish(5_368_710, year, 400);
    assert(4 * 536_871_000 + year == year + 2_147_484_000);
    assert(100 * 21_474_840 + year == year + 2_147_484_000);
    assert(400 * 5_368_710 + year == year + 2_147_484_000);
}

/// Whether `year` is a leap year.
fn leap_year(year: i32) -> (r: bool)
    ensures
        r == is_leap_year(year as int),
{
    // a multiple of 400 that lifts every year above zero
    let lifted: u64 = (year as i64 + 2_147_484_000) as u64;
    proof {
        lemma_lifted_year(year as int);
    }
    lifted % 4 == 0 && (lifted % 100 != 0 || lifted % 400 == 0)
}

/// Length in days of month `month` of `year`.
fn month_length(year: i32, month: u32) -> (r: u32)
    requires
        1 <= month <= 12,
    ensures
        r == month_len(year as int, month as int),
{
    if month == 2 {
        if leap_year(year) { 29 } else { 28 }
    } else if month == 4 || month == 6 || month == 9 || month == 11 {
        30
    } else {
        31
    }
}

/// Number of days of `year`.
pub open spec fn year_len(year: int) -> int {
    if is_leap_year(year) { 366 } else { 365 }
}

/// One more multiple of 4 lies at or below `y` than below it exactly where
/// `y` is one.
proof fn lemma_step_4(y: int)
    ensures
        y / 4 - (y - 1) / 4 == if y % 4 == 0 { 1int } else { 0int },
{
}

/// The same for multiples of 100.
proof fn lemma_step_100(y: int)
    ensures
        y / 100 - (y - 1) / 100 == if y % 100 == 0 { 1int } else { 0int },
{
}

/// The same for multiples of 400.
proof fn lemma_step_400(y: int)
    ensures
        y / 400 - (y - 1) / 400 == if y % 400 == 0 { 1int } else { 0int },
{
}

/// A multiple of 400 is one of 100, and a multiple of 100 is one of 4.
proof fn lemma_multiples(y: int)
    ensures
        y % 400 == 0 ==> y % 100 == 0,
        y % 100 == 0 ==> y % 4 == 0,
{
}

/// Each year begins where the year before it ends.
pub proof fn lemma_days_before_year_step(year: int)
    ensures
        days_before_year(year + 1) == days_before_year(year) + year_len(year),
{
    lemma_step_4(year);
    lemma_step_100(year);
    lemma_step_400(year);
    lemma_multiples(year);
}

/// Later years begin later.
pub proof fn lemma_days_before_year_monotone(y1: int, y2: int)
    requires
        y1 <= y2,
    ensures
        days_before_year(y1) + 365 * (y2 - y1) <= days_before_year(y2),
    decreases y2 - y1,
{
    if y1 < y2 {
        lemma_days_before_year_monotone(y1, y2 - 1);
        lemma_days_before_year_step(y2 - 1);
    }
}

/// Each month begins where the month before it ends, and the year ends with
/// December.
pub proof fn lemma_days_before_month_step(year: int, month: int)
    requires
        1 <= month <= 12,
    ensures
        month < 12 ==> days_before_month(year, month + 1) == days_before_month(year, month)
            + month_len(year, month),
        month == 12 ==> days_before_month(year, month) + month_len(year, month) == year_len(year),
        0 <= days_before_month(year, month),
        days_before_month(year, month) + month_len(year, month) <= year_len(year),
{
}

/// Within one year, later months begin later.
pub proof fn lemma_days_before_month_monotone(year: int, m1: int, m2: int)
    requires
        1 <= m1 < m2 <= 12,
    ensures
        days_before_month(year, m1) + month_len(year, m1) <= days_before_month(year, m2),
    decreases m2 - m1,
{
    lemma_days_before_month_step(year, m1);
    if m1 + 1 < m2 {
        lemma_days_before_month_monotone(year, m1 + 1, m2);
    }
}

/// The day number orders dates as the calendar does.
pub proof fn lemma_day_number_order(a: Ymd, b: Ymd)
    requires
        1 <= a.month <= 12,
        1 <= a.day <= month_len(a.year, a.month),
        1 <= b.month <= 12,
        1 <= b.day <= month_len(b.year, b.month),
    ensures
        a.before(b) <==> a.day_number() < b.day_number(),
        a == b <==> a.day_number() == b.day_number(),
{
    lemma_days_before_month_step(a.year, a.month);
    lemma_days_before_month_step(b.year, b.month);
    if a.year < b.year {
        lemma_days_before_year_step(a.year);
        lemma_days_before_year_monotone(a.year + 1, b.year);
    } else if b.year < a.year {
        lemma_days_before_year_step(b.year);
        lemma_days_before_year_monotone(b.year + 1, a.year);
    } else if a.month < b.month {
        lemma_days_before_month_monotone(a.year, a.month, b.month);
    } else if b.month < a.month {
        lemma_days_before_month_monotone(a.year, b.month, a.month);
    }
}

/// Two dates that exist and share a day number are the same date.
pub proof fn lemma_day_number_unique(a: Ymd, b: Ymd)
    requires
        a.valid(),
        b.valid(),
        a.day_number() == b.day_number(),
    ensures
        a == b,
{
    lemma_day_number_order(a, b);
}

/// A day lies in one week of one ISO 8601 week year only.
pub proof fn lemma_iso_week_unique(n: int, year: int, week: int)
    requires
        in_iso_week(n, year, week),
    ensures
        iso_week_of(n) == (year, week),
{
    let q = (year, week);
    assert(in_iso_week(n, q.0, q.1));
    let p = iso_week_of(n);
    assert(in_iso_week(n, p.0, p.1));
    if p.0 < year {
        lemma_days_before_year_monotone(p.0 + 1, year);
    } else if year < p.0 {
        lemma_days_before_year_monotone(year + 1, p.0);
    }
}

/// A date that exists is the date at its day number.
pub proof fn lemma_date_at(a: Ymd)
    requires
        a.valid(),
    ensures
        date_at(a.day_number()) == a,
{
    let b = date_at(a.day_number());
    lemma_day_number_unique(a, b);
}

/// A week of an ISO 8601 week year has a number from 1 to 53.
pub proof fn lemma_iso_week_bound(year: int, week: int)
    requires
        iso_week_exists(year, week),
    ensures
        1 <= week <= 53,
{
    lemma_days_before_year_step(year);
}

/// The day after a day has the next day number.
pub proof fn lemma_next_day(a: Ymd)
    requires
        1 <= a.month <= 12,
        1 <= a.day <= month_len(a.year, a.month),
    ensures
        a.next_day().day_number() == a.day_number() + 1,
        1 <= a.next_day().month <= 12,
        1 <= a.next_day().day <= month_len(a.next_day().year, a.next_day().month),
        a.year <= a.next_day().year <= a.year + 1,
        a.next_day().year == a.year + 1 ==> a.month == 12 && a.day == 31,
{
    lemma_days_before_month_step(a.year, a.month);
    lemma_days_before_year_step(a.year);
}

/// Every day number in the range of day numbers is that of a date that
/// exists, and `date_at` gives that date.
pub proof fn lemma_date_exists(n: int)
    requires
        in_day_range(n),
    ensures
        date_at(n).valid(),
        date_at(n).day_number() == n,
    decreases n - min_day_number(),
{
    if n == min_day_number() {
        let first = Ymd { year: MIN_YEAR as int, month: 1, day: 1 };
        assert(first.valid() && first.day_number() == n);
    } else {
        lemma_date_exists(n - 1);
        let a = date_at(n - 1);
        let b = a.next_day();
        lemma_next_day(a);
        let last = Ymd { year: MAX_YEAR as int, month: 12, day: 31 };
        assert(last.day_number() == max_day_number()) by {
            lemma_days_before_month_step(MAX_YEAR as int, 12);
            lemma_days_before_year_step(MAX_YEAR as int);
        }
        lemma_day_number_order(a, last);
        assert(b.valid() && b.day_number() == n);
    }
}

/// The day number of a date that exists lies in the range of day numbers.
pub proof fn lemma_valid_in_day_range(a: Ymd)
    requires
        a.valid(),
    ensures
        in_day_range(a.day_number()),
{
    lemma_days_before_month_step(a.year, a.month);
    lemma_days_before_year_step(a.year);
    lemma_days_before_year_monotone(MIN_YEAR as int, a.year);
    lemma_days_before_year_monotone(a.year + 1, MAX_YEAR as int + 1);
}

} // verus!
