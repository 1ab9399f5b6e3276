//! A frame of the calendar, named by its year and its place in the year.

use crate::date::naive;
use crate::date::{
    in_day_range, iso_date_exists, iso_day_number, lemma_date_at, lemma_date_exists,
    lemma_days_before_month_step, lemma_days_before_year_step, lemma_valid_in_day_range,
    month_len, Date, Weekday, Ymd, MAX_YEAR, MIN_YEAR,
};
use crate::duration::relative::Mwd;
use crate::duration::RelativeDuration;
use crate::interval::closed::{adjusted, end_of, has_end, lemma_end, ClosedInterval};
use crate::interval::Interval;
use crate::text::{decimal, int_text, lemma_digits_len, padded, zeros};
use crate::util::shift::months_later;
use vstd::prelude::*;
use vstd::string::StringExecFns;

verus! {

/// A frame of the calendar of a fixed kind. A frame is more useful than an
/// interval where time comes in fixed pieces: one can step from quarter to
/// quarter without a date in hand.
#[derive(Clone, Copy, Debug, PartialEq, Eq, Structural, PartialOrd, Ord, Hash)]
pub enum CalendarUnit {
    /// A calendar year.
    Year(i32),
    /// A quarter of a year: the year, and 1 to 4.
    Quarter(i32, u8),
    /// A half of a year: the year, and 1 or 2.
    Half(i32, u8),
    /// A month: the year, and 1 to 12.
    Month(i32, u8),
    /// An ISO 8601 week: the week year, and 1 to 53.
    Week(i32, u8),
}

/// The first day of month `month` of `year`.
pub open spec fn first_of_month(year: int, month: int) -> Ymd {
    Ymd { year, month, day: 1 }
}

/// The last day of month `month` of `year`.
pub open spec fn last_of_month(year: int, month: int) -> Ymd {
    Ymd { year, month, day: month_len(year, month) }
}

/// The duration of `months` months.
pub open spec fn of_months(months: int) -> Mwd {
    Mwd { months, weeks: 0, days: 0 }
}

/// The duration of `days` days.
pub open spec fn of_days(days: int) -> Mwd {
    Mwd { months: 0, weeks: 0, days }
}

/// An interval that begins on the first day of a month and steps by whole
/// months within one year ends on the last day of the month before the
/// next interval.
pub proof fn lemma_months_end(year: int, month: int, months: int)
    requires
        MIN_YEAR <= year < MAX_YEAR,
        1 <= month,
        1 <= months,
        month + months <= 13,
    ensures
        has_end(first_of_month(year, month), of_months(months)),
        end_of(first_of_month(year, month), of_months(months)) == last_of_month(
            year,
            month + months - 1,
        ),
{
    let start = first_of_month(year, month);
    let step = adjusted(of_months(months));
    assert(step == Mwd { months, weeks: 0, days: -1 });
    let next = months_later(start, months);
    let last = last_of_month(year, month + months - 1);
    lemma_days_before_month_step(year, month + months - 1);
    lemma_days_before_year_step(year);
    assert(next == first_of_month(
        if month + months == 13 {
            year + 1
        } else {
            year
        },
        if month + months == 13 {
            1
        } else {
            month + months
        },
    ));
    assert(next.day_number() - 1 == last.day_number());
    lemma_valid_in_day_range(next);
    lemma_valid_in_day_range(last);
    lemma_date_at(last);
}

/// Adds `n` to `s` in at least two digits.
fn push_two_digits(s: &mut String, n: u8)
    ensures
        final(s)@ == old(s)@ + padded(n as nat, 2),
{
    proof {
        lemma_digits_len(n as nat);
    }
    if n < 10 {
        proof {
            reveal_strlit("0");
            assert(zeros(1) =~= "0"@);
        }
        s.append("0");
    }
    s.append(int_text(n as i32).as_str());
}

impl CalendarUnit {
    /// The year of the frame.
    pub open spec fn year(self) -> int {
        match self {
            CalendarUnit::Year(y) => y as int,
            CalendarUnit::Quarter(y, _) => y as int,
            CalendarUnit::Half(y, _) => y as int,
            CalendarUnit::Month(y, _) => y as int,
            CalendarUnit::Week(y, _) => y as int,
        }
    }

    /// Number of months that a frame of this kind spans; none for a week.
    pub open spec fn months(self) -> int {
        match self {
            CalendarUnit::Year(_) => 12,
            CalendarUnit::Quarter(_, _) => 3,
            CalendarUnit::Half(_, _) => 6,
            CalendarUnit::Month(_, _) => 1,
            CalendarUnit::Week(_, _) => 0,
        }
    }

    /// Place of the frame among the frames of its kind in the year, from 1.
    pub open spec fn ordinal(self) -> int {
        match self {
            CalendarUnit::Year(_) => 1,
            CalendarUnit::Quarter(_, q) => q as int,
            CalendarUnit::Half(_, h) => h as int,
            CalendarUnit::Month(_, m) => m as int,
            CalendarUnit::Week(_, w) => w as int,
        }
    }

    /// Number of frames of this kind in a year; none is given for weeks,
    /// of which a year may have 52 or 53.
    pub open spec fn per_year(self) -> int {
        match self {
            CalendarUnit::Year(_) => 1,
            CalendarUnit::Quarter(_, _) => 4,
            CalendarUnit::Half(_, _) => 2,
            CalendarUnit::Month(_, _) => 12,
            CalendarUnit::Week(_, _) => 0,
        }
    }

    /// First month of the frame, for the frames made of months.
    pub open spec fn first_month(self) -> int {
        (self.ordinal() - 1) * self.months() + 1
    }

    /// Whether the frame can be made into an interval: it names a frame
    /// that exists, and its days and the first day after it are days that a
    /// [`Date`] can hold.
    pub open spec fn has_interval(self) -> bool {
        match self {
            CalendarUnit::Week(y, w) => {
                &&& MIN_YEAR <= y <= MAX_YEAR
                &&& iso_date_exists(y as int, w as int, 0)
                &&& in_day_range(iso_day_number(y as int, w as int, 0) + 7)
            },
            _ => {
                &&& MIN_YEAR <= self.year() < MAX_YEAR
                &&& 1 <= self.ordinal() <= self.per_year()
            },
        }
    }

    /// The frame after this one, as contracts read it: the place in the
    /// year goes up by one, and past the last place of the year the year
    /// goes up and the place is 1 again.
    pub open spec fn next_unit(self) -> CalendarUnit {
        match self {
            CalendarUnit::Year(y) => CalendarUnit::Year((y + 1) as i32),
            CalendarUnit::Quarter(y, q) => if q == 4 {
                CalendarUnit::Quarter((y + 1) as i32, 1)
            } else {
                CalendarUnit::Quarter(y, (q + 1) as u8)
            },
            CalendarUnit::Half(y, h) => if h == 2 {
                CalendarUnit::Half((y + 1) as i32, 1)
            } else {
                CalendarUnit::Half(y, (h + 1) as u8)
            },
            CalendarUnit::Month(y, m) => if m == 12 {
                CalendarUnit::Month((y + 1) as i32, 1)
            } else {
                CalendarUnit::Month(y, (m + 1) as u8)
            },
            CalendarUnit::Week(y, w) => self,
        }
    }

    /// Whether the frame has a frame after it that this type can hold and
    /// knows how to find. The step from week to week is not defined.
    pub open spec fn can_advance(self) -> bool {
        match self {
            CalendarUnit::Week(_, _) => false,
            CalendarUnit::Year(y) => y < i32::MAX,
            _ => if self.ordinal() == self.per_year() {
                self.year() < i32::MAX
            } else {
                self.ordinal() < u8::MAX
            },
        }
    }

    /// The frame as an interval: from its first day, with the duration of
    /// a frame of its kind, so that it ends on its last day.
    pub fn into_interval(&self) -> (r: Interval)
        requires
            self.has_interval(),
        ensures
            r matches Interval::Closed(c) && match *self {
                CalendarUnit::Week(y, w) => {
                    &&& c.spec_start()@.day_number() == iso_day_number(y as int, w as int, 0)
                    &&& c.spec_duration()@ == of_days(7)
                    &&& c.spec_end()@.day_number() == iso_day_number(y as int, w as int, 6)
                },
                _ => {
                    &&& c.spec_start()@ == first_of_month(self.year(), self.first_month())
                    &&& c.spec_duration()@ == of_months(self.months())
                    &&& c.spec_end()@ == last_of_month(
                        self.year(),
                        self.first_month() + self.months() - 1,
                    )
                },
            },
    {
        let res = match self {
            CalendarUnit::Year(year) => {
                proof {
                    lemma_months_end(*year as int, 1, 12);
                }
                ClosedInterval::from_start(
                    Date::from_ymd(*year, 1, 1),
                    RelativeDuration::months(12),
                )
            },
            CalendarUnit::Quarter(year, quarter) => {
                let month: u32 = *quarter as u32 * 3 - 2;
                proof {
                    lemma_months_end(*year as int, month as int, 3);
                }
                ClosedInterval::from_start(
                    Date::from_ymd(*year, month, 1),
                    RelativeDuration::months(3),
                )
            },
            CalendarUnit::Half(year, half) => {
                let month: u32 = *half as u32 * 6 - 5;
                proof {
                    lemma_months_end(*year as int, month as int, 6);
                }
                ClosedInterval::from_start(
                    Date::from_ymd(*year, month, 1),
                    RelativeDuration::months(6),
                )
            },
            CalendarUnit::Month(year, month) => {
                proof {
                    lemma_months_end(*year as int, *month as int, 1);
                }
                ClosedInterval::from_start(
                    Date::from_ymd(*year, *month as u32, 1),
                    RelativeDuration::months(1),
                )
            },
            CalendarUnit::Week(year, week) => {
                let monday = naive::from_isoywd(*year, *week as u32, Weekday::Mon).unwrap();
                proof {
                    assert(adjusted(of_days(7)) == of_days(6));
                    assert(months_later(monday@, 0) == monday@);
                    lemma_valid_in_day_range(monday@);
                    lemma_date_exists(monday@.day_number() + 6);
                }
                ClosedInterval::from_start(monday, RelativeDuration::days(7))
            },
        };
        proof {
            lemma_end(res);
        }
        Interval::Closed(res)
    }

    /// The frame as an interval, or `None` where it names no frame that
    /// exists or reaches beyond the dates that a [`Date`] can hold.
    pub fn checked_into_interval(&self) -> (r: Option<Interval>)
        ensures
            r.is_some() <==> self.has_interval(),
    {
        let fits = match self {
            CalendarUnit::Year(year) => MIN_YEAR <= *year && *year < MAX_YEAR,
            CalendarUnit::Quarter(year, quarter) => MIN_YEAR <= *year && *year < MAX_YEAR && 1
                <= *quarter && *quarter <= 4,
            CalendarUnit::Half(year, half) => MIN_YEAR <= *year && *year < MAX_YEAR && 1 <= *half
                && *half <= 2,
            CalendarUnit::Month(year, month) => MIN_YEAR <= *year && *year < MAX_YEAR && 1
                <= *month && *month <= 12,
            CalendarUnit::Week(year, week) => {
                if MIN_YEAR <= *year && *year <= MAX_YEAR {
                    match naive::from_isoywd(*year, *week as u32, Weekday::Mon) {
                        Some(monday) => naive::add_days(monday, 7).is_some(),
                        None => false,
                    }
                } else {
                    false
                }
            },
        };
        if fits {
            Some(self.into_interval())
        } else {
            None
        }
    }

    /// The frame as text: `2022`, `2022-Q1`, `2022-H2`, `2022-03`, `2022-W07`.
    pub open spec fn text(self) -> Seq<char> {
        match self {
            CalendarUnit::Year(y) => decimal(y as int),
            CalendarUnit::Quarter(y, q) => decimal(y as int) + seq!['-', 'Q'] + decimal(q as int),
            CalendarUnit::Half(y, h) => decimal(y as int) + seq!['-', 'H'] + decimal(h as int),
            CalendarUnit::Month(y, m) => decimal(y as int) + seq!['-'] + padded(m as nat, 2),
            CalendarUnit::Week(y, w) => decimal(y as int) + seq!['-', 'W'] + padded(w as nat, 2),
        }
    }

    /// The frame as text: the year, and behind it the place in the year
    /// with the letter of the kind, months and weeks in two digits.
    pub fn to_string(&self) -> (r: String)
        ensures
            r@ == self.text(),
    {
        match self {
            CalendarUnit::Year(y) => int_text(*y),
            CalendarUnit::Quarter(y, q) => {
                proof {
                    reveal_strlit("-Q");
                    assert("-Q"@ =~= seq!['-', 'Q']);
                }
                let mut s = int_text(*y);
                s.append("-Q");
                s.append(int_text(*q as i32).as_str());
                s
            },
            CalendarUnit::Half(y, h) => {
                proof {
                    reveal_strlit("-H");
                    assert("-H"@ =~= seq!['-', 'H']);
                }
                let mut s = int_text(*y);
                s.append("-H");
                s.append(int_text(*h as i32).as_str());
                s
            },
            CalendarUnit::Month(y, m) => {
                proof {
                    reveal_strlit("-");
                    assert("-"@ =~= seq!['-']);
                }
                let mut s = int_text(*y);
                s.append("-");
                push_two_digits(&mut s, *m);
                s
            },
            CalendarUnit::Week(y, w) => {
                proof {
                    reveal_strlit("-W");
                    assert("-W"@ =~= seq!['-', 'W']);
                }
                let mut s = int_text(*y);
                s.append("-W");
                push_two_digits(&mut s, *w);
                s
            },
        }
    }

    /// Whether `succ` and `next` can be called.
    pub fn has_next(&self) -> (r: bool)
        ensures
            r == self.can_advance(),
    {
        match self {
            CalendarUnit::Year(year) => *year < i32::MAX,
            CalendarUnit::Quarter(year, quarter) => if *quarter == 4 {
                *year < i32::MAX
            } else {
                *quarter < u8::MAX
            },
            CalendarUnit::Half(year, half) => if *half == 2 {
                *year < i32::MAX
            } else {
                *half < u8::MAX
            },
            CalendarUnit::Month(year, month) => if *month == 12 {
                *year < i32::MAX
            } else {
                *month < u8::MAX
            },
            CalendarUnit::Week(_, _) => false,
        }
    }

    /// The frame after this one.
    pub fn succ(&self) -> (r: CalendarUnit)
        requires
            self.can_advance(),
        ensures
            r == self.next_unit(),
    {
        match self {
            CalendarUnit::Year(year) => CalendarUnit::Year(*year + 1),
            CalendarUnit::Quarter(year, quarter) => {
                let mut quarter = *quarter;
                let mut year = *year;
                if quarter == 4 {
                    quarter = 1;
                    year += 1;
                } else {
                    quarter += 1;
                }
                CalendarUnit::Quarter(year, quarter)
            },
            CalendarUnit::Half(year, half) => {
                let mut half = *half;
                let mut year = *year;
                if half == 2 {
                    half = 1;
                    year += 1;
                } else {
                    half += 1;
                }
                CalendarUnit::Half(year, half)
            },
            CalendarUnit::Month(year, month) => {
                let mut month = *month;
                let mut year = *year;
                if month == 12 {
                    month = 1;
                    year += 1;
                } else {
                    month += 1;
                }
                CalendarUnit::Month(year, month)
            },
            CalendarUnit::Week(year, week) => CalendarUnit::Week(*year, *week),
        }
    }

    /// Gives this frame and moves on to the one after it.
    pub fn next(&mut self) -> (r: Option<CalendarUnit>)
        requires
            old(self).can_advance(),
        ensures
            r == Some(*old(self)),
            *final(self) == old(self).next_unit(),
    {
        let cur = *self;
        *self = cur.succ();
        Some(cur)
    }
}

} // verus!
