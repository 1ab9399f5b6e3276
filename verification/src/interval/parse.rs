//! Intervals and dates read from text.

use crate::date::{Date, Ymd};
use crate::duration::parse::{parse_relative_duration, relative_duration};
use crate::duration::relative::{Mwd, MAX_COMPONENT};
use crate::duration::RelativeDuration;
use crate::interval::closed::{has_end, span, ClosedInterval};
use crate::interval::open::{OpenEndInterval, OpenStartInterval};
use crate::parser::{error_at, n_digits, take_n_digits, ParseError, ParseErrorKind};
use vstd::prelude::*;
use vstd::slice::slice_subrange;

verus! {

/// What is left of `s` behind the byte `b` that it begins with, or the
/// error where it begins otherwise.
pub open spec fn byte(s: Seq<u8>, b: u8) -> Result<Seq<u8>, ParseError> {
    if s.len() > 0 && s[0] == b {
        Ok(s.skip(1))
    } else {
        Err(error_at(ParseErrorKind::Tag, s))
    }
}

/// What is left of `s` behind the three bytes that it begins with, or the
/// error where it begins otherwise.
pub open spec fn mark(s: Seq<u8>, b0: u8, b1: u8, b2: u8) -> Result<Seq<u8>, ParseError> {
    if s.len() >= 3 && s[0] == b0 && s[1] == b1 && s[2] == b2 {
        Ok(s.skip(3))
    } else {
        Err(error_at(ParseErrorKind::Tag, s))
    }
}

/// What `parse_date` gives for the input `s`: four digits of year, two of
/// month and two of day, with `-` between them, that name a day that
/// exists.
pub open spec fn date(s: Seq<u8>) -> Result<(Seq<u8>, Ymd), ParseError> {
    match n_digits(s, 4) {
        Err(e) => Err(e),
        Ok((s1, year)) => match byte(s1, 0x2d) {
            Err(e) => Err(e),
            Ok(s2) => match n_digits(s2, 2) {
                Err(e) => Err(e),
                Ok((s3, month)) => match byte(s3, 0x2d) {
                    Err(e) => Err(e),
                    Ok(s4) => match n_digits(s4, 2) {
                        Err(e) => Err(e),
                        Ok((s5, day)) => if (Ymd { year, month, day }).valid() {
                            Ok((s5, Ymd { year, month, day }))
                        } else {
                            Err(error_at(ParseErrorKind::InvalidDate, s))
                        },
                    },
                },
            },
        },
    }
}

/// The interval from `start` with the step `d`, or the error where it has
/// no last date.
pub open spec fn closed(s: Seq<u8>, rest: Seq<u8>, start: Ymd, d: Mwd) -> Result<
    (Seq<u8>, (Ymd, Mwd)),
    ParseError,
> {
    if d.fits() && has_end(start, d) {
        Ok((rest, (start, d)))
    } else {
        Err(error_at(ParseErrorKind::OutOfRange, s))
    }
}

/// What `parse_start_and_duration` gives for the input `s`: a date, `/`
/// and a duration.
pub open spec fn start_and_duration(s: Seq<u8>) -> Result<(Seq<u8>, (Ymd, Mwd)), ParseError> {
    match date(s) {
        Err(e) => Err(e),
        Ok((s1, start)) => match byte(s1, 0x2f) {
            Err(e) => Err(e),
            Ok(s2) => match relative_duration(s2) {
                Err(e) => Err(e),
                Ok((s3, d)) => closed(s, s3, start, d),
            },
        },
    }
}

/// What `parse_start_and_end` gives for the input `s`: a date, `/` and
/// another date.
pub open spec fn start_and_end(s: Seq<u8>) -> Result<(Seq<u8>, (Ymd, Mwd)), ParseError> {
    match date(s) {
        Err(e) => Err(e),
        Ok((s1, start)) => match byte(s1, 0x2f) {
            Err(e) => Err(e),
            Ok(s2) => match date(s2) {
                Err(e) => Err(e),
                Ok((s3, end)) => closed(s, s3, start, span(start, end)),
            },
        },
    }
}

/// What `parse_interval` gives for the input `s`: two dates where `s`
/// holds them, a date and a duration otherwise.
pub open spec fn interval(s: Seq<u8>) -> Result<(Seq<u8>, (Ymd, Mwd)), ParseError> {
    match start_and_end(s) {
        Ok(found) => Ok(found),
        Err(_) => start_and_duration(s),
    }
}

/// What `parse_open_start_interval` gives for the input `s`: `../` and a
/// date.
pub open spec fn open_start(s: Seq<u8>) -> Result<(Seq<u8>, Ymd), ParseError> {
    match mark(s, 0x2e, 0x2e, 0x2f) {
        Err(e) => Err(e),
        Ok(s1) => date(s1),
    }
}

/// What `parse_open_end_interval` gives for the input `s`: a date and
/// `/..`.
pub open spec fn open_end(s: Seq<u8>) -> Result<(Seq<u8>, Ymd), ParseError> {
    match date(s) {
        Err(e) => Err(e),
        Ok((s1, start)) => match mark(s1, 0x2f, 0x2e, 0x2e) {
            Err(e) => Err(e),
            Ok(s2) => Ok((s2, start)),
        },
    }
}

/// Takes the byte `b` from the beginning of `i`.
fn take_byte(i: &[u8], b: u8) -> (r: Result<&[u8], ParseError>)
    ensures
        match byte(i@, b) {
            Ok(rest) => r matches Ok(left) && left@ == rest,
            Err(e) => r == Err::<&[u8], ParseError>(e),
        },
{
    if i.len() > 0 && i[0] == b {
        proof {
            assert(i@.subrange(1, i@.len() as int) =~= i@.skip(1));
        }
        Ok(slice_subrange(i, 1, i.len()))
    } else {
        Err(ParseError { kind: ParseErrorKind::Tag, remaining: i.len() })
    }
}

/// Takes three bytes from the beginning of `i`.
fn take_mark(i: &[u8], b0: u8, b1: u8, b2: u8) -> (r: Result<&[u8], ParseError>)
    ensures
        match mark(i@, b0, b1, b2) {
            Ok(rest) => r matches Ok(left) && left@ == rest,
            Err(e) => r == Err::<&[u8], ParseError>(e),
        },
{
    if i.len() >= 3 && i[0] == b0 && i[1] == b1 && i[2] == b2 {
        proof {
            assert(i@.subrange(3, i@.len() as int) =~= i@.skip(3));
        }
        Ok(slice_subrange(i, 3, i.len()))
    } else {
        Err(ParseError { kind: ParseErrorKind::Tag, remaining: i.len() })
    }
}

/// Reads a date in the form `2022-01-31` from the beginning of `i`. Gives
/// the rest of the input and the date.
pub fn parse_date(i: &[u8]) -> (r: Result<(&[u8], Date), ParseError>)
    ensures
        match date(i@) {
            Ok((rest, a)) => r matches Ok((left, d)) && left@ == rest && d@ == a,
            Err(e) => r == Err::<(&[u8], Date), ParseError>(e),
        },
{
    let (i1, year) = match take_n_digits(i, 4) {
        Ok(pair) => pair,
        Err(e) => { return Err(e); },
    };
    let i2 = match take_byte(i1, 0x2d) {
        Ok(rest) => rest,
        Err(e) => { return Err(e); },
    };
    let (i3, month) = match take_n_digits(i2, 2) {
        Ok(pair) => pair,
        Err(e) => { return Err(e); },
    };
    let i4 = match take_byte(i3, 0x2d) {
        Ok(rest) => rest,
        Err(e) => { return Err(e); },
    };
    let (i5, day) = match take_n_digits(i4, 2) {
        Ok(pair) => pair,
        Err(e) => { return Err(e); },
    };
    if year > 0x7fff_ffff {
        return Err(ParseError { kind: ParseErrorKind::InvalidDate, remaining: i.len() });
    }
    match Date::from_ymd_opt(year as i32, month, day) {
        Some(d) => Ok((i5, d)),
        None => Err(ParseError { kind: ParseErrorKind::InvalidDate, remaining: i.len() }),
    }
}

/// Reads a date, `/` and a duration, such as `2022-01-01/P1M`.
pub fn parse_start_and_duration(i: &[u8]) -> (r: Result<(&[u8], ClosedInterval), ParseError>)
    ensures
        match start_and_duration(i@) {
            Ok((rest, parts)) => r matches Ok((left, c)) && left@ == rest && c.spec_start()@
                == parts.0 && c.spec_duration()@ == parts.1,
            Err(e) => r == Err::<(&[u8], ClosedInterval), ParseError>(e),
        },
{
    let (i1, start) = match parse_date(i) {
        Ok(pair) => pair,
        Err(e) => { return Err(e); },
    };
    let i2 = match take_byte(i1, 0x2f) {
        Ok(rest) => rest,
        Err(e) => { return Err(e); },
    };
    let (i3, duration) = match parse_relative_duration(i2) {
        Ok(pair) => pair,
        Err(e) => { return Err(e); },
    };
    proof {
        use_type_invariant(&duration);
    }
    match ClosedInterval::checked_from_start(start, duration) {
        Some(c) => {
            proof {
                ClosedInterval::lemma_from_start(start, duration);
            }
            Ok((i3, c))
        },
        None => Err(ParseError { kind: ParseErrorKind::OutOfRange, remaining: i.len() }),
    }
}

/// Reads two dates with `/` between them, such as
/// `2022-01-01/2022-12-31`. The interval is the one that
/// `ClosedInterval::with_dates` makes of the two.
pub fn parse_start_and_end(i: &[u8]) -> (r: Result<(&[u8], ClosedInterval), ParseError>)
    ensures
        match start_and_end(i@) {
            Ok((rest, parts)) => r matches Ok((left, c)) && left@ == rest && c.spec_start()@
                == parts.0 && c.spec_duration()@ == parts.1,
            Err(e) => r == Err::<(&[u8], ClosedInterval), ParseError>(e),
        },
{
    let (i1, start) = match parse_date(i) {
        Ok(pair) => pair,
        Err(e) => { return Err(e); },
    };
    let i2 = match take_byte(i1, 0x2f) {
        Ok(rest) => rest,
        Err(e) => { return Err(e); },
    };
    let (i3, end) = match parse_date(i2) {
        Ok(pair) => pair,
        Err(e) => { return Err(e); },
    };
    let out_of_range = ParseError { kind: ParseErrorKind::OutOfRange, remaining: i.len() };
    let months: i64 = (end.year() as i64 - start.year() as i64) * 12 + (end.month() as i64
        - start.month() as i64);
    if months < -(MAX_COMPONENT as i64) || months > MAX_COMPONENT as i64 {
        return Err(out_of_range);
    }
    proof {
        use_type_invariant(&start);
        use_type_invariant(&end);
    }
    let between = RelativeDuration::from_duration_between(start, end);
    let zero = RelativeDuration::zero();
    let duration = if between.is_less_than(&zero) {
        between.with_days(between.num_days() - 1)
    } else {
        between.with_days(between.num_days() + 1)
    };
    proof {
        use_type_invariant(&duration);
    }
    match ClosedInterval::checked_from_start(start, duration) {
        Some(c) => {
            proof {
                ClosedInterval::lemma_from_start(start, duration);
            }
            Ok((i3, c))
        },
        None => Err(out_of_range),
    }
}

/// Reads a closed interval: two dates, or a date and a duration, with `/`
/// between them.
pub fn parse_interval(i: &[u8]) -> (r: Result<(&[u8], ClosedInterval), ParseError>)
    ensures
        match interval(i@) {
            Ok((rest, parts)) => r matches Ok((left, c)) && left@ == rest && c.spec_start()@
                == parts.0 && c.spec_duration()@ == parts.1,
            Err(e) => r == Err::<(&[u8], ClosedInterval), ParseError>(e),
        },
{
    match parse_start_and_end(i) {
        Ok(found) => Ok(found),
        Err(_) => parse_start_and_duration(i),
    }
}

/// Reads an interval without a first date: `../` and the last date.
pub fn parse_open_start_interval(i: &[u8]) -> (r: Result<(&[u8], OpenStartInterval), ParseError>)
    ensures
        match open_start(i@) {
            Ok((rest, end)) => r matches Ok((left, o)) && left@ == rest && o.spec_end()@ == end,
            Err(e) => r == Err::<(&[u8], OpenStartInterval), ParseError>(e),
        },
{
    let i1 = match take_mark(i, 0x2e, 0x2e, 0x2f) {
        Ok(rest) => rest,
        Err(e) => { return Err(e); },
    };
    match parse_date(i1) {
        Ok((i2, date)) => Ok((i2, OpenStartInterval::new(date))),
        Err(e) => Err(e),
    }
}

/// Reads an interval without a last date: the first date and `/..`.
pub fn parse_open_end_interval(i: &[u8]) -> (r: Result<(&[u8], OpenEndInterval), ParseError>)
    ensures
        match open_end(i@) {
            Ok((rest, start)) => r matches Ok((left, o)) && left@ == rest && o.spec_start()@
                == start,
            Err(e) => r == Err::<(&[u8], OpenEndInterval), ParseError>(e),
        },
{
    let (i1, date) = match parse_date(i) {
        Ok(pair) => pair,
        Err(e) => { return Err(e); },
    };
    match take_mark(i1, 0x2f, 0x2e, 0x2e) {
        Ok(i2) => Ok((i2, OpenEndInterval::new(date))),
        Err(e) => Err(e),
    }
}

} // verus!
