//! Durations read from text in the form of ISO 8601-2.

use crate::duration::relative::{Mwd, RelativeDuration, MAX_COMPONENT};
use crate::parser::{error_at, signed_digits, take_signed_digits, ParseError, ParseErrorKind};
use vstd::prelude::*;
use vstd::slice::slice_subrange;

verus! {

/// One chunk of a duration: a count and the unit it counts.
#[derive(Clone, Copy, Debug, PartialEq, Eq, Structural)]
pub enum Unit {
    /// A count of years.
    Years(i32),
    /// A count of months.
    Months(i32),
    /// A count of weeks.
    Weeks(i32),
    /// A count of days.
    Days(i32),
}

impl Unit {
    /// Place of the unit in the order in which chunks are written: 0 for
    /// years, 3 for days.
    pub open spec fn place(self) -> int {
        match self {
            Unit::Years(_) => 0,
            Unit::Months(_) => 1,
            Unit::Weeks(_) => 2,
            Unit::Days(_) => 3,
        }
    }

    /// The count.
    pub open spec fn amount(self) -> int {
        match self {
            Unit::Years(n) => n as int,
            Unit::Months(n) => n as int,
            Unit::Weeks(n) => n as int,
            Unit::Days(n) => n as int,
        }
    }
}

/// What `parse_duration_chunk` gives for the input `s`: a whole number
/// and one of the letters `Y`, `M`, `W`, `D` behind it.
pub open spec fn duration_chunk(s: Seq<u8>) -> Result<(Seq<u8>, Unit), ParseError> {
    match signed_digits(s) {
        Err(e) => Err(e),
        Ok((rest, amount)) => {
            if rest.len() > 0 && rest[0] == 0x59 {
                Ok((rest.skip(1), Unit::Years(amount as i32)))
            } else if rest.len() > 0 && rest[0] == 0x4d {
                Ok((rest.skip(1), Unit::Months(amount as i32)))
            } else if rest.len() > 0 && rest[0] == 0x57 {
                Ok((rest.skip(1), Unit::Weeks(amount as i32)))
            } else if rest.len() > 0 && rest[0] == 0x44 {
                Ok((rest.skip(1), Unit::Days(amount as i32)))
            } else {
                Err(error_at(ParseErrorKind::OneOf, rest))
            }
        },
    }
}

/// The chunk of the unit at place `place` that `s` begins with: the rest
/// of the input and the count. Where `s` begins with no chunk of that
/// unit, nothing is taken and the count is 0. A number too large to be
/// held is an error.
pub open spec fn slot(s: Seq<u8>, place: int) -> Result<(Seq<u8>, int), ParseError> {
    match duration_chunk(s) {
        Ok((rest, unit)) => if unit.place() == place {
            Ok((rest, unit.amount()))
        } else {
            Ok((s, 0))
        },
        Err(e) => if e.kind == ParseErrorKind::TooLarge {
            Err(e)
        } else {
            Ok((s, 0))
        },
    }
}

/// The duration made of the four counts, the years folded into the
/// months, or the error where a component is beyond what a duration
/// holds.
pub open spec fn folded(s: Seq<u8>, rest: Seq<u8>, years: int, months: int, weeks: int, days: int)
    -> Result<(Seq<u8>, Mwd), ParseError> {
    let d = Mwd { months: years * 12 + months, weeks, days };
    if d.fits() {
        Ok((rest, d))
    } else {
        Err(error_at(ParseErrorKind::TooLarge, s))
    }
}

/// What `parse_relative_duration` gives for the input `s`: the letter
/// `P`, then up to four chunks in the order years, months, weeks, days,
/// each of which may be absent.
pub open spec fn relative_duration(s: Seq<u8>) -> Result<(Seq<u8>, Mwd), ParseError> {
    if s.len() == 0 || s[0] != 0x50 {
        Err(error_at(ParseErrorKind::Tag, s))
    } else {
        match slot(s.skip(1), 0) {
            Err(e) => Err(e),
            Ok((s1, years)) => match slot(s1, 1) {
                Err(e) => Err(e),
                Ok((s2, months)) => match slot(s2, 2) {
                    Err(e) => Err(e),
                    Ok((s3, weeks)) => match slot(s3, 3) {
                        Err(e) => Err(e),
                        Ok((s4, days)) => folded(s.skip(1), s4, years, months, weeks, days),
                    },
                },
            },
        }
    }
}

/// Reads one chunk of a duration from the beginning of `input`: a whole
/// number and its unit letter.
pub fn parse_duration_chunk(input: &[u8]) -> (r: Result<(&[u8], Unit), ParseError>)
    ensures
        match duration_chunk(input@) {
            Ok((rest, unit)) => r matches Ok((left, u)) && left@ == rest && u == unit,
            Err(e) => r == Err::<(&[u8], Unit), ParseError>(e),
        },
{
    let (i, amt) = match take_signed_digits(input) {
        Ok(pair) => pair,
        Err(e) => { return Err(e); },
    };
    if i.len() == 0 {
        return Err(ParseError { kind: ParseErrorKind::OneOf, remaining: i.len() });
    }
    let u = i[0];
    let rest = slice_subrange(i, 1, i.len());
    proof {
        assert(i@.subrange(1, i@.len() as int) =~= i@.skip(1));
    }
    if u == 0x59 {
        Ok((rest, Unit::Years(amt)))
    } else if u == 0x4d {
        Ok((rest, Unit::Months(amt)))
    } else if u == 0x57 {
        Ok((rest, Unit::Weeks(amt)))
    } else if u == 0x44 {
        Ok((rest, Unit::Days(amt)))
    } else {
        Err(ParseError { kind: ParseErrorKind::OneOf, remaining: i.len() })
    }
}

/// Reads the chunk of the unit at place `place`, where `input` begins
/// with one.
fn take_slot(input: &[u8], place: u8) -> (r: Result<(&[u8], i32), ParseError>)
    ensures
        match slot(input@, place as int) {
            Ok((rest, amount)) => r matches Ok((left, n)) && left@ == rest && n == amount,
            Err(e) => r == Err::<(&[u8], i32), ParseError>(e),
        },
{
    match parse_duration_chunk(input) {
        Ok((rest, unit)) => match unit {
            Unit::Years(n) => if place == 0 {
                Ok((rest, n))
            } else {
                Ok((input, 0))
            },
            Unit::Months(n) => if place == 1 {
                Ok((rest, n))
            } else {
                Ok((input, 0))
            },
            Unit::Weeks(n) => if place == 2 {
                Ok((rest, n))
            } else {
                Ok((input, 0))
            },
            Unit::Days(n) => if place == 3 {
                Ok((rest, n))
            } else {
                Ok((input, 0))
            },
        },
        Err(e) => match e.kind {
            ParseErrorKind::TooLarge => Err(e),
            _ => Ok((input, 0)),
        },
    }
}

/// Reads a duration in the form of ISO 8601-2 from the beginning of
/// `input`, such as `P3W2D` or `P-4M3W`. Years are counted as twelve
/// months each. Gives the rest of the input and the duration.
pub fn parse_relative_duration(input: &[u8]) -> (r: Result<(&[u8], RelativeDuration), ParseError>)
    ensures
        match relative_duration(input@) {
            Ok((rest, d)) => r matches Ok((left, rd)) && left@ == rest && rd@ == d,
            Err(e) => r == Err::<(&[u8], RelativeDuration), ParseError>(e),
        },
{
    if input.len() == 0 || input[0] != 0x50 {
        return Err(ParseError { kind: ParseErrorKind::Tag, remaining: input.len() });
    }
    let chunks = slice_subrange(input, 1, input.len());
    proof {
        assert(input@.subrange(1, input@.len() as int) =~= input@.skip(1));
    }
    let (i, years) = match take_slot(chunks, 0) {
        Ok(pair) => pair,
        Err(e) => { return Err(e); },
    };
    let (i, months) = match take_slot(i, 1) {
        Ok(pair) => pair,
        Err(e) => { return Err(e); },
    };
    let (i, weeks) = match take_slot(i, 2) {
        Ok(pair) => pair,
        Err(e) => { return Err(e); },
    };
    let (i, days) = match take_slot(i, 3) {
        Ok(pair) => pair,
        Err(e) => { return Err(e); },
    };
    let all_months: i64 = years as i64 * 12 + months as i64;
    if all_months < -(MAX_COMPONENT as i64) || all_months > MAX_COMPONENT as i64 {
        return Err(ParseError { kind: ParseErrorKind::TooLarge, remaining: chunks.len() });
    }
    match RelativeDuration::from_raw(all_months as i32, weeks, days) {
        Some(rd) => Ok((i, rd)),
        None => Err(ParseError { kind: ParseErrorKind::TooLarge, remaining: chunks.len() }),
    }
}

} // verus!
