//! Durations as text: in words, and in the form of ISO 8601-2.

use crate::duration::relative::{Mwd, RelativeDuration};
use crate::text::{decimal, int_text};
use vstd::prelude::*;
use vstd::string::StringExecFns;

verus! {

/// A count and its unit in words: `1 month`, `-1 month`, `3 months`.
pub open spec fn plural_text(unit: Seq<char>, num: int) -> Seq<char> {
    if num == 1 || num == -1 {
        decimal(num) + seq![' '] + unit
    } else {
        decimal(num) + seq![' '] + unit + seq!['s']
    }
}

/// A count and its unit in words, or nothing for a count of zero.
pub open spec fn part_text(unit: Seq<char>, num: int) -> Seq<char> {
    if num == 0 {
        Seq::empty()
    } else {
        plural_text(unit, num)
    }
}

/// The space between two parts, where both are there.
pub open spec fn gap(before: bool, after: bool) -> Seq<char> {
    if before && after {
        seq![' ']
    } else {
        Seq::empty()
    }
}

/// A duration in words: the months, the weeks and the days that are not
/// zero, with one space between them.
pub open spec fn words_text(d: Mwd) -> Seq<char> {
    part_text("month"@, d.months) + gap(d.months != 0, d.weeks != 0) + part_text(
        "week"@,
        d.weeks,
    ) + gap(d.months != 0 || d.weeks != 0, d.days != 0) + part_text("day"@, d.days)
}

/// A count and its unit letter, or nothing for a count of zero.
pub open spec fn chunk_text(num: int, unit: char) -> Seq<char> {
    if num == 0 {
        Seq::empty()
    } else {
        decimal(num).push(unit)
    }
}

/// A duration in the form of ISO 8601-2: `P`, then the months, weeks and
/// days that are not zero, each with its sign and its letter.
pub open spec fn iso8601_text(d: Mwd) -> Seq<char> {
    seq!['P'] + chunk_text(d.months, 'M') + chunk_text(d.weeks, 'W') + chunk_text(d.days, 'D')
}

/// `num` of `unit` in words, with an `s` after the unit unless `num` is 1 or
/// -1, and `None` for none of them.
pub fn pluralize(unit: &str, num: i32) -> (r: Option<String>)
    ensures
        r.is_some() <==> num != 0,
        r matches Some(s) ==> s@ == plural_text(unit@, num as int),
{
    if num == 0 {
        None
    } else {
        proof {
            reveal_strlit(" ");
            reveal_strlit("s");
            assert(" "@ =~= seq![' ']);
            assert("s"@ =~= seq!['s']);
        }
        let mut s = int_text(num);
        s.append(" ");
        s.append(unit);
        if num != 1 && num != -1 {
            s.append("s");
        }
        Some(s)
    }
}

/// Adds one part of a duration in words to `result`, behind a space where
/// `result` holds a part already.
fn push_part(result: &mut String, unit: &str, num: i32)
    ensures
        final(result)@ == old(result)@ + gap(old(result)@.len() > 0, num != 0) + part_text(
            unit@,
            num as int,
        ),
        (final(result)@.len() > 0) == (old(result)@.len() > 0 || num != 0),
{
    match pluralize(unit, num) {
        Some(arg) => {
            if result.as_str().unicode_len() > 0 {
                proof {
                    reveal_strlit(" ");
                    assert(" "@ =~= seq![' ']);
                }
                result.append(" ");
            }
            result.append(arg.as_str());
        },
        None => {},
    }
}

/// Adds one chunk of a duration in the form of ISO 8601-2 to `result`:
/// the count and the letter `unit`, or nothing for a count of zero.
fn push_chunk(result: &mut String, num: i32, unit: &str, Ghost(letter): Ghost<char>)
    requires
        unit@ == seq![letter],
    ensures
        final(result)@ == old(result)@ + chunk_text(num as int, letter),
{
    if num != 0 {
        let count = int_text(num);
        result.append(count.as_str());
        result.append(unit);
        assert(decimal(num as int) + seq![letter] =~= decimal(num as int).push(letter));
    }
}

impl RelativeDuration {
    /// The duration in words, such as `4 months 4 weeks 32 days`. The
    /// duration of no length is the empty text.
    pub fn to_string(&self) -> (r: String)
        ensures
            r@ == words_text(self@),
    {
        let mut result = String::new();
        push_part(&mut result, "month", self.num_months());
        push_part(&mut result, "week", self.num_weeks());
        push_part(&mut result, "day", self.num_days());
        result
    }

    /// The duration in the form of ISO 8601-2, without any part for the
    /// time of day: `P5D` is five days, `P-4M3W` four months back and three
    /// weeks on.
    pub fn iso8601(&self) -> (r: String)
        ensures
            r@ == iso8601_text(self@),
    {
        let mut result = String::from_str("P");
        proof {
            reveal_strlit("P");
            reveal_strlit("M");
            reveal_strlit("W");
            reveal_strlit("D");
            assert(result@ =~= seq!['P']);
            assert("M"@ =~= seq!['M']);
            assert("W"@ =~= seq!['W']);
            assert("D"@ =~= seq!['D']);
        }
        push_chunk(&mut result, self.num_months(), "M", Ghost('M'));
        push_chunk(&mut result, self.num_weeks(), "W", Ghost('W'));
        push_chunk(&mut result, self.num_days(), "D", Ghost('D'));
        result
    }
}

} // verus!
