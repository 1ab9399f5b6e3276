//! Numbers read from the beginning of a text of bytes.

use vstd::prelude::*;
use vstd::slice::slice_subrange;

verus! {

/// What a parser found wrong.
#[derive(Clone, Copy, Debug, PartialEq, Eq, Structural)]
pub enum ParseErrorKind {
    /// A number was expected and no digit was there.
    Eof,
    /// A fixed count of digits was expected and fewer were there.
    TakeWhileMN,
    /// A fixed piece of text was expected and was not there.
    Tag,
    /// One of the unit letters `Y`, `M`, `W`, `D` was expected and was
    /// not there.
    OneOf,
    /// A number is too large to be held.
    TooLarge,
    /// Year, month and day do not name a day that exists.
    InvalidDate,
    /// The interval has no first date or no last date that can be held.
    OutOfRange,
}

/// Why a text could not be parsed, and how many bytes of the input were
/// left where the parser gave up.
#[derive(Clone, Copy, Debug, PartialEq, Eq, Structural)]
pub struct ParseError {
    /// What was wrong.
    pub kind: ParseErrorKind,
    /// Number of bytes from the place of the error to the end of the
    /// input.
    pub remaining: usize,
}

/// The error of kind `kind` with `s` left of the input.
pub open spec fn error_at(kind: ParseErrorKind, s: Seq<u8>) -> ParseError {
    ParseError { kind, remaining: s.len() as usize }
}

/// Whether the byte is one of the digits `0` to `9`.
pub open spec fn is_digit(b: u8) -> bool {
    0x30 <= b <= 0x39
}

/// Number of digits that `s` begins with.
pub open spec fn digit_run(s: Seq<u8>) -> nat
    decreases s.len(),
{
    if s.len() > 0 && is_digit(s[0]) {
        1 + digit_run(s.skip(1))
    } else {
        0
    }
}

/// The number that the digits `s` write in base ten; 0 for none.
pub open spec fn digits_value(s: Seq<u8>) -> int
    decreases s.len(),
{
    if s.len() == 0 {
        0
    } else {
        digits_value(s.drop_last()) * 10 + (s.last() - 0x30)
    }
}

/// What `take_signed_digits` gives for the input `s`: the rest of the
/// input and the number, or the error.
pub open spec fn signed_digits(s: Seq<u8>) -> Result<(Seq<u8>, int), ParseError> {
    let negative = s.len() > 0 && s[0] == 0x2d;
    let body = if negative { s.skip(1) } else { s };
    let count = digit_run(body) as int;
    let value = digits_value(body.take(count));
    if count == 0 {
        Err(error_at(ParseErrorKind::Eof, body))
    } else if value > i32::MAX {
        Err(error_at(ParseErrorKind::TooLarge, body))
    } else if negative {
        Ok((body.skip(count), -value))
    } else {
        Ok((body.skip(count), value))
    }
}

/// What `take_n_digits` gives for the input `s`: the rest of the input
/// and the number, or the error.
pub open spec fn n_digits(s: Seq<u8>, n: nat) -> Result<(Seq<u8>, int), ParseError> {
    if n == 0 {
        Err(error_at(ParseErrorKind::Eof, s))
    } else if s.len() < n || digit_run(s.take(n as int)) < n {
        Err(error_at(ParseErrorKind::TakeWhileMN, s))
    } else if digits_value(s.take(n as int)) > u32::MAX {
        Err(error_at(ParseErrorKind::TooLarge, s))
    } else {
        Ok((s.skip(n as int), digits_value(s.take(n as int))))
    }
}

/// A text of `k` digits, followed by the end or by something that is no
/// digit, begins with exactly `k` digits.
pub proof fn lemma_digit_run(s: Seq<u8>, k: int)
    requires
        0 <= k <= s.len(),
        forall|j: int| 0 <= j < k ==> is_digit(#[trigger] s[j]),
        k == s.len() || !is_digit(s[k]),
    ensures
        digit_run(s) == k,
    decreases k,
{
    if k > 0 {
        let t = s.skip(1);
        assert forall|j: int| 0 <= j < k - 1 implies is_digit(#[trigger] t[j]) by {
            assert(t[j] == s[j + 1]);
        }
        lemma_digit_run(t, k - 1);
    }
}

/// The bytes that a text begins with, as far as its run of digits goes,
/// are digits.
pub proof fn lemma_digit_run_digits(s: Seq<u8>)
    ensures
        digit_run(s) <= s.len(),
        forall|j: int| 0 <= j < digit_run(s) ==> is_digit(#[trigger] s[j]),
        digit_run(s) == s.len() || !is_digit(s[digit_run(s) as int]),
    decreases s.len(),
{
    if s.len() > 0 && is_digit(s[0]) {
        let t = s.skip(1);
        lemma_digit_run_digits(t);
        assert forall|j: int| 0 <= j < digit_run(s) implies is_digit(#[trigger] s[j]) by {
            if j > 0 {
                assert(s[j] == t[j - 1]);
            }
        }
        if digit_run(s) < s.len() {
            assert(s[digit_run(s) as int] == t[digit_run(t) as int]);
        }
    }
}

/// One more digit behind a number makes it ten times as large, and the
/// digit more.
pub proof fn lemma_digits_value_step(s: Seq<u8>, k: int)
    requires
        0 <= k < s.len(),
    ensures
        digits_value(s.take(k + 1)) == digits_value(s.take(k)) * 10 + (s[k] - 0x30),
        digits_value(s.take(0)) == 0,
{
    assert(s.take(k + 1).drop_last() =~= s.take(k));
    assert(s.take(k + 1).last() == s[k]);
}

/// Reads the digits that `s` begins with. Gives their count, and their
/// value where it is at most `limit`.
fn scan_digits(s: &[u8], most: usize, limit: u64) -> (r: (usize, Option<u64>))
    requires
        limit <= u32::MAX,
    ensures
        r.0 <= s@.len(),
        r.0 <= most,
        forall|j: int| 0 <= j < r.0 ==> is_digit(#[trigger] s@[j]),
        r.0 == most || r.0 == s@.len() || !is_digit(s@[r.0 as int]),
        r.1.is_some() <==> digits_value(s@.take(r.0 as int)) <= limit,
        r.1 matches Some(v) ==> v == digits_value(s@.take(r.0 as int)),
{
    let mut k: usize = 0;
    let mut value: u64 = 0;
    let mut fits = true;
    proof {
        if s@.len() > 0 {
            lemma_digits_value_step(s@, 0);
        } else {
            assert(s@.take(0) =~= Seq::<u8>::empty());
        }
    }
    while k < s.len() && k < most && s[k] >= 0x30 && s[k] <= 0x39
        invariant
            k <= s@.len(),
            k <= most,
            limit <= u32::MAX,
            forall|j: int| 0 <= j < k ==> is_digit(#[trigger] s@[j]),
            0 <= digits_value(s@.take(k as int)),
            fits <==> digits_value(s@.take(k as int)) <= limit,
            fits ==> value == digits_value(s@.take(k as int)),
        decreases s@.len() - k,
    {
        proof {
            lemma_digits_value_step(s@, k as int);
        }
        if fits {
            value = value * 10 + (s[k] - 0x30) as u64;
            if value > limit {
                fits = false;
            }
        }
        k += 1;
    }
    if fits {
        (k, Some(value))
    } else {
        (k, None)
    }
}

/// Reads a whole number from the beginning of `i`: a minus sign or none,
/// then digits as far as they go. Gives the rest of the input and the
/// number.
pub fn take_signed_digits(i: &[u8]) -> (r: Result<(&[u8], i32), ParseError>)
    ensures
        match signed_digits(i@) {
            Ok((rest, value)) => r matches Ok((left, n)) && left@ == rest && n == value,
            Err(e) => r == Err::<(&[u8], i32), ParseError>(e),
        },
{
    let negative = i.len() > 0 && i[0] == 0x2d;
    let body = if negative {
        slice_subrange(i, 1, i.len())
    } else {
        i
    };
    proof {
        assert(i@.subrange(1, i@.len() as int) =~= i@.skip(1));
    }
    let (count, value) = scan_digits(body, usize::MAX, 0x7fff_ffff);
    proof {
        lemma_digit_run(body@, count as int);
    }
    if count == 0 {
        return Err(ParseError { kind: ParseErrorKind::Eof, remaining: body.len() });
    }
    let rest = slice_subrange(body, count, body.len());
    proof {
        assert(body@.subrange(count as int, body@.len() as int) =~= body@.skip(count as int));
    }
    match value {
        None => Err(ParseError { kind: ParseErrorKind::TooLarge, remaining: body.len() }),
        Some(v) => {
            if negative {
                Ok((rest, -(v as i32)))
            } else {
                Ok((rest, v as i32))
            }
        },
    }
}

/// Reads a number of exactly `n` digits from the beginning of `i`. Gives
/// the rest of the input and the number.
pub fn take_n_digits(i: &[u8], n: usize) -> (r: Result<(&[u8], u32), ParseError>)
    ensures
        match n_digits(i@, n as nat) {
            Ok((rest, value)) => r matches Ok((left, v)) && left@ == rest && v == value,
            Err(e) => r == Err::<(&[u8], u32), ParseError>(e),
        },
{
    if n == 0 {
        return Err(ParseError { kind: ParseErrorKind::Eof, remaining: i.len() });
    }
    let (count, value) = scan_digits(i, n, 0xffff_ffff);
    proof {
        if i@.len() >= n {
            let head = i@.take(n as int);
            if count == n {
                assert forall|j: int| 0 <= j < n implies is_digit(#[trigger] head[j]) by {
                    assert(head[j] == i@[j]);
                }
                lemma_digit_run(head, n as int);
            } else {
                lemma_digit_run_digits(head);
                if digit_run(head) == n {
                    assert(head[count as int] == i@[count as int]);
                }
            }
        }
    }
    if count < n {
        return Err(ParseError { kind: ParseErrorKind::TakeWhileMN, remaining: i.len() });
    }
    let rest = slice_subrange(i, n, i.len());
    proof {
        assert(i@.subrange(n as int, i@.len() as int) =~= i@.skip(n as int));
    }
    match value {
        None => Err(ParseError { kind: ParseErrorKind::TooLarge, remaining: i.len() }),
        Some(v) => Ok((rest, v as u32)),
    }
}

} // verus!
