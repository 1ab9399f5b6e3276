//! Laws of the arithmetic of durations.

use super::format::{chunk_text, iso8601_text};
use super::parse::{duration_chunk, relative_duration, slot, Unit};
use super::relative::{lemma_quotient_of_product, Mwd, RelativeDuration};
use crate::parser::{
    digits_value, is_digit, lemma_digit_run, signed_digits, ParseError, ParseErrorKind,
};
use crate::text::{decimal, digits};
use vstd::prelude::*;
use vstd::std_specs::ops::{AddSpec, DivSpec, MulSpec, NegSpec};

verus! {

/// A duration and its negation add up to the duration of no length.
pub proof fn lemma_add_negated(d: RelativeDuration)
    requires
        d.well_formed(),
    ensures
        d.add_req(d.neg_spec()),
        d.add_spec(d.neg_spec()) == RelativeDuration::from_mwd(0, 0, 0),
{
    RelativeDuration::lemma_of(d@.negated());
}

/// Multiplying a duration by a number other than zero and dividing the
/// product by the same number gives the duration back.
pub proof fn lemma_mul_div(d: RelativeDuration, k: i32)
    requires
        d.well_formed(),
        k != 0,
        d.mul_req(k),
    ensures
        d.mul_spec(k).div_req(k),
        d.mul_spec(k).div_spec(k) == d,
{
    RelativeDuration::lemma_of(d@.times(k as int));
    lemma_quotient_of_product(d@.months, k as int);
    lemma_quotient_of_product(d@.weeks, k as int);
    lemma_quotient_of_product(d@.days, k as int);
    d.lemma_components();
}

/// A text of characters as the bytes that stand for them.
pub open spec fn ascii(s: Seq<char>) -> Seq<u8> {
    Seq::new(s.len(), |i: int| s[i] as u8)
}

/// The bytes of two texts one after the other are the bytes of the first
/// and then those of the second.
pub proof fn lemma_ascii_concat(a: Seq<char>, b: Seq<char>)
    ensures
        ascii(a + b) == ascii(a) + ascii(b),
{
    assert(ascii(a + b) =~= ascii(a) + ascii(b));
}

/// The bytes of the digits of a number are digits, and they write the
/// number.
pub proof fn lemma_digits_bytes(n: nat)
    ensures
        ascii(digits(n)).len() >= 1,
        forall|j: int| 0 <= j < ascii(digits(n)).len() ==> is_digit(#[trigger] ascii(digits(n))[j]),
        digits_value(ascii(digits(n))) == n,
    decreases n,
{
    let b = ascii(digits(n));
    if n < 10 {
        assert(b =~= seq![(0x30 + n) as u8]);
        assert(b.drop_last() =~= Seq::<u8>::empty());
        assert(digits_value(b) == digits_value(b.drop_last()) * 10 + (b.last() - 0x30));
    } else {
        lemma_digits_bytes(n / 10);
        let head = ascii(digits(n / 10));
        assert(b =~= head.push((0x30 + n % 10) as u8));
        assert(b.drop_last() =~= head);
        assert forall|j: int| 0 <= j < b.len() implies is_digit(#[trigger] b[j]) by {
            if j < head.len() {
                assert(b[j] == head[j]);
            }
        }
    }
}

/// A number written in decimal and followed by something that is no digit
/// is read back as the number, and what follows is left.
pub proof fn lemma_signed_digits(v: int, rest: Seq<u8>)
    requires
        -i32::MAX <= v <= i32::MAX,
        rest.len() == 0 || !is_digit(rest[0]),
    ensures
        signed_digits(ascii(decimal(v)) + rest) == Ok::<(Seq<u8>, int), ParseError>((rest, v)),
{
    let magnitude = if v < 0 { (-v) as nat } else { v as nat };
    let b = ascii(digits(magnitude));
    lemma_digits_bytes(magnitude);
    let s = ascii(decimal(v)) + rest;
    if v < 0 {
        lemma_ascii_concat(seq!['-'], digits(magnitude));
        assert(ascii(seq!['-']) =~= seq![0x2du8]);
        assert(s =~= seq![0x2du8] + b + rest);
        assert(s[0] == 0x2d);
        assert(s.skip(1) =~= b + rest);
    } else {
        assert(s =~= b + rest);
        assert(s[0] == b[0]);
    }
    let body = b + rest;
    assert forall|j: int| 0 <= j < b.len() implies is_digit(#[trigger] body[j]) by {
        assert(body[j] == b[j]);
    }
    if rest.len() > 0 {
        assert(body[b.len() as int] == rest[0]);
    }
    lemma_digit_run(body, b.len() as int);
    assert(body.take(b.len() as int) =~= b);
    assert(body.skip(b.len() as int) =~= rest);
}

/// The unit that the letter `letter` stands for behind the count `v`.
pub open spec fn unit_of(letter: char, v: int) -> Unit {
    if letter == 'Y' {
        Unit::Years(v as i32)
    } else if letter == 'M' {
        Unit::Months(v as i32)
    } else if letter == 'W' {
        Unit::Weeks(v as i32)
    } else {
        Unit::Days(v as i32)
    }
}

/// Whether the character is one of the four unit letters.
pub open spec fn is_unit_letter(letter: char) -> bool {
    letter == 'Y' || letter == 'M' || letter == 'W' || letter == 'D'
}

/// A chunk as it is written is read back as its count and unit, and what
/// follows is left.
pub proof fn lemma_chunk(v: int, letter: char, rest: Seq<u8>)
    requires
        -i32::MAX <= v <= i32::MAX,
        v != 0,
        is_unit_letter(letter),
    ensures
        duration_chunk(ascii(chunk_text(v, letter)) + rest) == Ok::<(Seq<u8>, Unit), ParseError>(
            (rest, unit_of(letter, v)),
        ),
{
    let tail = seq![letter as u8] + rest;
    lemma_signed_digits(v, tail);
    assert(ascii(decimal(v).push(letter)) =~= ascii(decimal(v)) + seq![letter as u8]);
    assert(ascii(chunk_text(v, letter)) + rest =~= ascii(decimal(v)) + tail);
    assert(tail.skip(1) =~= rest);
    assert(tail[0] == letter as u8);
}

/// Whether `s` begins with nothing that the slot at place `place` would
/// take or stumble over: no chunk at all, or a chunk of a later unit.
pub open spec fn begins_later(s: Seq<u8>, place: int) -> bool {
    match duration_chunk(s) {
        Ok((_, unit)) => unit.place() > place,
        Err(e) => e.kind != ParseErrorKind::TooLarge,
    }
}

/// The slot of a unit reads back the chunk that was written for it, or
/// nothing where none was written, and leaves what follows.
pub proof fn lemma_slot(v: int, letter: char, rest: Seq<u8>)
    requires
        -i32::MAX <= v <= i32::MAX,
        is_unit_letter(letter),
        begins_later(rest, unit_of(letter, v).place()),
    ensures
        slot(ascii(chunk_text(v, letter)) + rest, unit_of(letter, v).place()) == Ok::<
            (Seq<u8>, int),
            ParseError,
        >((rest, v)),
        forall|p: int|
            p < unit_of(letter, v).place() ==> begins_later(
                ascii(chunk_text(v, letter)) + rest,
                p,
            ),
{
    if v != 0 {
        lemma_chunk(v, letter, rest);
    } else {
        assert(ascii(chunk_text(v, letter)) + rest =~= rest);
    }
}

/// A duration written in the form of ISO 8601-2 is read back as the same
/// duration, with nothing of the text left over.
pub proof fn lemma_text_round_trip(d: Mwd)
    requires
        d.fits(),
    ensures
        relative_duration(ascii(iso8601_text(d))) == Ok::<(Seq<u8>, Mwd), ParseError>(
            (Seq::empty(), d),
        ),
{
    let none = Seq::<u8>::empty();
    assert(begins_later(none, 3)) by {
        assert(none.take(0) =~= none);
    }
    let days = ascii(chunk_text(d.days, 'D')) + none;
    lemma_slot(d.days, 'D', none);
    let weeks = ascii(chunk_text(d.weeks, 'W')) + days;
    lemma_slot(d.weeks, 'W', days);
    let months = ascii(chunk_text(d.months, 'M')) + weeks;
    lemma_slot(d.months, 'M', weeks);
    let s = ascii(iso8601_text(d));
    assert(s =~= seq![0x50u8] + months);
    assert(s.skip(1) =~= months);
    assert(s[0] == 0x50);
    assert(begins_later(months, 0));
}

} // verus!
