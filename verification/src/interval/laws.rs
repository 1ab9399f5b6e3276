//! Laws of intervals as text: what is written is read back.

use crate::bound::Bound;
use crate::date::{
    date_text, lemma_date_at, lemma_day_number_order, lemma_valid_in_day_range, Date, Ymd,
};
use crate::duration::relative::{applied, Mwd, MAX_COMPONENT};
use crate::interval::closed::{adjusted, lemma_end, ClosedInterval};
use crate::util::shift::{can_shift_months, lemma_shift_compose, months_later};
use crate::duration::laws::{ascii, lemma_digits_bytes};
use crate::interval::like::interval_text;
use crate::interval::parse::{date, open_end, open_start};
use crate::parser::{digits_value, is_digit, lemma_digit_run, n_digits, ParseError};
use crate::text::{digits, padded, zeros};
use vstd::prelude::*;

verus! {

/// The first day of the month that lies `months` months after the month
/// of `a`.
pub open spec fn month_start_later(a: Ymd, months: int) -> Ymd {
    months_later(a.month_start(), months)
}

/// Stepping by whole months from the first day of a month goes from
/// month to month: the interval `k` steps on begins `k` times the months
/// later, on the first day of a month again, and ends on the day before
/// the interval after it begins.
pub proof fn lemma_month_steps(first: ClosedInterval, months: int, k: nat)
    requires
        first.spec_start().well_formed(),
        first.spec_start()@.day == 1,
        first.spec_duration()@ == (Mwd { months, weeks: 0, days: 0 }),
        1 <= months <= MAX_COMPONENT,
        can_shift_months(first.spec_start()@, months * (k + 1)),
    ensures
        first.later(k).spec_duration() == first.spec_duration(),
        first.later(k).spec_start()@ == month_start_later(first.spec_start()@, months * k),
        first.later(k).well_formed(),
        first.later(k).spec_end()@.valid(),
        first.later(k).spec_end()@.day_number() == month_start_later(
            first.spec_start()@,
            months * (k + 1),
        ).day_number() - 1,
    decreases k,
{
    let a = first.spec_start()@;
    let d = first.spec_duration()@;
    assert(a.month_start() == a);
    assert(adjusted(d) == Mwd { months, weeks: 0, days: -1 });
    assert(0 <= months * k <= months * (k + 1)) by (nonlinear_arith)
        requires
            1 <= months,
            0 <= k,
    ;
    assert(months * k + months == months * (k + 1)) by (nonlinear_arith);
    let here = months_later(a, months * k);
    let next = months_later(a, months * (k + 1));
    assert(here.valid() && here.day == 1);
    assert(next.valid() && next.day == 1);
    if k == 0 {
        assert(months * k == 0) by (nonlinear_arith)
            requires
                k == 0,
        ;
        assert(here == a);
    } else {
        let before = (k - 1) as nat;
        assert(months * (before + 1) == months * k);
        lemma_month_steps(first, months, before);
        first.lemma_later_step(before);
        let prev = first.later(before);
        let start = applied(prev.spec_start()@, d);
        lemma_shift_compose(a, months * before, months);
        assert(months * before + months == months * k) by (nonlinear_arith)
            requires
                before + 1 == k,
        ;
        lemma_valid_in_day_range(here);
        lemma_date_at(here);
        assert(start == here);
        Date::lemma_of(here);
        ClosedInterval::lemma_from_start(Date::of(start), prev.spec_duration());
    }
    let i = first.later(k);
    lemma_shift_compose(a, months * k, months);
    assert(months_later(i.spec_start()@, months) == next);
    lemma_valid_in_day_range(next);
    lemma_valid_in_day_range(here);
    lemma_day_number_order(here, next);
    assert(here.before(next)) by {
        let t1 = a.month - 1 + months * k;
        let t2 = a.month - 1 + months * (k + 1);
        assert(t1 < t2);
        vstd::arithmetic::div_mod::lemma_fundamental_div_mod(t1, 12);
        vstd::arithmetic::div_mod::lemma_fundamental_div_mod(t2, 12);
    }
    lemma_end(i);
}

/// Ten to the power of `k`.
pub open spec fn pow10(k: nat) -> nat
    decreases k,
{
    if k == 0 {
        1
    } else {
        10 * pow10((k - 1) as nat)
    }
}

/// A number below ten to the `k` has at most `k` digits.
pub proof fn lemma_digits_count(n: nat, k: nat)
    requires
        k >= 1,
        n < pow10(k),
    ensures
        digits(n).len() <= k,
    decreases k,
{
    if n >= 10 {
        assert(pow10(1) == 10) by {
            assert(pow10(0) == 1);
        }
        lemma_digits_count(n / 10, (k - 1) as nat);
    }
}

/// Zeros in front of digits add nothing to the number that they write.
pub proof fn lemma_leading_zeros(count: nat, b: Seq<u8>)
    ensures
        digits_value(ascii(zeros(count)) + b) == digits_value(b),
    decreases b.len(), count,
{
    let z = ascii(zeros(count));
    if b.len() > 0 {
        lemma_leading_zeros(count, b.drop_last());
        assert((z + b).drop_last() =~= z + b.drop_last());
    } else if count > 0 {
        lemma_leading_zeros((count - 1) as nat, b);
        assert(z + b =~= z);
        assert(z.drop_last() =~= ascii(zeros((count - 1) as nat)));
        assert(ascii(zeros((count - 1) as nat)) + b =~= ascii(zeros((count - 1) as nat)));
    } else {
        assert(z + b =~= b);
    }
}

/// A number written in exactly `width` digits, with zeros in front where
/// it has fewer, is read back as the number, and what follows is left.
pub proof fn lemma_padded(n: nat, width: nat, rest: Seq<u8>)
    requires
        1 <= width <= 9,
        n < pow10(width),
    ensures
        ascii(padded(n, width)).len() == width,
        n_digits(ascii(padded(n, width)) + rest, width) == Ok::<(Seq<u8>, int), ParseError>(
            (rest, n as int),
        ),
{
    lemma_digits_count(n, width);
    lemma_digits_bytes(n);
    let b = ascii(digits(n));
    let count = (width - b.len()) as nat;
    let p = ascii(padded(n, width));
    assert(p =~= ascii(zeros(count)) + b);
    lemma_leading_zeros(count, b);
    let s = p + rest;
    assert(s.take(width as int) =~= p);
    assert(s.skip(width as int) =~= rest);
    assert forall|j: int| 0 <= j < width implies is_digit(#[trigger] p[j]) by {
        if j >= count {
            assert(p[j] == b[j - count]);
        }
    }
    lemma_digit_run(p, width as int);
    assert(pow10(9) == 1_000_000_000) by {
        reveal_with_fuel(pow10, 10);
    }
    lemma_pow10_grows(width, 9);
}

/// Powers of ten grow with their exponent.
pub proof fn lemma_pow10_grows(a: nat, b: nat)
    requires
        a <= b,
    ensures
        pow10(a) <= pow10(b),
    decreases b,
{
    if a < b {
        lemma_pow10_grows(a, (b - 1) as nat);
    }
}

/// A date of the years 0 to 9999 as it is written is read back as the
/// same date, and what follows is left.
pub proof fn lemma_date_round_trip(a: Ymd, rest: Seq<u8>)
    requires
        a.valid(),
        0 <= a.year <= 9999,
    ensures
        date(ascii(date_text(a)) + rest) == Ok::<(Seq<u8>, Ymd), ParseError>((rest, a)),
{
    assert(pow10(4) == 10000 && pow10(2) == 100) by {
        reveal_with_fuel(pow10, 5);
    }
    let dash = seq![0x2du8];
    let day = ascii(padded(a.day as nat, 2));
    let month = ascii(padded(a.month as nat, 2));
    let year = ascii(padded(a.year as nat, 4));
    let s5 = rest;
    let s4 = day + s5;
    let s3 = dash + s4;
    let s2 = month + s3;
    let s1 = dash + s2;
    let s = year + s1;
    lemma_padded(a.day as nat, 2, s5);
    lemma_padded(a.month as nat, 2, s3);
    lemma_padded(a.year as nat, 4, s1);
    assert(s1.skip(1) =~= s2);
    assert(s3.skip(1) =~= s4);
    assert(ascii(date_text(a)) + rest =~= s) by {
        assert(ascii(seq!['-']) =~= dash);
        assert(ascii(date_text(a)) =~= year + dash + month + dash + day);
    }
}

/// The text of an interval that is open at its start is read back as the
/// date that ends it.
pub proof fn lemma_open_start_round_trip(end: Date)
    requires
        end.well_formed(),
        0 <= end@.year <= 9999,
    ensures
        open_start(ascii(interval_text(Bound::Unbounded, Bound::Included(end)))) == Ok::<
            (Seq<u8>, Ymd),
            ParseError,
        >((Seq::empty(), end@)),
{
    let s = ascii(interval_text(Bound::Unbounded, Bound::Included(end)));
    let tail = ascii(date_text(end@)) + Seq::<u8>::empty();
    lemma_date_round_trip(end@, Seq::empty());
    assert(s =~= seq![0x2eu8, 0x2e, 0x2f] + tail);
    assert(s.skip(3) =~= tail);
}

/// The text of an interval that is open at its end is read back as the
/// date that begins it.
pub proof fn lemma_open_end_round_trip(start: Date)
    requires
        start.well_formed(),
        0 <= start@.year <= 9999,
    ensures
        open_end(ascii(interval_text(Bound::Included(start), Bound::Unbounded))) == Ok::<
            (Seq<u8>, Ymd),
            ParseError,
        >((Seq::empty(), start@)),
{
    let s = ascii(interval_text(Bound::Included(start), Bound::Unbounded));
    let tail = seq![0x2fu8, 0x2e, 0x2e];
    lemma_date_round_trip(start@, tail);
    assert(s =~= ascii(date_text(start@)) + tail);
    assert(tail.skip(3) =~= Seq::<u8>::empty());
}

} // verus!
