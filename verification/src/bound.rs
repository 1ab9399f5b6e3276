//! Ends of ranges that may be included, excluded or absent, and their order.

use std::cmp::Ordering;
use vstd::prelude::*;
use vstd::string::StringExecFns;

verus! {

/// A value with a place on the line of integers. Values are ordered as their
/// places are.
pub trait Ordinal: Sized {
    /// Place of the value on the line of integers.
    spec fn position(&self) -> int;

    /// Whether this value comes before `other`.
    fn precedes(&self, other: &Self) -> (r: bool)
        ensures
            r == (self.position() < other.position()),
    ;
}

impl Ordinal for i32 {
    open spec fn position(&self) -> int {
        *self as int
    }

    fn precedes(&self, other: &i32) -> (r: bool) {
        *self < *other
    }
}

impl Ordinal for i64 {
    open spec fn position(&self) -> int {
        *self as int
    }

    fn precedes(&self, other: &i64) -> (r: bool) {
        *self < *other
    }
}

/// One end of a range.
#[derive(Clone, Copy, Debug, PartialEq, Eq, Hash)]
pub enum Bound<T> {
    /// The range reaches the value and holds it.
    Included(T),
    /// The range reaches the value and does not hold it.
    Excluded(T),
    /// The range has no end on this side.
    Unbounded,
}

/// The answer that goes with "is less" and "is greater".
pub open spec fn order_of(less: bool, greater: bool) -> Ordering {
    if less {
        Ordering::Less
    } else if greater {
        Ordering::Greater
    } else {
        Ordering::Equal
    }
}

/// Whether `a` ends a range before `b` does, both taken as upper ends: an
/// absent end lies beyond every value, and at one value an excluded end
/// lies just before an included one.
pub open spec fn upper_before<Q: Ordinal>(a: Bound<Q>, b: Bound<Q>) -> bool {
    match (a, b) {
        (Bound::Unbounded, _) => false,
        (_, Bound::Unbounded) => true,
        (Bound::Excluded(x), Bound::Included(y)) => x.position() <= y.position(),
        (Bound::Included(x), Bound::Included(y)) => x.position() < y.position(),
        (Bound::Included(x), Bound::Excluded(y)) => x.position() < y.position(),
        (Bound::Excluded(x), Bound::Excluded(y)) => x.position() < y.position(),
    }
}

/// Whether `a` begins a range before `b` does, both taken as lower ends: an
/// absent end lies before every value, and at one value an included end
/// lies just before an excluded one.
pub open spec fn lower_before<Q: Ordinal>(a: Bound<Q>, b: Bound<Q>) -> bool {
    match (a, b) {
        (_, Bound::Unbounded) => false,
        (Bound::Unbounded, _) => true,
        (Bound::Included(x), Bound::Excluded(y)) => x.position() <= y.position(),
        (Bound::Included(x), Bound::Included(y)) => x.position() < y.position(),
        (Bound::Excluded(x), Bound::Included(y)) => x.position() < y.position(),
        (Bound::Excluded(x), Bound::Excluded(y)) => x.position() < y.position(),
    }
}

/// Order of two bounds taken as upper ends of ranges.
pub open spec fn upper_order<Q: Ordinal>(a: Bound<Q>, b: Bound<Q>) -> Ordering {
    order_of(upper_before(a, b), upper_before(b, a))
}

/// Order of two bounds taken as lower ends of ranges.
pub open spec fn lower_order<Q: Ordinal>(a: Bound<Q>, b: Bound<Q>) -> Ordering {
    order_of(lower_before(a, b), lower_before(b, a))
}

/// Order of two ranges: by their lower ends, and by their upper ends where
/// the lower ends are the same.
pub open spec fn range_order<Q: Ordinal>(
    a: (Bound<Q>, Bound<Q>),
    b: (Bound<Q>, Bound<Q>),
) -> Ordering {
    if lower_order(a.0, b.0) == Ordering::Equal {
        upper_order(a.1, b.1)
    } else {
        lower_order(a.0, b.0)
    }
}

/// Whether a range that begins at `start` holds `item` as far as its lower
/// end goes.
pub open spec fn begins_by<Q: Ordinal>(start: Bound<Q>, item: Q) -> bool {
    match start {
        Bound::Included(s) => s.position() <= item.position(),
        Bound::Excluded(s) => s.position() < item.position(),
        Bound::Unbounded => true,
    }
}

/// Whether a range that ends at `end` holds `item` as far as its upper end
/// goes.
pub open spec fn ends_after<Q: Ordinal>(end: Bound<Q>, item: Q) -> bool {
    match end {
        Bound::Included(e) => item.position() <= e.position(),
        Bound::Excluded(e) => item.position() < e.position(),
        Bound::Unbounded => true,
    }
}

/// The order of bounds as upper ends is a total order: a bound is equal to
/// itself, two bounds compare one way as they compare the other way
/// round, and "ends before" carries over a bound in between.
pub proof fn lemma_upper_order<Q: Ordinal>(a: Bound<Q>, b: Bound<Q>, c: Bound<Q>)
    ensures
        upper_order(a, a) == Ordering::Equal,
        upper_order(a, b) == Ordering::Less <==> upper_order(b, a) == Ordering::Greater,
        upper_order(a, b) == Ordering::Equal <==> upper_order(b, a) == Ordering::Equal,
        upper_before(a, b) && upper_before(b, c) ==> upper_before(a, c),
{
}

/// The order of bounds as lower ends is a total order.
pub proof fn lemma_lower_order<Q: Ordinal>(a: Bound<Q>, b: Bound<Q>, c: Bound<Q>)
    ensures
        lower_order(a, a) == Ordering::Equal,
        lower_order(a, b) == Ordering::Less <==> lower_order(b, a) == Ordering::Greater,
        lower_order(a, b) == Ordering::Equal <==> lower_order(b, a) == Ordering::Equal,
        lower_before(a, b) && lower_before(b, c) ==> lower_before(a, c),
{
}

/// A value lies in a range exactly where the range neither begins after
/// it nor ends before it, the value taken as a bound that is included.
pub proof fn lemma_within<Q: Ordinal>(item: Q, start: Bound<Q>, end: Bound<Q>)
    ensures
        begins_by(start, item) <==> !lower_before(Bound::Included(item), start),
        ends_after(end, item) <==> !upper_before(end, Bound::Included(item)),
{
}

/// Order of two values by their places.
fn cmp_items<Q: Ordinal>(x: &Q, y: &Q) -> (r: Ordering)
    ensures
        r == order_of(x.position() < y.position(), y.position() < x.position()),
{
    if x.precedes(y) {
        Ordering::Less
    } else if y.precedes(x) {
        Ordering::Greater
    } else {
        Ordering::Equal
    }
}

/// Compares two bounds as upper ends of ranges.
pub fn cmp_bound<Q: Ordinal>(e1: &Bound<Q>, e2: &Bound<Q>) -> (r: Ordering)
    ensures
        r == upper_order(*e1, *e2),
{
    match (e1, e2) {
        (Bound::Unbounded, Bound::Unbounded) => Ordering::Equal,
        (Bound::Unbounded, _) => Ordering::Greater,
        (_, Bound::Unbounded) => Ordering::Less,
        (Bound::Included(x), Bound::Included(y)) => cmp_items(x, y),
        (Bound::Excluded(x), Bound::Excluded(y)) => cmp_items(x, y),
        (Bound::Excluded(x), Bound::Included(y)) => match cmp_items(x, y) {
            Ordering::Greater => Ordering::Greater,
            _ => Ordering::Less,
        },
        (Bound::Included(x), Bound::Excluded(y)) => match cmp_items(x, y) {
            Ordering::Less => Ordering::Less,
            _ => Ordering::Greater,
        },
    }
}

/// Compares two bounds as lower ends of ranges.
pub fn cmp_bound_start<Q: Ordinal>(e1: &Bound<Q>, e2: &Bound<Q>) -> (r: Ordering)
    ensures
        r == lower_order(*e1, *e2),
{
    match (e1, e2) {
        (Bound::Unbounded, Bound::Unbounded) => Ordering::Equal,
        (Bound::Unbounded, _) => Ordering::Less,
        (_, Bound::Unbounded) => Ordering::Greater,
        (Bound::Included(x), Bound::Included(y)) => cmp_items(x, y),
        (Bound::Excluded(x), Bound::Excluded(y)) => cmp_items(x, y),
        (Bound::Included(x), Bound::Excluded(y)) => match cmp_items(x, y) {
            Ordering::Greater => Ordering::Greater,
            _ => Ordering::Less,
        },
        (Bound::Excluded(x), Bound::Included(y)) => match cmp_items(x, y) {
            Ordering::Less => Ordering::Less,
            _ => Ordering::Greater,
        },
    }
}

/// Compares two ranges, each given as its lower and its upper end.
pub fn cmp_range<Q: Ordinal>(e1: (&Bound<Q>, &Bound<Q>), e2: (&Bound<Q>, &Bound<Q>)) -> (r:
    Ordering)
    ensures
        r == range_order((*e1.0, *e1.1), (*e2.0, *e2.1)),
{
    match cmp_bound_start(e1.0, e2.0) {
        Ordering::Less => Ordering::Less,
        Ordering::Equal => cmp_bound(e1.1, e2.1),
        Ordering::Greater => Ordering::Greater,
    }
}

/// Whether the range from `start` to `end` holds `item`.
pub fn within<Q: Ordinal>(item: Q, start: &Bound<Q>, end: &Bound<Q>) -> (r: bool)
    ensures
        r == (begins_by(*start, item) && ends_after(*end, item)),
{
    let after_start = match start {
        Bound::Included(s) => !item.precedes(s),
        Bound::Excluded(s) => s.precedes(&item),
        Bound::Unbounded => true,
    };
    if !after_start {
        return false;
    }
    match end {
        Bound::Included(e) => !e.precedes(&item),
        Bound::Excluded(e) => item.precedes(e),
        Bound::Unbounded => true,
    }
}

/// Name of the kind of a bound.
pub fn to_str<Q>(b: Bound<Q>) -> (r: String)
    ensures
        b is Included ==> r@ == "inclusive"@,
        b is Excluded ==> r@ == "exclusive"@,
        b is Unbounded ==> r@ == "unbounded"@,
{
    match b {
        Bound::Included(_) => String::from_str("inclusive"),
        Bound::Excluded(_) => String::from_str("exclusive"),
        Bound::Unbounded => String::from_str("unbounded"),
    }
}

/// The value that a bound holds, if it holds one.
pub fn to_opt<Q>(b: Bound<Q>) -> (r: Option<Q>)
    ensures
        r == match b {
            Bound::Included(q) => Some(q),
            Bound::Excluded(q) => Some(q),
            Bound::Unbounded => None,
        },
{
    match b {
        Bound::Included(q) => Some(q),
        Bound::Excluded(q) => Some(q),
        Bound::Unbounded => None,
    }
}

} // verus!
