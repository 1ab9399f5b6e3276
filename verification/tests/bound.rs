use calends::bound::{cmp_bound, cmp_bound_start, cmp_range, to_opt, to_str, within, Bound};
use std::cmp::Ordering;

#[test]
fn bound_test_within() {
    assert!(within(3, &Bound::Included(1), &Bound::Unbounded))
}

#[test]
fn bound_test_cmp_range() {
    assert_eq!(
        cmp_range(
            (&Bound::Included(1), &Bound::Unbounded),
            (&Bound::Included(0), &Bound::Unbounded)
        ),
        Ordering::Greater
    )
}

#[test]
fn test_cmp_bound_as_upper_ends() {
    assert_eq!(cmp_bound(&Bound::Included(1), &Bound::Included(1)), Ordering::Equal);
    assert_eq!(cmp_bound(&Bound::Included(1), &Bound::Included(2)), Ordering::Less);
    assert_eq!(cmp_bound(&Bound::Excluded(1), &Bound::Included(1)), Ordering::Less);
    assert_eq!(cmp_bound(&Bound::Included(1), &Bound::Excluded(1)), Ordering::Greater);
    assert_eq!(cmp_bound(&Bound::Excluded(2), &Bound::Included(1)), Ordering::Greater);
    assert_eq!(cmp_bound(&Bound::Excluded(1), &Bound::Excluded(1)), Ordering::Equal);
    assert_eq!(cmp_bound(&Bound::Unbounded, &Bound::Included(i32::MAX)), Ordering::Greater);
    assert_eq!(cmp_bound(&Bound::Included(i32::MAX), &Bound::Unbounded), Ordering::Less);
    assert_eq!(cmp_bound::<i32>(&Bound::Unbounded, &Bound::Unbounded), Ordering::Equal);
}

#[test]
fn test_cmp_bound_as_lower_ends() {
    assert_eq!(cmp_bound_start(&Bound::Included(1), &Bound::Included(1)), Ordering::Equal);
    assert_eq!(cmp_bound_start(&Bound::Included(1), &Bound::Excluded(1)), Ordering::Less);
    assert_eq!(cmp_bound_start(&Bound::Excluded(1), &Bound::Included(1)), Ordering::Greater);
    assert_eq!(cmp_bound_start(&Bound::Excluded(0), &Bound::Included(1)), Ordering::Less);
    assert_eq!(cmp_bound_start(&Bound::Unbounded, &Bound::Included(i32::MIN)), Ordering::Less);
    assert_eq!(cmp_bound_start(&Bound::Included(i32::MIN), &Bound::Unbounded), Ordering::Greater);
    assert_eq!(cmp_bound_start::<i64>(&Bound::Unbounded, &Bound::Unbounded), Ordering::Equal);
}

#[test]
fn test_cmp_range_more() {
    assert_eq!(
        cmp_range(
            (&Bound::Unbounded, &Bound::Included(5)),
            (&Bound::Included(0), &Bound::Included(5))
        ),
        Ordering::Less
    );
    assert_eq!(
        cmp_range(
            (&Bound::Included(0), &Bound::Included(5)),
            (&Bound::Included(0), &Bound::Unbounded)
        ),
        Ordering::Less
    );
    assert_eq!(
        cmp_range(
            (&Bound::Included(0), &Bound::Excluded(5)),
            (&Bound::Included(0), &Bound::Included(5))
        ),
        Ordering::Less
    );
    assert_eq!(
        cmp_range(
            (&Bound::Included(0), &Bound::Included(5)),
            (&Bound::Included(0), &Bound::Included(5))
        ),
        Ordering::Equal
    );
}

#[test]
fn test_within_more() {
    assert!(within(1, &Bound::Included(1), &Bound::Included(1)));
    assert!(!within(1, &Bound::Excluded(1), &Bound::Unbounded));
    assert!(!within(1, &Bound::Unbounded, &Bound::Excluded(1)));
    assert!(within(0, &Bound::Unbounded, &Bound::Excluded(1)));
    assert!(within(i32::MIN, &Bound::Unbounded, &Bound::Unbounded));
    assert!(!within(0, &Bound::Included(1), &Bound::Unbounded));
    assert!(!within(6, &Bound::Included(1), &Bound::Included(5)));
}

#[test]
fn test_to_str_and_to_opt() {
    assert_eq!(to_str(Bound::Included(1)), "inclusive");
    assert_eq!(to_str(Bound::Excluded(1)), "exclusive");
    assert_eq!(to_str(Bound::<i32>::Unbounded), "unbounded");
    assert_eq!(to_opt(Bound::Included(1)), Some(1));
    assert_eq!(to_opt(Bound::Excluded(2)), Some(2));
    assert_eq!(to_opt(Bound::<i32>::Unbounded), None);
}
