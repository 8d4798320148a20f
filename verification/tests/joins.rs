//! Tests for joins.

use lob::joins::{InnerJoinIterator, LeftJoinIterator};

#[test]
fn joins_inner_join_basic() {
    let left = vec![(1, "a"), (2, "b"), (3, "c")];
    let right = vec![(1, "x"), (2, "y"), (4, "z")];

    let mut result: Vec<_> =
        InnerJoinIterator::new(left, right, |x| x.0, |x| x.0).into_iter().collect();
    result.sort_unstable();

    assert_eq!(result.len(), 2);
    assert_eq!(result[0], ((1, "a"), (1, "x")));
    assert_eq!(result[1], ((2, "b"), (2, "y")));
}

#[test]
fn joins_inner_join_no_matches() {
    let left = vec![(1, "a"), (2, "b")];
    let right = vec![(3, "x"), (4, "y")];

    let count = InnerJoinIterator::new(left, right, |x| x.0, |x| x.0).into_iter().count();

    assert_eq!(count, 0);
}

#[test]
fn joins_inner_join_multiple_matches() {
    let left = vec![(1, "a"), (1, "b")];
    let right = vec![(1, "x"), (1, "y")];

    let count = InnerJoinIterator::new(left, right, |x| x.0, |x| x.0).into_iter().count();

    // 2 left * 2 right = 4 results
    assert_eq!(count, 4);
}

#[test]
fn joins_left_join_basic() {
    let left = vec![(1, "a"), (2, "b"), (3, "c")];
    let right = vec![(1, "x"), (2, "y")];

    let result: Vec<_> =
        LeftJoinIterator::new(left, right, |x| x.0, |x| x.0).into_iter().collect();

    assert_eq!(result.len(), 3);
    assert_eq!(result[0], ((1, "a"), Some((1, "x"))));
    assert_eq!(result[1], ((2, "b"), Some((2, "y"))));
    assert_eq!(result[2], ((3, "c"), None));
}

#[test]
fn joins_left_join_all_match() {
    let left = vec![(1, "a"), (2, "b")];
    let right = vec![(1, "x"), (2, "y")];

    let result: Vec<_> =
        LeftJoinIterator::new(left, right, |x| x.0, |x| x.0).into_iter().collect();

    assert_eq!(result.len(), 2);
    assert!(result.iter().all(|(_, r)| r.is_some()));
}

#[test]
fn joins_left_join_no_matches() {
    let left = vec![(1, "a"), (2, "b")];
    let right = vec![(3, "x"), (4, "y")];

    let result: Vec<_> =
        LeftJoinIterator::new(left, right, |x| x.0, |x| x.0).into_iter().collect();

    assert_eq!(result.len(), 2);
    assert!(result.iter().all(|(_, r)| r.is_none()));
}
