//! Tests for what a generated program starts from.

use lob::prelude::{lob, range};

#[test]
fn lob_from_vec() {
    let result: Vec<_> = lob(vec![1, 2, 3, 4, 5]).filter(|x| x % 2 == 0).collect();
    assert_eq!(result, vec![2, 4]);
}

#[test]
fn range_basic() {
    let result: Vec<_> = range(0, 5).collect();
    assert_eq!(result, vec![0, 1, 2, 3, 4]);
}

#[test]
fn lib_chained_operations() {
    let result: Vec<_> = lob(vec![1, 2, 3, 4, 5])
        .filter(|x| x % 2 == 0)
        .map(|x| x * 2)
        .take(2)
        .collect();
    assert_eq!(result, vec![4, 8]);
}

#[test]
fn range_empty_and_backwards() {
    assert_eq!(range(3, 3).to_list(), Vec::<i64>::new());
    assert_eq!(range(5, 0).to_list(), Vec::<i64>::new());
    assert_eq!(range(-2, 2).to_list(), vec![-2, -1, 0, 1]);
    assert_eq!(range(i64::MAX - 2, i64::MAX).to_list(), vec![i64::MAX - 2, i64::MAX - 1]);
}
