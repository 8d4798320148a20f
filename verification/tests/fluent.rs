//! Tests for the fluent wrapper.

use lob::fluent::LobExt;

#[test]
fn basic_filter() {
    let result: Vec<_> = (0..10).lob().filter(|x| x % 2 == 0).collect();
    assert_eq!(result, vec![0, 2, 4, 6, 8]);
}

#[test]
fn fluent_chained_operations() {
    let result: Vec<_> = (0..10)
        .lob()
        .filter(|x| x % 2 == 0)
        .map(|x| x * 2)
        .take(3)
        .collect();
    assert_eq!(result, vec![0, 4, 8]);
}

#[test]
fn terminal_operations() {
    assert_eq!((1..=5).lob().checked_sum(), Some(15));
    assert_eq!((1..=5).lob().count(), 5);
    assert_eq!((1..=5).lob().min(), Some(1));
    assert_eq!((1..=5).lob().max(), Some(5));
}

#[test]
fn into_iterator_for_loop() {
    let mut result = Vec::new();
    for item in (0..5).lob().map(|x| x * 2) {
        result.push(item);
    }
    assert_eq!(result, vec![0, 2, 4, 6, 8]);
}
