//! The least and the greatest of a sequence.
//!
//! Items are compared by the order of their type. What is found is stated
//! for types whose order keeps the laws of a total order; of any other type
//! it is only said that the result is one of the items.

use std::cmp::Ordering;
use vstd::prelude::*;
use vstd::laws_cmp::{obeys_cmp, obeys_cmp_ord, obeys_cmp_partial_ord, obeys_partial_cmp_spec_properties};
use vstd::laws_eq::obeys_eq_spec_properties;
use vstd::std_specs::cmp::{OrdSpec, PartialEqSpec, PartialOrdSpec};
use crate::fluent::lemma_take_all;

verus! {

/// `a` comes before `b` in the order of their type.
pub open spec fn smaller<T: Ord>(a: T, b: T) -> bool {
    a.cmp_spec(&b) == Ordering::Less
}

/// The item at index `k` is the first of the least: no item is smaller, and
/// every item before it is greater.
pub open spec fn is_first_least<T: Ord>(items: Seq<T>, k: int) -> bool {
    &&& forall|i: int| 0 <= i < items.len() ==> !smaller(#[trigger] items[i], items[k])
    &&& forall|i: int| 0 <= i < k ==> smaller(items[k], #[trigger] items[i])
}

/// The item at index `k` is the last of the greatest: no item is greater,
/// and every item after it is smaller.
pub open spec fn is_last_greatest<T: Ord>(items: Seq<T>, k: int) -> bool {
    &&& forall|i: int| 0 <= i < items.len() ==> !smaller(items[k], #[trigger] items[i])
    &&& forall|i: int| k < i < items.len() ==> smaller(#[trigger] items[i], items[k])
}

/// `r` is the least of `items`: nothing for no items, else one of the
/// items, and the first of the least where the order is a total order.
pub open spec fn is_least_of<T: Ord>(items: Seq<T>, r: Option<T>) -> bool {
    match r {
        None => items.len() == 0,
        Some(m) => exists|k: int|
            0 <= k < items.len() && #[trigger] items[k] == m && (obeys_cmp::<T>()
                ==> is_first_least(items, k)),
    }
}

/// `r` is the greatest of `items`: nothing for no items, else one of the
/// items, and the last of the greatest where the order is a total order.
pub open spec fn is_greatest_of<T: Ord>(items: Seq<T>, r: Option<T>) -> bool {
    match r {
        None => items.len() == 0,
        Some(m) => exists|k: int|
            0 <= k < items.len() && #[trigger] items[k] == m && (obeys_cmp::<T>()
                ==> is_last_greatest(items, k)),
    }
}

/// What is smaller than something smaller is smaller.
pub proof fn lemma_smaller_is_transitive<T: Ord>(a: T, b: T, c: T)
    requires
        obeys_cmp::<T>(),
        smaller(a, b),
        smaller(b, c),
    ensures
        smaller(a, c),
{
    reveal(obeys_cmp_ord);
    reveal(obeys_partial_cmp_spec_properties);
    assert(a.partial_cmp_spec(&b) == Some(Ordering::Less));
    assert(b.partial_cmp_spec(&c) == Some(Ordering::Less));
    assert(a.partial_cmp_spec(&c) == Some(Ordering::Less));
}

/// Nothing is smaller than itself, nor than what is smaller than it.
pub proof fn lemma_smaller_is_one_way<T: Ord>(a: T, b: T)
    requires
        obeys_cmp::<T>(),
        smaller(a, b),
    ensures
        !smaller(b, a),
        a.cmp_spec(&b) != Ordering::Equal,
        b.cmp_spec(&a) == Ordering::Greater,
{
    reveal(obeys_cmp_ord);
    reveal(obeys_partial_cmp_spec_properties);
    assert(a.partial_cmp_spec(&b) == Some(Ordering::Less));
    assert(b.partial_cmp_spec(&a) == Some(Ordering::Greater));
}

/// What is greater has the other as its smaller.
pub proof fn lemma_greater_turned_round<T: Ord>(a: T, b: T)
    requires
        obeys_cmp::<T>(),
        a.cmp_spec(&b) == Ordering::Greater,
    ensures
        smaller(b, a),
{
    reveal(obeys_cmp_ord);
    reveal(obeys_partial_cmp_spec_properties);
    assert(a.partial_cmp_spec(&b) == Some(Ordering::Greater));
    assert(b.partial_cmp_spec(&a) == Some(Ordering::Less));
}

/// What ranks equal is equal both ways round.
pub proof fn lemma_equal_turned_round<T: Ord>(a: T, b: T)
    requires
        obeys_cmp::<T>(),
        a.cmp_spec(&b) == Ordering::Equal,
    ensures
        b.cmp_spec(&a) == Ordering::Equal,
{
    reveal(obeys_cmp_ord);
    reveal(obeys_partial_cmp_spec_properties);
    reveal(obeys_eq_spec_properties);
    assert(a.partial_cmp_spec(&b) == Some(Ordering::Equal));
    assert(a.eq_spec(&b));
    assert(b.eq_spec(&a));
    assert(b.partial_cmp_spec(&a) == Some(Ordering::Equal));
}

/// What ranks equal with two things ranks them equal.
pub proof fn lemma_equal_is_transitive<T: Ord>(a: T, b: T, c: T)
    requires
        obeys_cmp::<T>(),
        a.cmp_spec(&b) == Ordering::Equal,
        b.cmp_spec(&c) == Ordering::Equal,
    ensures
        a.cmp_spec(&c) == Ordering::Equal,
{
    reveal(obeys_cmp_ord);
    reveal(obeys_partial_cmp_spec_properties);
    reveal(obeys_eq_spec_properties);
    assert(a.partial_cmp_spec(&b) == Some(Ordering::Equal));
    assert(b.partial_cmp_spec(&c) == Some(Ordering::Equal));
    assert(a.eq_spec(&b));
    assert(b.eq_spec(&c));
    assert(a.eq_spec(&c));
    assert(a.partial_cmp_spec(&c) == Some(Ordering::Equal));
}

/// What is smaller than one thing is smaller than all that is no smaller
/// than that thing.
pub proof fn lemma_smaller_than_the_rest<T: Ord>(x: T, b: T, a: T)
    requires
        obeys_cmp::<T>(),
        smaller(x, b),
        !smaller(a, b),
    ensures
        smaller(x, a),
{
    match b.cmp_spec(&a) {
        Ordering::Less => {
            lemma_smaller_is_transitive(x, b, a);
        },
        Ordering::Greater => {
            lemma_greater_turned_round(b, a);
        },
        Ordering::Equal => {
            match x.cmp_spec(&a) {
                Ordering::Less => {},
                Ordering::Equal => {
                    lemma_equal_turned_round(b, a);
                    lemma_equal_is_transitive(x, a, b);
                    lemma_smaller_is_one_way(x, b);
                },
                Ordering::Greater => {
                    lemma_greater_turned_round(x, a);
                    lemma_smaller_is_transitive(a, x, b);
                },
            }
        },
    }
}

/// The least of `items`, and the first of them where several are the least.
pub fn least<T: Ord>(items: Vec<T>) -> (r: Option<T>)
    ensures
        is_least_of(items@, r),
{
    let ghost all = items@;
    let ghost mut k: int = 0;
    let mut best: Option<T> = None;
    for x in it: items
        invariant
            it.seq() == all,
            it.index() == 0 ==> best is None,
            it.index() > 0 ==> 0 <= k < it.index() && best == Some(all[k]),
            it.index() > 0 && obeys_cmp::<T>() ==> is_first_least(all.take(it.index()), k),
    {
        let ghost n = it.index();
        let ghost seen = all.take(n);
        let ghost now = all.take(n + 1);
        proof {
            assert forall|i: int| 0 <= i < n implies now[i] == seen[i] by {}
        }
        best = match best {
            None => {
                proof {
                    k = 0;
                    if obeys_cmp::<T>() {
                        if smaller(x, x) {
                            lemma_smaller_is_one_way(x, x);
                        }
                    }
                }
                Some(x)
            },
            Some(b) => match x.cmp(&b) {
                Ordering::Less => {
                    proof {
                        if obeys_cmp::<T>() {
                            reveal(obeys_cmp_ord);
                            assert(smaller(x, b));
                            assert forall|i: int| 0 <= i < n + 1 implies !smaller(
                                #[trigger] now[i],
                                x,
                            ) by {
                                if smaller(now[i], x) {
                                    if i < n {
                                        lemma_smaller_is_transitive(now[i], x, b);
                                        assert(smaller(seen[i], seen[k]));
                                    } else {
                                        lemma_smaller_is_one_way(x, x);
                                    }
                                }
                            }
                            assert forall|i: int| 0 <= i < n implies smaller(
                                x,
                                #[trigger] now[i],
                            ) by {
                                assert(!smaller(seen[i], seen[k]));
                                lemma_smaller_than_the_rest(x, b, now[i]);
                            }
                        }
                        k = n;
                    }
                    Some(x)
                },
                _ => {
                    proof {
                        if obeys_cmp::<T>() {
                            reveal(obeys_cmp_ord);
                            assert forall|i: int| 0 <= i < n + 1 implies !smaller(
                                #[trigger] now[i],
                                now[k],
                            ) by {
                                if i < n {
                                    assert(!smaller(seen[i], seen[k]));
                                }
                            }
                            assert forall|i: int| 0 <= i < k implies smaller(
                                now[k],
                                #[trigger] now[i],
                            ) by {
                                assert(smaller(seen[k], seen[i]));
                            }
                        }
                    }
                    Some(b)
                },
            },
        };
    }
    proof {
        lemma_take_all(all);
    }
    best
}

/// The greatest of `items`, and the last of them where several are the
/// greatest.
pub fn greatest<T: Ord>(items: Vec<T>) -> (r: Option<T>)
    ensures
        is_greatest_of(items@, r),
{
    let ghost all = items@;
    let ghost mut k: int = 0;
    let mut best: Option<T> = None;
    for x in it: items
        invariant
            it.seq() == all,
            it.index() == 0 ==> best is None,
            it.index() > 0 ==> 0 <= k < it.index() && best == Some(all[k]),
            it.index() > 0 && obeys_cmp::<T>() ==> is_last_greatest(all.take(it.index()), k),
    {
        let ghost n = it.index();
        let ghost seen = all.take(n);
        let ghost now = all.take(n + 1);
        proof {
            assert forall|i: int| 0 <= i < n implies now[i] == seen[i] by {}
        }
        best = match best {
            None => {
                proof {
                    k = 0;
                    if obeys_cmp::<T>() {
                        if smaller(x, x) {
                            lemma_smaller_is_one_way(x, x);
                        }
                    }
                }
                Some(x)
            },
            Some(b) => match b.cmp(&x) {
                Ordering::Greater => {
                    proof {
                        if obeys_cmp::<T>() {
                            reveal(obeys_cmp_ord);
                            lemma_greater_turned_round(b, x);
                            if smaller(b, x) {
                                lemma_smaller_is_one_way(b, x);
                            }
                            assert forall|i: int| 0 <= i < n + 1 implies !smaller(
                                now[k],
                                #[trigger] now[i],
                            ) by {
                                if i < n {
                                    assert(!smaller(seen[k], seen[i]));
                                }
                            }
                            assert forall|i: int| k < i < n + 1 implies smaller(
                                #[trigger] now[i],
                                now[k],
                            ) by {
                                if i < n {
                                    assert(smaller(seen[i], seen[k]));
                                }
                            }
                        }
                    }
                    Some(b)
                },
                _ => {
                    proof {
                        if obeys_cmp::<T>() {
                            reveal(obeys_cmp_ord);
                            assert(b.cmp_spec(&x) != Ordering::Greater);
                            assert forall|i: int| 0 <= i < n + 1 implies !smaller(
                                x,
                                #[trigger] now[i],
                            ) by {
                                if smaller(x, now[i]) {
                                    if i < n {
                                        assert(!smaller(seen[k], seen[i]));
                                        lemma_smaller_than_the_rest(x, now[i], b);
                                        lemma_smaller_is_one_way(x, b);
                                        if b.cmp_spec(&x) == Ordering::Equal {
                                            lemma_equal_turned_round(b, x);
                                        }
                                    } else {
                                        lemma_smaller_is_one_way(x, x);
                                    }
                                }
                            }
                        }
                        k = n;
                    }
                    Some(x)
                },
            },
        };
    }
    proof {
        lemma_take_all(all);
    }
    best
}

} // verus!
