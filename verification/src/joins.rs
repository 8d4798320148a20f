//! Joining two sequences by key.
//!
//! Every item of both sides is given a key. An item of the left side is
//! paired with the items of the right side whose key equals its own, in
//! their order. An inner join leaves out a left item that finds no partner;
//! a left join keeps it, with nothing beside it.

use vstd::prelude::*;
use vstd::std_specs::cmp::PartialEqSpec;
use vstd::std_specs::iter::IteratorSpec;
use crate::grouping::key_answers;

verus! {

/// The partners of the left item at index `i`, whose key is `key`, among the
/// first `m` right items: their indices, in order, each beside `i`.
pub open spec fn row_pairs<K: PartialEq>(i: int, key: K, rks: Seq<K>, m: int) -> Seq<(int, int)>
    decreases m,
{
    if m <= 0 {
        Seq::empty()
    } else if key.eq_spec(&rks[m - 1]) {
        row_pairs(i, key, rks, m - 1).push((i, m - 1))
    } else {
        row_pairs(i, key, rks, m - 1)
    }
}

/// The pairs of an inner join of the first `n` left items: for each left
/// item, in order, its partners.
pub open spec fn inner_pairs<K: PartialEq>(lks: Seq<K>, rks: Seq<K>, n: int) -> Seq<(int, int)>
    decreases n,
{
    if n <= 0 {
        Seq::empty()
    } else {
        inner_pairs(lks, rks, n - 1) + row_pairs(n - 1, lks[n - 1], rks, rks.len() as int)
    }
}

/// The partners of the left item at index `i` in a left join: those of the
/// inner join, or nothing at all where there are none.
pub open spec fn left_row<K: PartialEq>(i: int, key: K, rks: Seq<K>) -> Seq<(int, Option<int>)> {
    let row = row_pairs(i, key, rks, rks.len() as int);
    if row.len() == 0 {
        seq![(i, None)]
    } else {
        Seq::new(row.len(), |p: int| (i, Some(row[p].1)))
    }
}

/// The pairs of a left join of the first `n` left items.
pub open spec fn left_pairs<K: PartialEq>(lks: Seq<K>, rks: Seq<K>, n: int) -> Seq<
    (int, Option<int>),
>
    decreases n,
{
    if n <= 0 {
        Seq::empty()
    } else {
        left_pairs(lks, rks, n - 1) + left_row(n - 1, lks[n - 1], rks)
    }
}

/// `out` holds, for each of `pairs`, a copy of the left item and a copy of
/// the right item that the pair names.
pub open spec fn copies_pairs<T: Clone, U: Clone>(
    lefts: Seq<T>,
    rights: Seq<U>,
    pairs: Seq<(int, int)>,
    out: Seq<(T, U)>,
) -> bool {
    &&& out.len() == pairs.len()
    &&& forall|p: int|
        0 <= p < pairs.len() ==> cloned(lefts[pairs[p].0], (#[trigger] out[p]).0) && cloned(
            rights[pairs[p].1],
            out[p].1,
        )
}

/// `out` holds, for each of `pairs`, a copy of the left item and, where the
/// pair names a right item, a copy of that.
pub open spec fn copies_left_pairs<T: Clone, U: Clone>(
    lefts: Seq<T>,
    rights: Seq<U>,
    pairs: Seq<(int, Option<int>)>,
    out: Seq<(T, Option<U>)>,
) -> bool {
    &&& out.len() == pairs.len()
    &&& forall|p: int|
        0 <= p < pairs.len() ==> cloned(lefts[pairs[p].0], (#[trigger] out[p]).0) && match pairs[p].1 {
            Some(j) => out[p].1 matches Some(right) && cloned(rights[j], right),
            None => out[p].1 is None,
        }
}

/// `out` is the inner join of `lefts` and `rights`, where `lks` and `rks`
/// are the keys that the two functions gave their items. What the join
/// holds is stated for keys whose `==` is what their type says equality is.
pub open spec fn is_inner_join<T: Clone, U: Clone, K: PartialEq, FL: Fn(&T) -> K, FR: Fn(&U) -> K>(
    left_key: FL,
    right_key: FR,
    lefts: Seq<T>,
    rights: Seq<U>,
    lks: Seq<K>,
    rks: Seq<K>,
    out: Seq<(T, U)>,
) -> bool {
    &&& key_answers(left_key, lefts, lks)
    &&& key_answers(right_key, rights, rks)
    &&& K::obeys_eq_spec() ==> copies_pairs(
        lefts,
        rights,
        inner_pairs(lks, rks, lefts.len() as int),
        out,
    )
}

/// `out` is the left join of `lefts` and `rights`, where `lks` and `rks`
/// are the keys that the two functions gave their items. What the join
/// holds is stated for keys whose `==` is what their type says equality is.
pub open spec fn is_left_join<T: Clone, U: Clone, K: PartialEq, FL: Fn(&T) -> K, FR: Fn(&U) -> K>(
    left_key: FL,
    right_key: FR,
    lefts: Seq<T>,
    rights: Seq<U>,
    lks: Seq<K>,
    rks: Seq<K>,
    out: Seq<(T, Option<U>)>,
) -> bool {
    &&& key_answers(left_key, lefts, lks)
    &&& key_answers(right_key, rights, rks)
    &&& K::obeys_eq_spec() ==> copies_left_pairs(
        lefts,
        rights,
        left_pairs(lks, rks, lefts.len() as int),
        out,
    )
}

/// A pair of an inner join names a left item and a right item.
pub proof fn lemma_row_pairs_in_range<K: PartialEq>(i: int, key: K, rks: Seq<K>, m: int)
    requires
        0 <= m <= rks.len(),
    ensures
        forall|p: int|
            0 <= p < row_pairs(i, key, rks, m).len() ==> (#[trigger] row_pairs(i, key, rks, m)[p]).0
                == i && 0 <= row_pairs(i, key, rks, m)[p].1 < m,
    decreases m,
{
    if m > 0 {
        lemma_row_pairs_in_range(i, key, rks, m - 1);
        let before = row_pairs(i, key, rks, m - 1);
        let now = row_pairs(i, key, rks, m);
        assert forall|p: int| 0 <= p < now.len() implies (#[trigger] now[p]).0 == i && 0
            <= now[p].1 < m by {
            if p < before.len() {
                assert(now[p] == before[p]);
            }
        }
    }
}

/// The key that `f` gives each item, in order.
pub fn keys_of<T, K, F: Fn(&T) -> K>(items: &Vec<T>, f: F) -> (keys: Vec<K>)
    requires
        forall|i: int| 0 <= i < items@.len() ==> call_requires(f, (&items@[i],)),
    ensures
        key_answers(f, items@, keys@),
{
    let mut keys: Vec<K> = Vec::new();
    let mut i: usize = 0;
    while i < items.len()
        invariant
            0 <= i <= items.len(),
            keys.len() == i,
            forall|k: int| 0 <= k < i ==> call_ensures(f, (&items@[k],), #[trigger] keys@[k]),
            forall|k: int| 0 <= k < items@.len() ==> call_requires(f, (&items@[k],)),
        decreases items.len() - i,
    {
        let key = f(&items[i]);
        keys.push(key);
        i += 1;
    }
    keys
}

/// The inner join of two sequences.
#[derive(Debug)]
pub struct InnerJoinIterator<T, U> {
    pub pairs: Vec<(T, U)>,
}

/// The left join of two sequences.
#[derive(Debug)]
pub struct LeftJoinIterator<T, U> {
    pub pairs: Vec<(T, Option<U>)>,
}

impl<T: Clone, U: Clone> InnerJoinIterator<T, U> {
    /// Joins `left` and `right` by the keys that the two functions give.
    pub fn new<K: PartialEq, FL: Fn(&T) -> K, FR: Fn(&U) -> K>(
        left: Vec<T>,
        right: Vec<U>,
        left_key: FL,
        right_key: FR,
    ) -> (r: Self)
        requires
            forall|i: int| 0 <= i < left@.len() ==> call_requires(left_key, (&left@[i],)),
            forall|j: int| 0 <= j < right@.len() ==> call_requires(right_key, (&right@[j],)),
        ensures
            exists|lks: Seq<K>, rks: Seq<K>|
                is_inner_join(left_key, right_key, left@, right@, lks, rks, r.pairs@),
    {
        let lks = keys_of(&left, left_key);
        let rks = keys_of(&right, right_key);
        let mut out: Vec<(T, U)> = Vec::new();
        let ghost mut pairs: Seq<(int, int)> = Seq::empty();
        let mut i: usize = 0;
        while i < left.len()
            invariant
                0 <= i <= left.len(),
                lks.len() == left.len(),
                rks.len() == right.len(),
                K::obeys_eq_spec() ==> pairs == inner_pairs(lks@, rks@, i as int),
                copies_pairs(left@, right@, pairs, out@),
            decreases left.len() - i,
        {
            let ghost done = pairs;
            let ghost mut row: Seq<(int, int)> = Seq::empty();
            let mut j: usize = 0;
            while j < right.len()
                invariant
                    0 <= j <= right.len(),
                    i < left.len(),
                    lks.len() == left.len(),
                    rks.len() == right.len(),
                    K::obeys_eq_spec() ==> row == row_pairs(
                        i as int,
                        lks@[i as int],
                        rks@,
                        j as int,
                    ),
                    pairs == done + row,
                    copies_pairs(left@, right@, pairs, out@),
                decreases right.len() - j,
            {
                if lks[i] == rks[j] {
                    let ghost before = out@;
                    let ghost old_pairs = pairs;
                    let l = left[i].clone();
                    let r = right[j].clone();
                    out.push((l, r));
                    proof {
                        row = row.push((i as int, j as int));
                        pairs = pairs.push((i as int, j as int));
                        assert(pairs =~= done + row);
                        assert forall|p: int| 0 <= p < pairs.len() implies cloned(
                            left@[pairs[p].0],
                            (#[trigger] out@[p]).0,
                        ) && cloned(right@[pairs[p].1], out@[p].1) by {
                            if p < old_pairs.len() {
                                assert(out@[p] == before[p]);
                                assert(pairs[p] == old_pairs[p]);
                            }
                        }
                    }
                }
                j += 1;
            }
            i += 1;
        }
        let ghost wl = lks@;
        let ghost wr = rks@;
        let r = InnerJoinIterator { pairs: out };
        proof {
            assert(is_inner_join(left_key, right_key, left@, right@, wl, wr, r.pairs@));
        }
        r
    }
}

impl<T: Clone, U: Clone> LeftJoinIterator<T, U> {
    /// Joins `left` and `right` by the keys that the two functions give,
    /// and keeps the items of `left` that find no partner.
    pub fn new<K: PartialEq, FL: Fn(&T) -> K, FR: Fn(&U) -> K>(
        left: Vec<T>,
        right: Vec<U>,
        left_key: FL,
        right_key: FR,
    ) -> (r: Self)
        requires
            forall|i: int| 0 <= i < left@.len() ==> call_requires(left_key, (&left@[i],)),
            forall|j: int| 0 <= j < right@.len() ==> call_requires(right_key, (&right@[j],)),
        ensures
            exists|lks: Seq<K>, rks: Seq<K>|
                is_left_join(left_key, right_key, left@, right@, lks, rks, r.pairs@),
    {
        let lks = keys_of(&left, left_key);
        let rks = keys_of(&right, right_key);
        let mut out: Vec<(T, Option<U>)> = Vec::new();
        let ghost mut pairs: Seq<(int, Option<int>)> = Seq::empty();
        let mut i: usize = 0;
        while i < left.len()
            invariant
                0 <= i <= left.len(),
                lks.len() == left.len(),
                rks.len() == right.len(),
                K::obeys_eq_spec() ==> pairs == left_pairs(lks@, rks@, i as int),
                copies_left_pairs(left@, right@, pairs, out@),
            decreases left.len() - i,
        {
            let ghost done = pairs;
            let ghost mut row: Seq<(int, int)> = Seq::empty();
            let ghost mut shown: Seq<(int, Option<int>)> = Seq::empty();
            let mut found = false;
            let mut j: usize = 0;
            while j < right.len()
                invariant
                    0 <= j <= right.len(),
                    i < left.len(),
                    lks.len() == left.len(),
                    rks.len() == right.len(),
                    K::obeys_eq_spec() ==> row == row_pairs(
                        i as int,
                        lks@[i as int],
                        rks@,
                        j as int,
                    ),
                    shown.len() == row.len(),
                    forall|p: int|
                        0 <= p < row.len() ==> #[trigger] shown[p] == (i as int, Some(row[p].1)),
                    found <==> row.len() > 0,
                    pairs == done + shown,
                    copies_left_pairs(left@, right@, pairs, out@),
                decreases right.len() - j,
            {
                if lks[i] == rks[j] {
                    let ghost before = out@;
                    let ghost old_pairs = pairs;
                    let l = left[i].clone();
                    let r = right[j].clone();
                    out.push((l, Some(r)));
                    found = true;
                    proof {
                        row = row.push((i as int, j as int));
                        shown = shown.push((i as int, Some(j as int)));
                        pairs = pairs.push((i as int, Some(j as int)));
                        assert(pairs =~= done + shown);
                        assert forall|p: int| 0 <= p < pairs.len() implies cloned(
                            left@[pairs[p].0],
                            (#[trigger] out@[p]).0,
                        ) && match pairs[p].1 {
                            Some(k) => out@[p].1 matches Some(right_item) && cloned(
                                right@[k],
                                right_item,
                            ),
                            None => out@[p].1 is None,
                        } by {
                            if p < old_pairs.len() {
                                assert(out@[p] == before[p]);
                                assert(pairs[p] == old_pairs[p]);
                            }
                        }
                    }
                }
                j += 1;
            }
            if !found {
                let ghost before = out@;
                let ghost old_pairs = pairs;
                let l = left[i].clone();
                out.push((l, None));
                proof {
                    shown = seq![(i as int, None)];
                    pairs = pairs.push((i as int, None));
                    assert(pairs =~= done + shown);
                    assert forall|p: int| 0 <= p < pairs.len() implies cloned(
                        left@[pairs[p].0],
                        (#[trigger] out@[p]).0,
                    ) && match pairs[p].1 {
                        Some(k) => out@[p].1 matches Some(right_item) && cloned(
                            right@[k],
                            right_item,
                        ),
                        None => out@[p].1 is None,
                    } by {
                        if p < old_pairs.len() {
                            assert(out@[p] == before[p]);
                            assert(pairs[p] == old_pairs[p]);
                        }
                    }
                }
            }
            proof {
                if K::obeys_eq_spec() {
                    assert(shown =~= left_row(i as int, lks@[i as int], rks@));
                }
            }
            i += 1;
        }
        let ghost wl = lks@;
        let ghost wr = rks@;
        let r = LeftJoinIterator { pairs: out };
        proof {
            assert(is_left_join(left_key, right_key, left@, right@, wl, wr, r.pairs@));
        }
        r
    }
}

impl<T, U> IntoIterator for InnerJoinIterator<T, U> {
    type Item = (T, U);

    type IntoIter = std::vec::IntoIter<(T, U)>;

    /// An iterator over the pairs.
    fn into_iter(self) -> (iter: std::vec::IntoIter<(T, U)>)
        ensures
            iter.remaining() == self.pairs@,
    {
        self.pairs.into_iter()
    }
}

impl<T, U> IntoIterator for LeftJoinIterator<T, U> {
    type Item = (T, Option<U>);

    type IntoIter = std::vec::IntoIter<(T, Option<U>)>;

    /// An iterator over the pairs.
    fn into_iter(self) -> (iter: std::vec::IntoIter<(T, Option<U>)>)
        ensures
            iter.remaining() == self.pairs@,
    {
        self.pairs.into_iter()
    }
}

} // verus!
