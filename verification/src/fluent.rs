//! A fluent wrapper around a sequence of items.
//!
//! `Lob<T>` holds its items and offers the operations of a data pipeline as
//! methods that can be chained. Every operation is carried out when it is
//! called. What an operation does with a closure is stated through what the
//! closure itself promises of each call.

use vstd::prelude::*;
use vstd::std_specs::cmp::PartialEqSpec;
use vstd::std_specs::iter::IteratorSpec;
use crate::grouping::{
    are_windows,
    chunks_of,
    is_grouping,
    key_answers,
    views,
    ChunkIterator,
    GroupByCollectIterator,
    WindowIterator,
};
use crate::joins::{is_inner_join, is_left_join, InnerJoinIterator, LeftJoinIterator};
use crate::order::{greatest, is_greatest_of, is_least_of, least};

verus! {

/// A sequence of items with chainable operations.
#[derive(Debug)]
pub struct Lob<T> {
    items: Vec<T>,
}

impl<T> View for Lob<T> {
    type V = Seq<T>;

    closed spec fn view(&self) -> Seq<T> {
        self.items@
    }
}

/// The items among the first `n` that `keep` marks, in order.
pub open spec fn kept<T>(items: Seq<T>, keep: Seq<bool>, n: int) -> Seq<T>
    decreases n,
{
    if n <= 0 {
        Seq::empty()
    } else if keep[n - 1] {
        kept(items, keep, n - 1).push(items[n - 1])
    } else {
        kept(items, keep, n - 1)
    }
}

/// `keep` holds what `f` said of each item.
pub open spec fn answers<T, F: Fn(&T) -> bool>(f: F, items: Seq<T>, keep: Seq<bool>) -> bool {
    &&& keep.len() == items.len()
    &&& forall|i: int| 0 <= i < items.len() ==> call_ensures(f, (&items[i],), #[trigger] keep[i])
}

/// `f` said `true` of each of the first `k` items and, if there is a next
/// one, `false` of it.
pub open spec fn holds_until<T, F: Fn(&T) -> bool>(f: F, items: Seq<T>, k: int) -> bool {
    &&& 0 <= k <= items.len()
    &&& forall|i: int| 0 <= i < k ==> #[trigger] call_ensures(f, (&items[i],), true)
    &&& k < items.len() ==> call_ensures(f, (&items[k],), false)
}

/// `f` said `before` of each of the first `k` items and, if there is a next
/// one, the opposite of it.
pub open spec fn turns_at<T, F: Fn(T) -> bool>(f: F, items: Seq<T>, k: int, before: bool) -> bool {
    &&& 0 <= k <= items.len()
    &&& forall|i: int| 0 <= i < k ==> #[trigger] call_ensures(f, (items[i],), before)
    &&& k < items.len() ==> call_ensures(f, (items[k],), !before)
}

/// `accs` holds the values that folding `items` with `f` went through: what
/// it began with, and after each item what `f` made of the value before and
/// the item.
pub open spec fn folds<T, B, F: Fn(B, T) -> B>(f: F, items: Seq<T>, accs: Seq<B>) -> bool {
    &&& accs.len() == items.len() + 1
    &&& forall|i: int|
        0 <= i < items.len() ==> call_ensures(f, (accs[i], items[i]), #[trigger] accs[i + 1])
}

/// Whether some item of `among` equals `x`.
pub open spec fn has_equal<T: PartialEq>(among: Seq<T>, x: T) -> bool {
    exists|j: int| 0 <= j < among.len() && (#[trigger] among[j]).eq_spec(&x)
}

/// The first `n` items without repetitions: an item is left out where it
/// equals one that was kept before it.
pub open spec fn first_occurrences<T: PartialEq>(items: Seq<T>, n: int) -> Seq<T>
    decreases n,
{
    if n <= 0 {
        Seq::empty()
    } else if has_equal(first_occurrences(items, n - 1), items[n - 1]) {
        first_occurrences(items, n - 1)
    } else {
        first_occurrences(items, n - 1).push(items[n - 1])
    }
}

/// The items of the first `n` of `lists`, one list after the other.
pub open spec fn concat_all<T>(lists: Seq<Vec<T>>, n: int) -> Seq<T>
    decreases n,
{
    if n <= 0 {
        Seq::empty()
    } else {
        concat_all(lists, n - 1) + lists[n - 1]@
    }
}

/// Whether some item of `among` equals `x`.
pub fn contains_equal<T: PartialEq>(among: &Vec<T>, x: &T) -> (b: bool)
    ensures
        T::obeys_eq_spec() ==> b == has_equal(among@, *x),
{
    let mut j: usize = 0;
    while j < among.len()
        invariant
            0 <= j <= among.len(),
            T::obeys_eq_spec() ==> forall|k: int| 0 <= k < j ==> !(#[trigger] among@[k]).eq_spec(x),
        decreases among.len() - j,
    {
        if among[j] == *x {
            return true;
        }
        j += 1;
    }
    false
}

/// `FromIterator::from_iter` on the items in order. Nothing is claimed of
/// the collection that comes out.
#[verifier::external_body]
fn gather<T, B: FromIterator<T>>(items: Vec<T>) -> B {
    items.into_iter().collect()
}

/// `v`, back to front.
pub fn reversed<T>(v: Vec<T>) -> (r: Vec<T>)
    ensures
        r@ == v@.reverse(),
{
    let mut v = v;
    let ghost all = v@;
    let mut r: Vec<T> = Vec::new();
    while v.len() > 0
        invariant
            v.len() + r.len() == all.len(),
            v@ == all.take(v.len() as int),
            forall|i: int| 0 <= i < r.len() ==> r@[i] == all[all.len() - 1 - i],
        decreases v.len(),
    {
        let x = v.pop().unwrap();
        r.push(x);
    }
    assert(r@ =~= all.reverse());
    r
}

impl<T> Lob<T> {
    /// Wraps `items`.
    pub fn new(items: Vec<T>) -> (lob: Self)
        ensures
            lob@ == items@,
    {
        Lob { items }
    }

    /// Keeps the items of which `predicate` says `true`.
    pub fn filter<F: Fn(&T) -> bool>(self, predicate: F) -> (out: Lob<T>)
        requires
            forall|i: int| 0 <= i < self@.len() ==> call_requires(predicate, (&self@[i],)),
        ensures
            exists|keep: Seq<bool>|
                answers(predicate, self@, keep) && out@ == kept(self@, keep, self@.len() as int),
    {
        let mut out: Vec<T> = Vec::new();
        let ghost all = self.items@;
        let ghost mut keep: Seq<bool> = Seq::empty();
        assert(all == self@);
        assert(forall|i: int| 0 <= i < all.len() ==> call_requires(predicate, (&all[i],)));
        for x in it: self.items
            invariant
                it.seq() == all,
                keep.len() == it.index(),
                forall|i: int|
                    0 <= i < it.index() ==> call_ensures(predicate, (&all[i],), #[trigger] keep[i]),
                out@ == kept(all, keep, it.index()),
                forall|i: int| 0 <= i < all.len() ==> call_requires(predicate, (&all[i],)),
        {
            let ghost before = keep;
            let ghost n = it.index();
            let answer = predicate(&x);
            proof {
                keep = keep.push(answer);
                lemma_kept_ignores_later(all, before, keep, n);
            }
            if answer {
                out.push(x);
            }
        }
        proof {
            assert(answers(predicate, all, keep));
        }
        Lob { items: out }
    }

    /// Keeps the first `n` items, or all of them where there are fewer.
    pub fn take(self, n: usize) -> (out: Lob<T>)
        ensures
            out@ == self@.take(
                if n <= self@.len() {
                    n as int
                } else {
                    self@.len() as int
                },
            ),
    {
        let mut items = self.items;
        items.truncate(n);
        assert(items@ =~= self@.take(
            if n <= self@.len() {
                n as int
            } else {
                self@.len() as int
            },
        ));
        Lob { items }
    }

    /// Drops the first `n` items, or all of them where there are fewer.
    pub fn skip(self, n: usize) -> (out: Lob<T>)
        ensures
            out@ == self@.skip(
                if n <= self@.len() {
                    n as int
                } else {
                    self@.len() as int
                },
            ),
    {
        let mut items = self.items;
        if n >= items.len() {
            assert(self@.skip(self@.len() as int) =~= Seq::<T>::empty());
            Lob { items: Vec::new() }
        } else {
            let tail = items.split_off(n);
            Lob { items: tail }
        }
    }

    /// Keeps the items before the first of which `predicate` says `false`.
    /// The predicate is not asked about anything after that one.
    pub fn take_while<F: Fn(&T) -> bool>(self, predicate: F) -> (out: Lob<T>)
        requires
            forall|i: int| 0 <= i < self@.len() ==> call_requires(predicate, (&self@[i],)),
        ensures
            exists|k: int| holds_until(predicate, self@, k) && out@ == self@.take(k),
    {
        let mut out: Vec<T> = Vec::new();
        let ghost all = self.items@;
        let mut done = false;
        assert(all == self@);
        assert(forall|i: int| 0 <= i < all.len() ==> call_requires(predicate, (&all[i],)));
        for x in it: self.items
            invariant
                it.seq() == all,
                out.len() <= it.index(),
                out@ == all.take(out.len() as int),
                forall|i: int|
                    0 <= i < out.len() ==> #[trigger] call_ensures(predicate, (&all[i],), true),
                !done ==> out.len() == it.index(),
                done ==> out.len() < all.len() && call_ensures(
                    predicate,
                    (&all[out.len() as int],),
                    false,
                ),
                forall|i: int| 0 <= i < all.len() ==> call_requires(predicate, (&all[i],)),
        {
            if !done {
                if predicate(&x) {
                    out.push(x);
                    assert(out@ =~= all.take(out.len() as int));
                } else {
                    done = true;
                }
            }
        }
        proof {
            assert(holds_until(predicate, all, out.len() as int));
        }
        Lob { items: out }
    }

    /// Drops the items before the first of which `predicate` says `false`.
    /// The predicate is not asked about anything after that one.
    pub fn drop_while<F: Fn(&T) -> bool>(self, predicate: F) -> (out: Lob<T>)
        requires
            forall|i: int| 0 <= i < self@.len() ==> call_requires(predicate, (&self@[i],)),
        ensures
            exists|k: int| holds_until(predicate, self@, k) && out@ == self@.skip(k),
    {
        let mut out: Vec<T> = Vec::new();
        let ghost all = self.items@;
        let ghost mut k: int = 0;
        let mut dropping = true;
        assert(all == self@);
        assert(forall|i: int| 0 <= i < all.len() ==> call_requires(predicate, (&all[i],)));
        for x in it: self.items
            invariant
                it.seq() == all,
                0 <= k <= it.index(),
                out@ == all.subrange(k, it.index()),
                forall|i: int| 0 <= i < k ==> #[trigger] call_ensures(predicate, (&all[i],), true),
                dropping ==> k == it.index(),
                !dropping ==> k < all.len() && call_ensures(predicate, (&all[k],), false),
                forall|i: int| 0 <= i < all.len() ==> call_requires(predicate, (&all[i],)),
        {
            let ghost n = it.index();
            if dropping {
                if predicate(&x) {
                    proof {
                        k = k + 1;
                    }
                    assert(out@ =~= all.subrange(k, n + 1));
                } else {
                    dropping = false;
                    out.push(x);
                    assert(out@ =~= all.subrange(k, n + 1));
                }
            } else {
                out.push(x);
                assert(out@ =~= all.subrange(k, n + 1));
            }
        }
        proof {
            assert(holds_until(predicate, all, k));
            assert(out@ =~= all.skip(k));
        }
        Lob { items: out }
    }

    /// Puts what `f` makes of each item in the item's place.
    pub fn map<B, F: Fn(T) -> B>(self, f: F) -> (out: Lob<B>)
        requires
            forall|i: int| 0 <= i < self@.len() ==> call_requires(f, (self@[i],)),
        ensures
            out@.len() == self@.len(),
            forall|i: int| 0 <= i < self@.len() ==> call_ensures(f, (self@[i],), #[trigger] out@[i]),
    {
        let mut out: Vec<B> = Vec::new();
        let ghost all = self.items@;
        assert(all == self@);
        assert(forall|i: int| 0 <= i < all.len() ==> call_requires(f, (all[i],)));
        for x in it: self.items
            invariant
                it.seq() == all,
                out.len() == it.index(),
                forall|i: int|
                    0 <= i < it.index() ==> call_ensures(f, (all[i],), #[trigger] out@[i]),
                forall|i: int| 0 <= i < all.len() ==> call_requires(f, (all[i],)),
        {
            let y = f(x);
            out.push(y);
        }
        Lob { items: out }
    }

    /// Puts each item's index before it.
    pub fn enumerate(self) -> (out: Lob<(usize, T)>)
        ensures
            out@.len() == self@.len(),
            forall|i: int| 0 <= i < self@.len() ==> #[trigger] out@[i] == (i as usize, self@[i]),
    {
        let mut out: Vec<(usize, T)> = Vec::new();
        let ghost all = self.items@;
        assert(all == self@);
        for x in it: self.items
            invariant
                it.seq() == all,
                out.len() == it.index(),
                forall|i: int| 0 <= i < it.index() ==> #[trigger] out@[i] == (i as usize, all[i]),
        {
            let i = out.len();
            out.push((i, x));
        }
        Lob { items: out }
    }

    /// Pairs each item with the item of `other` at the same index, as far
    /// as both reach.
    pub fn zip<U>(self, other: Vec<U>) -> (out: Lob<(T, U)>)
        ensures
            out@.len() == if self@.len() <= other@.len() {
                self@.len()
            } else {
                other@.len()
            },
            forall|i: int| 0 <= i < out@.len() ==> #[trigger] out@[i] == (self@[i], other@[i]),
    {
        let mut out: Vec<(T, U)> = Vec::new();
        let ghost all = self.items@;
        let ghost others = other@;
        let mut rest = reversed(other);
        assert(all == self@);
        for x in it: self.items
            invariant
                it.seq() == all,
                out.len() + rest.len() == others.len(),
                out.len() <= it.index(),
                rest.len() > 0 ==> out.len() == it.index(),
                rest@ == others.reverse().take(rest.len() as int),
                forall|i: int| 0 <= i < out.len() ==> #[trigger] out@[i] == (all[i], others[i]),
        {
            match rest.pop() {
                Some(y) => {
                    out.push((x, y));
                },
                None => {},
            }
        }
        Lob { items: out }
    }

    /// Drops every item that equals one that was kept before it.
    pub fn unique(self) -> (out: Lob<T>) where T: PartialEq
        ensures
            T::obeys_eq_spec() ==> out@ == first_occurrences(self@, self@.len() as int),
    {
        let mut out: Vec<T> = Vec::new();
        let ghost all = self.items@;
        assert(all == self@);
        for x in it: self.items
            invariant
                it.seq() == all,
                T::obeys_eq_spec() ==> out@ == first_occurrences(all, it.index()),
        {
            if !contains_equal(&out, &x) {
                out.push(x);
            }
        }
        Lob { items: out }
    }

    /// Cuts the items into chunks of `n`; the last chunk holds what is left.
    pub fn chunk(self, n: usize) -> (out: Lob<Vec<T>>)
        requires
            n > 0,
        ensures
            views(out@) == chunks_of(self@, n as int, 0),
    {
        let ghost all = self.items@;
        assert(all == self@);
        Lob { items: ChunkIterator::new(self.items, n).chunks }
    }

    /// Every run of `n` neighbouring items, in order, as copies.
    pub fn window(self, n: usize) -> (out: Lob<Vec<T>>) where T: Clone
        requires
            n > 0,
        ensures
            are_windows(self@, n as int, out@),
    {
        let ghost all = self.items@;
        assert(all == self@);
        Lob { items: WindowIterator::new(self.items, n).windows }
    }

    /// Gathers the items into groups by the key that `key_fn` gives each.
    /// The groups stand in the order in which their keys first came up, and
    /// the items of a group in the order in which they stood.
    pub fn group_by<K: PartialEq, F: Fn(&T) -> K>(self, key_fn: F) -> (out: Lob<(K, Vec<T>)>)
        requires
            forall|i: int| 0 <= i < self@.len() ==> call_requires(key_fn, (&self@[i],)),
        ensures
            exists|keys: Seq<K>|
                key_answers(key_fn, self@, keys) && (K::obeys_eq_spec() ==> is_grouping(
                    self@,
                    keys,
                    out@,
                )),
    {
        let ghost all = self.items@;
        assert(all == self@);
        assert(forall|i: int| 0 <= i < all.len() ==> call_requires(key_fn, (&all[i],)));
        Lob { items: GroupByCollectIterator::new(self.items, key_fn).groups }
    }

    /// Pairs every item with every item of `other` that has an equal key.
    /// The pairs stand in the order of the items, and for one item in the
    /// order of `other`. Both sides of a pair are copies.
    pub fn join_inner<U: Clone, K: PartialEq, FL: Fn(&T) -> K, FR: Fn(&U) -> K>(
        self,
        other: Vec<U>,
        left_key: FL,
        right_key: FR,
    ) -> (out: Lob<(T, U)>) where T: Clone
        requires
            forall|i: int| 0 <= i < self@.len() ==> call_requires(left_key, (&self@[i],)),
            forall|j: int| 0 <= j < other@.len() ==> call_requires(right_key, (&other@[j],)),
        ensures
            exists|lks: Seq<K>, rks: Seq<K>|
                is_inner_join(left_key, right_key, self@, other@, lks, rks, out@),
    {
        let ghost all = self.items@;
        assert(all == self@);
        assert(forall|i: int| 0 <= i < all.len() ==> call_requires(left_key, (&all[i],)));
        let ghost others = other@;
        let joined = InnerJoinIterator::new(self.items, other, left_key, right_key);
        let out = Lob { items: joined.pairs };
        proof {
            let (lks, rks) = choose|lks: Seq<K>, rks: Seq<K>|
                is_inner_join(left_key, right_key, all, others, lks, rks, joined.pairs@);
            assert(is_inner_join(left_key, right_key, self@, others, lks, rks, out@));
        }
        out
    }

    /// Pairs every item with every item of `other` that has an equal key,
    /// and with nothing where there is none. The pairs stand in the order
    /// of the items, and for one item in the order of `other`. Both sides
    /// of a pair are copies.
    pub fn join_left<U: Clone, K: PartialEq, FL: Fn(&T) -> K, FR: Fn(&U) -> K>(
        self,
        other: Vec<U>,
        left_key: FL,
        right_key: FR,
    ) -> (out: Lob<(T, Option<U>)>) where T: Clone
        requires
            forall|i: int| 0 <= i < self@.len() ==> call_requires(left_key, (&self@[i],)),
            forall|j: int| 0 <= j < other@.len() ==> call_requires(right_key, (&other@[j],)),
        ensures
            exists|lks: Seq<K>, rks: Seq<K>|
                is_left_join(left_key, right_key, self@, other@, lks, rks, out@),
    {
        let ghost all = self.items@;
        assert(all == self@);
        assert(forall|i: int| 0 <= i < all.len() ==> call_requires(left_key, (&all[i],)));
        let ghost others = other@;
        let joined = LeftJoinIterator::new(self.items, other, left_key, right_key);
        let out = Lob { items: joined.pairs };
        proof {
            let (lks, rks) = choose|lks: Seq<K>, rks: Seq<K>|
                is_left_join(left_key, right_key, all, others, lks, rks, joined.pairs@);
            assert(is_left_join(left_key, right_key, self@, others, lks, rks, out@));
        }
        out
    }

    /// Gathers the items into a collection of the caller's choice. What
    /// that collection makes of them is its own affair.
    pub fn collect<B: FromIterator<T>>(self) -> B {
        gather(self.items)
    }

    /// The least item, and the first of them where several are the least.
    pub fn min(self) -> (r: Option<T>) where T: Ord
        ensures
            is_least_of(self@, r),
    {
        least(self.items)
    }

    /// The greatest item, and the last of them where several are the
    /// greatest.
    pub fn max(self) -> (r: Option<T>) where T: Ord
        ensures
            is_greatest_of(self@, r),
    {
        greatest(self.items)
    }

    /// The number of items.
    pub fn count(self) -> (n: usize)
        ensures
            n == self@.len(),
    {
        self.items.len()
    }

    /// The first item, if there is one.
    pub fn first(self) -> (r: Option<T>)
        ensures
            r == if self@.len() > 0 {
                Some(self@[0])
            } else {
                None
            },
    {
        let mut items = self.items;
        if items.len() > 0 {
            Some(items.swap_remove(0))
        } else {
            None
        }
    }

    /// The last item, if there is one.
    pub fn last(self) -> (r: Option<T>)
        ensures
            r == if self@.len() > 0 {
                Some(self@[self@.len() - 1])
            } else {
                None
            },
    {
        let mut items = self.items;
        items.pop()
    }

    /// Folds the items into one value from the left, beginning with the
    /// first item. Nothing comes of no items.
    pub fn reduce<F: Fn(T, T) -> T>(self, f: F) -> (r: Option<T>)
        requires
            forall|a: T, i: int| 0 <= i < self@.len() ==> call_requires(f, (a, self@[i])),
        ensures
            self@.len() == 0 ==> r is None,
            self@.len() > 0 ==> exists|accs: Seq<T>|
                folds(f, self@.skip(1), accs) && accs[0] == self@[0] && r == Some(
                    accs[self@.len() - 1],
                ),
    {
        let ghost all = self.items@;
        let ghost mut accs: Seq<T> = Seq::empty();
        let mut acc: Option<T> = None;
        assert(all == self@);
        assert(forall|a: T, i: int| 0 <= i < all.len() ==> call_requires(f, (a, all[i])));
        for x in it: self.items
            invariant
                it.seq() == all,
                accs.len() == it.index(),
                it.index() == 0 ==> acc is None,
                it.index() > 0 ==> acc == Some(accs[it.index() - 1]) && accs[0] == all[0],
                forall|i: int|
                    1 <= i < it.index() ==> call_ensures(
                        f,
                        (accs[i - 1], all[i]),
                        #[trigger] accs[i],
                    ),
                forall|a: T, i: int| 0 <= i < all.len() ==> call_requires(f, (a, all[i])),
        {
            let next = match acc {
                None => x,
                Some(a) => f(a, x),
            };
            proof {
                accs = accs.push(next);
            }
            acc = Some(next);
        }
        proof {
            if all.len() > 0 {
                let rest = all.skip(1);
                assert forall|i: int| 0 <= i < rest.len() implies call_ensures(
                    f,
                    (accs[i], rest[i]),
                    #[trigger] accs[i + 1],
                ) by {
                    assert(rest[i] == all[i + 1]);
                }
                assert(folds(f, rest, accs));
            }
        }
        acc
    }

    /// Folds the items into one value from the left, beginning with `init`.
    pub fn fold<B, F: Fn(B, T) -> B>(self, init: B, f: F) -> (r: B)
        requires
            forall|b: B, i: int| 0 <= i < self@.len() ==> call_requires(f, (b, self@[i])),
        ensures
            exists|accs: Seq<B>|
                folds(f, self@, accs) && accs[0] == init && r == accs[self@.len() as int],
    {
        let ghost all = self.items@;
        let ghost mut accs: Seq<B> = seq![init];
        let mut acc: B = init;
        assert(all == self@);
        assert(forall|b: B, i: int| 0 <= i < all.len() ==> call_requires(f, (b, all[i])));
        for x in it: self.items
            invariant
                it.seq() == all,
                accs.len() == it.index() + 1,
                accs[0] == init,
                acc == accs[it.index()],
                forall|i: int|
                    0 <= i < it.index() ==> call_ensures(
                        f,
                        (accs[i], all[i]),
                        #[trigger] accs[i + 1],
                    ),
                forall|b: B, i: int| 0 <= i < all.len() ==> call_requires(f, (b, all[i])),
        {
            let next = f(acc, x);
            proof {
                accs = accs.push(next);
            }
            acc = next;
        }
        proof {
            assert(folds(f, all, accs));
        }
        acc
    }

    /// The items, in order.
    pub fn to_list(self) -> (list: Vec<T>)
        ensures
            list@ == self@,
    {
        self.items
    }

    /// Whether `f` says `true` of some item. Items are asked about in
    /// order, and none after the first of which `f` says `true`.
    pub fn any<F: Fn(T) -> bool>(self, f: F) -> (r: bool)
        requires
            forall|i: int| 0 <= i < self@.len() ==> call_requires(f, (self@[i],)),
        ensures
            exists|k: int| turns_at(f, self@, k, false) && (r <==> k < self@.len()),
    {
        let ghost all = self.items@;
        let ghost mut k: int = 0;
        let mut found = false;
        assert(all == self@);
        assert(forall|i: int| 0 <= i < all.len() ==> call_requires(f, (all[i],)));
        for x in it: self.items
            invariant
                it.seq() == all,
                0 <= k <= it.index(),
                forall|i: int| 0 <= i < k ==> #[trigger] call_ensures(f, (all[i],), false),
                !found ==> k == it.index(),
                found ==> k < all.len() && call_ensures(f, (all[k],), true),
                forall|i: int| 0 <= i < all.len() ==> call_requires(f, (all[i],)),
        {
            if !found {
                if f(x) {
                    found = true;
                } else {
                    proof {
                        k = k + 1;
                    }
                }
            }
        }
        proof {
            assert(turns_at(f, all, k, false));
        }
        found
    }

    /// Whether `f` says `true` of every item. Items are asked about in
    /// order, and none after the first of which `f` says `false`.
    pub fn all<F: Fn(T) -> bool>(self, f: F) -> (r: bool)
        requires
            forall|i: int| 0 <= i < self@.len() ==> call_requires(f, (self@[i],)),
        ensures
            exists|k: int| turns_at(f, self@, k, true) && (r <==> k == self@.len()),
    {
        let ghost all = self.items@;
        let ghost mut k: int = 0;
        let mut holds = true;
        assert(all == self@);
        assert(forall|i: int| 0 <= i < all.len() ==> call_requires(f, (all[i],)));
        for x in it: self.items
            invariant
                it.seq() == all,
                0 <= k <= it.index(),
                forall|i: int| 0 <= i < k ==> #[trigger] call_ensures(f, (all[i],), true),
                holds ==> k == it.index(),
                !holds ==> k < all.len() && call_ensures(f, (all[k],), false),
                forall|i: int| 0 <= i < all.len() ==> call_requires(f, (all[i],)),
        {
            if holds {
                if f(x) {
                    proof {
                        k = k + 1;
                    }
                } else {
                    holds = false;
                }
            }
        }
        proof {
            assert(turns_at(f, all, k, true));
        }
        holds
    }
}

/// The whole of a sequence is the sequence.
pub proof fn lemma_take_all<T>(s: Seq<T>)
    ensures
        s.take(s.len() as int) == s,
{
    assert(s.take(s.len() as int) =~= s);
}

/// What is kept of the first `n` items does not depend on the marks of
/// later items.
pub proof fn lemma_kept_ignores_later<T>(items: Seq<T>, a: Seq<bool>, b: Seq<bool>, n: int)
    requires
        0 <= n <= a.len() <= b.len(),
        forall|i: int| 0 <= i < n ==> a[i] == b[i],
    ensures
        kept(items, a, n) == kept(items, b, n),
    decreases n,
{
    if n > 0 {
        lemma_kept_ignores_later(items, a, b, n - 1);
    }
}

impl<T> Lob<Vec<T>> {
    /// Puts the items of all the lists into one sequence, list after list.
    pub fn flatten(self) -> (out: Lob<T>)
        ensures
            out@ == concat_all(self@, self@.len() as int),
    {
        let mut out: Vec<T> = Vec::new();
        let ghost all = self.items@;
        assert(all == self@);
        for list in it: self.items
            invariant
                it.seq() == all,
                out@ == concat_all(all, it.index()),
        {
            let ghost base = out@;
            let ghost inner = list@;
            for y in jt: list
                invariant
                    jt.seq() == inner,
                    out@ == base + inner.take(jt.index()),
            {
                out.push(y);
                assert(out@ =~= base + inner.take(jt.index() + 1));
            }
            assert(out@ =~= base + inner);
        }
        Lob { items: out }
    }
}

impl<T> IntoIterator for Lob<T> {
    type Item = T;

    type IntoIter = std::vec::IntoIter<T>;

    /// An iterator over the items, so that a `Lob` can stand in a `for` loop.
    fn into_iter(self) -> (iter: std::vec::IntoIter<T>)
        ensures
            iter.remaining() == self@,
    {
        self.items.into_iter()
    }
}

/// Adds `lob` to every iterator.
pub trait LobExt: Iterator + Sized {
    /// Gathers the iterator's items into a `Lob`.
    fn lob(self) -> (out: Lob<Self::Item>)
        requires
            self.obeys_prophetic_iter_laws(),
            self.decrease() is Some,
        ensures
            out@ == self.remaining(),
    ;
}

impl<I: Iterator> LobExt for I {
    fn lob(self) -> (out: Lob<I::Item>) {
        let mut it = self;
        let mut items: Vec<I::Item> = Vec::new();
        loop
            invariant
                it.obeys_prophetic_iter_laws(),
                it.decrease() is Some,
                items@ + it.remaining() == self.remaining(),
            ensures
                items@ == self.remaining(),
            decreases it.decrease()->0,
        {
            match it.next() {
                Some(x) => {
                    items.push(x);
                },
                None => {
                    break ;
                },
            }
        }
        Lob { items }
    }
}

} // verus!
