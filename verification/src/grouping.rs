//! Grouping a sequence: chunks, windows and groups by key.

use vstd::prelude::*;
use vstd::std_specs::cmp::PartialEqSpec;
use vstd::std_specs::iter::IteratorSpec;

verus! {

/// What each of `lists` holds.
pub open spec fn views<T>(lists: Seq<Vec<T>>) -> Seq<Seq<T>> {
    Seq::new(lists.len(), |i: int| lists[i]@)
}

/// Where the chunk that begins at `from` ends.
pub open spec fn chunk_end<T>(items: Seq<T>, size: int, from: int) -> int {
    if from + size <= items.len() {
        from + size
    } else {
        items.len() as int
    }
}

/// `items` from index `from` on, cut into pieces of `size` items; the last
/// piece holds what is left, which may be less.
pub open spec fn chunks_of<T>(items: Seq<T>, size: int, from: int) -> Seq<Seq<T>>
    decreases items.len() - from,
{
    if size <= 0 || from < 0 || from >= items.len() {
        Seq::empty()
    } else {
        seq![items.subrange(from, chunk_end(items, size, from))] + chunks_of(
            items,
            size,
            chunk_end(items, size, from),
        )
    }
}

/// How many windows of `size` items a sequence of `len` items has.
pub open spec fn window_count(len: int, size: int) -> int {
    if size <= len {
        len - size + 1
    } else {
        0
    }
}

/// `windows` holds a copy of every run of `size` neighbouring items, in
/// order: window `i` copies the items from index `i` on.
pub open spec fn are_windows<T: Clone>(items: Seq<T>, size: int, windows: Seq<Vec<T>>) -> bool {
    &&& windows.len() == window_count(items.len() as int, size)
    &&& forall|i: int| 0 <= i < windows.len() ==> (#[trigger] windows[i])@.len() == size
    &&& forall|i: int, j: int|
        0 <= i < windows.len() && 0 <= j < size ==> cloned(items[i + j], #[trigger] windows[i]@[j])
}

/// `keys` holds the key that `f` gave each item.
pub open spec fn key_answers<T, K, F: Fn(&T) -> K>(f: F, items: Seq<T>, keys: Seq<K>) -> bool {
    &&& keys.len() == items.len()
    &&& forall|i: int| 0 <= i < items.len() ==> call_ensures(f, (&items[i],), #[trigger] keys[i])
}

/// The index of the first of the first `n` of `keys` that equals `key`, or
/// `n`.
pub open spec fn key_index<K: PartialEq>(keys: Seq<K>, key: K, n: int) -> int
    decreases n,
{
    if n <= 0 {
        0
    } else if key_index(keys, key, n - 1) < n - 1 {
        key_index(keys, key, n - 1)
    } else if keys[n - 1].eq_spec(&key) {
        n - 1
    } else {
        n
    }
}

/// The keys of the groups that the first `n` items fall into, in the order
/// in which they first came up.
pub open spec fn group_keys<K: PartialEq>(keys: Seq<K>, n: int) -> Seq<K>
    decreases n,
{
    if n <= 0 {
        Seq::empty()
    } else {
        let before = group_keys(keys, n - 1);
        if key_index(before, keys[n - 1], before.len() as int) < before.len() {
            before
        } else {
            before.push(keys[n - 1])
        }
    }
}

/// The groups that the first `n` items fall into, in the order of
/// `group_keys`: each holds its items in the order in which they stood.
pub open spec fn group_members<T, K: PartialEq>(items: Seq<T>, keys: Seq<K>, n: int) -> Seq<Seq<T>>
    decreases n,
{
    if n <= 0 {
        Seq::empty()
    } else {
        let before = group_keys(keys, n - 1);
        let members = group_members(items, keys, n - 1);
        let j = key_index(before, keys[n - 1], before.len() as int);
        if j < before.len() {
            members.update(j, members[j].push(items[n - 1]))
        } else {
            members.push(seq![items[n - 1]])
        }
    }
}

/// `groups` holds `items` grouped by `keys`.
pub open spec fn is_grouping<T, K: PartialEq>(
    items: Seq<T>,
    keys: Seq<K>,
    groups: Seq<(K, Vec<T>)>,
) -> bool {
    &&& groups.len() == group_keys(keys, items.len() as int).len()
    &&& groups.len() == group_members(items, keys, items.len() as int).len()
    &&& forall|g: int|
        0 <= g < groups.len() ==> (#[trigger] groups[g]).0 == group_keys(
            keys,
            items.len() as int,
        )[g] && groups[g].1@ == group_members(items, keys, items.len() as int)[g]
}

/// There are as many groups as group keys.
pub proof fn lemma_group_sizes<T, K: PartialEq>(items: Seq<T>, keys: Seq<K>, n: int)
    ensures
        group_members(items, keys, n).len() == group_keys(keys, n).len(),
    decreases n,
{
    if n > 0 {
        lemma_group_sizes(items, keys, n - 1);
        lemma_key_index_bound(
            group_keys(keys, n - 1),
            keys[n - 1],
            group_keys(keys, n - 1).len() as int,
        );
    }
}

/// The index of a key among `n` keys lies between 0 and `n`.
pub proof fn lemma_key_index_bound<K: PartialEq>(keys: Seq<K>, key: K, n: int)
    requires
        0 <= n,
    ensures
        0 <= key_index(keys, key, n) <= n,
    decreases n,
{
    if n > 0 {
        lemma_key_index_bound(keys, key, n - 1);
    }
}

proof fn lemma_key_index_stays<K: PartialEq>(keys: Seq<K>, key: K, k: int, n: int)
    requires
        0 <= k < n,
        key_index(keys, key, k) == k,
        keys[k].eq_spec(&key),
    ensures
        key_index(keys, key, n) == k,
    decreases n,
{
    if n > k + 1 {
        lemma_key_index_stays(keys, key, k, n - 1);
    }
}

/// What is grouped of the first `n` items does not depend on later keys.
proof fn lemma_groups_ignore_later<T, K: PartialEq>(items: Seq<T>, a: Seq<K>, b: Seq<K>, n: int)
    requires
        0 <= n <= a.len() <= b.len(),
        forall|i: int| 0 <= i < n ==> a[i] == b[i],
    ensures
        group_keys(a, n) == group_keys(b, n),
        group_members(items, a, n) == group_members(items, b, n),
    decreases n,
{
    if n > 0 {
        lemma_groups_ignore_later(items, a, b, n - 1);
    }
}

fn find_key<K: PartialEq>(keys: &Vec<K>, key: &K) -> (j: usize)
    ensures
        j <= keys.len(),
        K::obeys_eq_spec() ==> j == key_index(keys@, *key, keys.len() as int),
{
    let mut j: usize = 0;
    while j < keys.len()
        invariant
            0 <= j <= keys.len(),
            K::obeys_eq_spec() ==> key_index(keys@, *key, j as int) == j,
        decreases keys.len() - j,
    {
        if keys[j] == *key {
            proof {
                if K::obeys_eq_spec() {
                    lemma_key_index_stays(keys@, *key, j as int, keys.len() as int);
                }
            }
            return j;
        }
        j += 1;
    }
    j
}

/// The chunks of a sequence.
#[derive(Debug)]
pub struct ChunkIterator<T> {
    pub chunks: Vec<Vec<T>>,
}

impl<T> ChunkIterator<T> {
    /// Cuts `items` into chunks of `chunk_size`; the last chunk holds what
    /// is left.
    pub fn new(items: Vec<T>, chunk_size: usize) -> (r: Self)
        requires
            chunk_size > 0,
        ensures
            views(r.chunks@) == chunks_of(items@, chunk_size as int, 0),
    {
        let ghost all = items@;
        let ghost size = chunk_size as int;
        let ghost mut start: int = 0;
        let mut chunks: Vec<Vec<T>> = Vec::new();
        let mut current: Vec<T> = Vec::new();
        assert(views(chunks@) =~= Seq::<Seq<T>>::empty());
        for x in it: items
            invariant
                it.seq() == all,
                size == chunk_size,
                size > 0,
                0 <= start <= it.index(),
                current@ == all.subrange(start, it.index()),
                current.len() < chunk_size,
                views(chunks@) + chunks_of(all, size, start) == chunks_of(all, size, 0),
        {
            let ghost n = it.index();
            current.push(x);
            assert(current@ =~= all.subrange(start, n + 1));
            if current.len() == chunk_size {
                let ghost before = views(chunks@);
                let ghost piece = current@;
                chunks.push(current);
                current = Vec::new();
                assert(views(chunks@) =~= before.push(piece));
                assert(chunk_end(all, size, start) == start + size);
                assert(before + (seq![piece] + chunks_of(all, size, start + size)) =~= before.push(
                    piece,
                ) + chunks_of(all, size, start + size));
                proof {
                    start = n + 1;
                }
                assert(current@ =~= all.subrange(start, n + 1));
            }
        }
        if current.len() > 0 {
            let ghost before = views(chunks@);
            let ghost piece = current@;
            chunks.push(current);
            assert(views(chunks@) =~= before.push(piece));
            assert(chunk_end(all, size, start) == all.len());
            assert(chunks_of(all, size, all.len() as int) =~= Seq::<Seq<T>>::empty());
            assert(before + (seq![piece] + Seq::<Seq<T>>::empty()) =~= before.push(piece));
        } else {
            assert(views(chunks@) + Seq::<Seq<T>>::empty() =~= views(chunks@));
        }
        ChunkIterator { chunks }
    }
}

/// The windows of a sequence.
#[derive(Debug)]
pub struct WindowIterator<T> {
    pub windows: Vec<Vec<T>>,
}

impl<T: Clone> WindowIterator<T> {
    /// Copies every run of `window_size` neighbouring items of `items`.
    pub fn new(items: Vec<T>, window_size: usize) -> (r: Self)
        requires
            window_size > 0,
        ensures
            are_windows(items@, window_size as int, r.windows@),
    {
        let mut windows: Vec<Vec<T>> = Vec::new();
        if items.len() < window_size {
            return WindowIterator { windows };
        }
        let count: usize = items.len() - window_size + 1;
        let mut i: usize = 0;
        while i < count
            invariant
                0 <= i <= count,
                count == items.len() - window_size + 1,
                window_size > 0,
                windows.len() == i,
                forall|a: int| 0 <= a < i ==> (#[trigger] windows@[a])@.len() == window_size,
                forall|a: int, b: int|
                    0 <= a < i && 0 <= b < window_size ==> cloned(
                        items@[a + b],
                        #[trigger] windows@[a]@[b],
                    ),
            decreases count - i,
        {
            let mut window: Vec<T> = Vec::new();
            let mut j: usize = 0;
            while j < window_size
                invariant
                    0 <= j <= window_size,
                    i + window_size <= items.len(),
                    window.len() == j,
                    forall|b: int| 0 <= b < j ==> cloned(items@[i + b], #[trigger] window@[b]),
                decreases window_size - j,
            {
                window.push(items[i + j].clone());
                j += 1;
            }
            windows.push(window);
            i += 1;
        }
        WindowIterator { windows }
    }
}

impl<T> IntoIterator for ChunkIterator<T> {
    type Item = Vec<T>;

    type IntoIter = std::vec::IntoIter<Vec<T>>;

    /// An iterator over the chunks.
    fn into_iter(self) -> (iter: std::vec::IntoIter<Vec<T>>)
        ensures
            iter.remaining() == self.chunks@,
    {
        self.chunks.into_iter()
    }
}

impl<T> IntoIterator for WindowIterator<T> {
    type Item = Vec<T>;

    type IntoIter = std::vec::IntoIter<Vec<T>>;

    /// An iterator over the windows.
    fn into_iter(self) -> (iter: std::vec::IntoIter<Vec<T>>)
        ensures
            iter.remaining() == self.windows@,
    {
        self.windows.into_iter()
    }
}

/// The groups of a sequence.
#[derive(Debug)]
pub struct GroupByCollectIterator<K, T> {
    pub groups: Vec<(K, Vec<T>)>,
}

impl<K: PartialEq, T> GroupByCollectIterator<K, T> {
    /// Gathers `items` into groups by the key that `key_fn` gives each.
    pub fn new<F: Fn(&T) -> K>(items: Vec<T>, key_fn: F) -> (r: Self)
        requires
            forall|i: int| 0 <= i < items@.len() ==> call_requires(key_fn, (&items@[i],)),
        ensures
            exists|keys: Seq<K>|
                key_answers(key_fn, items@, keys) && (K::obeys_eq_spec() ==> is_grouping(
                    items@,
                    keys,
                    r.groups@,
                )),
    {
        let ghost all = items@;
        let ghost mut answers: Seq<K> = Seq::empty();
        let mut keys: Vec<K> = Vec::new();
        let mut members: Vec<Vec<T>> = Vec::new();
        assert(views(members@) =~= Seq::<Seq<T>>::empty());
        for x in it: items
            invariant
                it.seq() == all,
                answers.len() == it.index(),
                keys.len() == members.len(),
                forall|i: int|
                    0 <= i < it.index() ==> call_ensures(key_fn, (&all[i],), #[trigger] answers[i]),
                K::obeys_eq_spec() ==> keys@ == group_keys(answers, it.index()),
                K::obeys_eq_spec() ==> views(members@) == group_members(all, answers, it.index()),
                forall|i: int| 0 <= i < all.len() ==> call_requires(key_fn, (&all[i],)),
        {
            let ghost n = it.index();
            let ghost before = answers;
            let ghost old_members = views(members@);
            let key = key_fn(&x);
            proof {
                answers = answers.push(key);
                lemma_groups_ignore_later(all, before, answers, n);
            }
            let j = find_key(&keys, &key);
            if j < keys.len() {
                members[j].push(x);
                assert(views(members@) =~= old_members.update(
                    j as int,
                    old_members[j as int].push(x),
                ));
            } else {
                keys.push(key);
                let mut group: Vec<T> = Vec::new();
                group.push(x);
                members.push(group);
                assert(views(members@) =~= old_members.push(seq![x]));
            }
        }
        let ghost final_keys = keys@;
        let ghost final_members = members@;
        let groups = crate::fluent::Lob::new(keys).zip(members).to_list();
        proof {
            assert(key_answers(key_fn, all, answers));
            if K::obeys_eq_spec() {
                lemma_group_sizes(all, answers, all.len() as int);
                assert forall|g: int| 0 <= g < groups@.len() implies (#[trigger] groups@[g]).0
                    == group_keys(answers, all.len() as int)[g] && groups@[g].1@ == group_members(
                    all,
                    answers,
                    all.len() as int,
                )[g] by {
                    assert(groups@[g] == (final_keys[g], final_members[g]));
                    assert(views(final_members)[g] == final_members[g]@);
                }
            }
        }
        GroupByCollectIterator { groups }
    }
}

impl<K, T> IntoIterator for GroupByCollectIterator<K, T> {
    type Item = (K, Vec<T>);

    type IntoIter = std::vec::IntoIter<(K, Vec<T>)>;

    /// An iterator over the groups.
    fn into_iter(self) -> (iter: std::vec::IntoIter<(K, Vec<T>)>)
        ensures
            iter.remaining() == self.groups@,
    {
        self.groups.into_iter()
    }
}

} // verus!
