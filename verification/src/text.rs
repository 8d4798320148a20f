//! Text primitives over sequences of characters.
//!
//! Every scanner in this crate works on a `Vec<char>` copy of its input and is
//! specified over `Seq<char>`. Results that are pieces of an input are cut out
//! of the input `&str` by character index.

use vstd::prelude::*;
use vstd::string::StrSliceExecFns;

verus! {

/// `needle` occurs in `hay` starting at index `i`.
pub open spec fn matches_at(hay: Seq<char>, needle: Seq<char>, i: int) -> bool {
    &&& 0 <= i
    &&& i + needle.len() <= hay.len()
    &&& hay.subrange(i, i + needle.len()) == needle
}

/// `needle` occurs somewhere in `hay`.
pub open spec fn contains(hay: Seq<char>, needle: Seq<char>) -> bool {
    exists|i: int| matches_at(hay, needle, i)
}

/// `hay` begins with `needle`.
pub open spec fn starts_with(hay: Seq<char>, needle: Seq<char>) -> bool {
    matches_at(hay, needle, 0)
}

/// The least index at or after `i` where `needle` occurs in `hay`.
pub open spec fn find_from(hay: Seq<char>, needle: Seq<char>, i: int) -> Option<int>
    decreases hay.len() - i,
{
    if i < 0 || i + needle.len() > hay.len() {
        None
    } else if matches_at(hay, needle, i) {
        Some(i)
    } else if i >= hay.len() {
        None
    } else {
        find_from(hay, needle, i + 1)
    }
}

/// The least index in `[i, to)` at which `c` stands, or `to` if there is none.
pub open spec fn char_index_from(s: Seq<char>, c: char, i: int, to: int) -> int
    decreases to - i,
{
    if i < 0 || i >= to || to > s.len() {
        to
    } else if s[i] == c {
        i
    } else {
        char_index_from(s, c, i + 1, to)
    }
}

/// The greatest index in `[from, j)` at which `c` stands, plus one, or `from`
/// if there is none: where the part after the last `c` begins.
pub open spec fn after_last_char(s: Seq<char>, c: char, from: int, j: int) -> int
    decreases j - from,
{
    if j <= from || j > s.len() || from < 0 {
        from
    } else if s[j - 1] == c {
        j
    } else {
        after_last_char(s, c, from, j - 1)
    }
}

/// Unicode's `White_Space` property, which is what the standard library trims.
pub open spec fn is_space(c: char) -> bool {
    let n = c as u32;
    ||| (0x9 <= n <= 0xd)
    ||| n == 0x20
    ||| n == 0x85
    ||| n == 0xa0
    ||| n == 0x1680
    ||| (0x2000 <= n <= 0x200a)
    ||| n == 0x2028
    ||| n == 0x2029
    ||| n == 0x202f
    ||| n == 0x205f
    ||| n == 0x3000
}

/// The first index at or after `i`, and before `to`, that holds no white
/// space; `to` if there is none.
pub open spec fn skip_spaces(s: Seq<char>, i: int, to: int) -> int
    decreases to - i,
{
    if 0 <= i < to <= s.len() && is_space(s[i]) {
        skip_spaces(s, i + 1, to)
    } else {
        i
    }
}

/// The end of `s[from..j]` once trailing white space is dropped.
pub open spec fn drop_trailing_spaces(s: Seq<char>, from: int, j: int) -> int
    decreases j - from,
{
    if 0 <= from < j <= s.len() && is_space(s[j - 1]) {
        drop_trailing_spaces(s, from, j - 1)
    } else {
        j
    }
}

/// `s` without its leading white space.
pub open spec fn trim_start(s: Seq<char>) -> Seq<char> {
    s.skip(skip_spaces(s, 0, s.len() as int))
}

/// `s` without leading and trailing white space.
pub open spec fn trim(s: Seq<char>) -> Seq<char> {
    let a = skip_spaces(s, 0, s.len() as int);
    s.subrange(a, drop_trailing_spaces(s, a, s.len() as int))
}

/// `c` is one of the ASCII digits `0` to `9`.
pub open spec fn is_digit(c: char) -> bool {
    0x30 <= c as u32 <= 0x39
}

/// Every character of `s` is an ASCII digit, and there is at least one.
pub open spec fn is_number(s: Seq<char>) -> bool {
    &&& s.len() > 0
    &&& forall|i: int| 0 <= i < s.len() ==> is_digit(#[trigger] s[i])
}

/// Where a line that began at `start` and met its line feed at `i` ends: a
/// carriage return just before the line feed belongs to the line ending.
pub open spec fn line_end(s: Seq<char>, start: int, i: int) -> int {
    if start < i <= s.len() && s[i - 1] == '\r' {
        i - 1
    } else {
        i
    }
}

/// The lines of `s` that are still to come when the current line began at
/// `start` and has been read up to `i`.
pub open spec fn lines_scan(s: Seq<char>, start: int, i: int) -> Seq<Seq<char>>
    decreases s.len() - i,
{
    if !(0 <= start <= i) {
        Seq::empty()
    } else if i >= s.len() {
        if start < s.len() {
            seq![s.subrange(start, s.len() as int)]
        } else {
            Seq::empty()
        }
    } else if s[i] == '\n' {
        seq![s.subrange(start, line_end(s, start, i))] + lines_scan(s, i + 1, i + 1)
    } else {
        lines_scan(s, start, i + 1)
    }
}

/// The lines of `s`: it is split at every line feed, a carriage return before
/// a line feed is dropped with it, and a line feed at the very end opens no
/// further line.
pub open spec fn lines(s: Seq<char>) -> Seq<Seq<char>> {
    lines_scan(s, 0, 0)
}

/// Skipping white space stops at the first index that holds none: nothing
/// but white space stands before it, and it is the end or holds something
/// else.
pub proof fn lemma_skip_spaces_bounds(s: Seq<char>, i: int, to: int)
    requires
        0 <= i <= to <= s.len(),
    ensures
        i <= skip_spaces(s, i, to) <= to,
        forall|k: int| i <= k < skip_spaces(s, i, to) ==> is_space(#[trigger] s[k]),
        skip_spaces(s, i, to) < to ==> !is_space(s[skip_spaces(s, i, to)]),
    decreases to - i,
{
    if i < to && is_space(s[i]) {
        lemma_skip_spaces_bounds(s, i + 1, to);
    }
}

/// Leading white space ends where it is seen to end: if nothing but white
/// space stands in `[i, k)` and `k` is the end or holds something else, then
/// skipping white space from `i` stops at `k`.
pub proof fn lemma_skip_spaces_is(s: Seq<char>, i: int, k: int, to: int)
    requires
        0 <= i <= k <= to <= s.len(),
        forall|j: int| i <= j < k ==> is_space(#[trigger] s[j]),
        k < to ==> !is_space(s[k]),
    ensures
        skip_spaces(s, i, to) == k,
    decreases k - i,
{
    if i < k {
        lemma_skip_spaces_is(s, i + 1, k, to);
    }
}

/// Dropping trailing white space stops behind the last index that holds
/// none: nothing but white space stands after it.
pub proof fn lemma_drop_trailing_spaces_bounds(s: Seq<char>, from: int, j: int)
    requires
        0 <= from <= j <= s.len(),
    ensures
        from <= drop_trailing_spaces(s, from, j) <= j,
        forall|k: int| drop_trailing_spaces(s, from, j) <= k < j ==> is_space(#[trigger] s[k]),
        drop_trailing_spaces(s, from, j) > from ==> !is_space(
            s[drop_trailing_spaces(s, from, j) - 1],
        ),
    decreases j - from,
{
    if from < j && is_space(s[j - 1]) {
        lemma_drop_trailing_spaces_bounds(s, from, j - 1);
    }
}

/// The index of a character is that of its first occurrence: it does not
/// stand before it.
pub proof fn lemma_char_index_bounds(s: Seq<char>, c: char, i: int, to: int)
    requires
        0 <= i <= to <= s.len(),
    ensures
        i <= char_index_from(s, c, i, to) <= to,
        forall|k: int| i <= k < char_index_from(s, c, i, to) ==> #[trigger] s[k] != c,
        char_index_from(s, c, i, to) < to ==> s[char_index_from(s, c, i, to)] == c,
    decreases to - i,
{
    if i < to && s[i] != c {
        lemma_char_index_bounds(s, c, i + 1, to);
    }
}

/// The part after the last occurrence of a character holds the character
/// nowhere, and is the whole where the character does not occur.
pub proof fn lemma_after_last_char_bounds(s: Seq<char>, c: char, from: int, j: int)
    requires
        0 <= from <= j <= s.len(),
    ensures
        from <= after_last_char(s, c, from, j) <= j,
        forall|k: int| after_last_char(s, c, from, j) <= k < j ==> #[trigger] s[k] != c,
        after_last_char(s, c, from, j) > from ==> s[after_last_char(s, c, from, j) - 1] == c,
    decreases j - from,
{
    if from < j && s[j - 1] != c {
        lemma_after_last_char_bounds(s, c, from, j - 1);
    }
}

/// `find_from` returns the least match at or after `i`, and a match exists
/// there exactly when it returns one.
pub proof fn lemma_find_from_is_least(hay: Seq<char>, needle: Seq<char>, i: int)
    requires
        0 <= i,
    ensures
        match find_from(hay, needle, i) {
            Some(k) => i <= k && matches_at(hay, needle, k) && forall|j: int|
                i <= j < k ==> !matches_at(hay, needle, j),
            None => forall|j: int| i <= j ==> !matches_at(hay, needle, j),
        },
    decreases hay.len() - i,
{
    if i + needle.len() <= hay.len() && !matches_at(hay, needle, i) {
        if i >= hay.len() {
            assert(hay.subrange(i, i + needle.len()) =~= needle);
        } else {
            lemma_find_from_is_least(hay, needle, i + 1);
        }
    }
}

/// Searching from the start finds a match exactly when one exists.
pub proof fn lemma_find_iff_contains(hay: Seq<char>, needle: Seq<char>)
    ensures
        find_from(hay, needle, 0) is Some <==> contains(hay, needle),
{
    lemma_find_from_is_least(hay, needle, 0);
    if contains(hay, needle) {
        let i = choose|i: int| matches_at(hay, needle, i);
        assert(matches_at(hay, needle, i));
    }
}

/// The characters of `s`, in order.
pub fn chars_of(s: &str) -> (v: Vec<char>)
    ensures
        v@ == s@,
{
    let mut v: Vec<char> = Vec::new();
    for c in it: s.chars()
        invariant
            v@ == it.seq().take(it.index()),
            it.seq() == s@,
    {
        v.push(c);
    }
    v
}

/// The characters `from..to` of `s`, as an owned string.
pub fn cut(s: &str, from: usize, to: usize) -> (out: String)
    requires
        from <= to <= s@.len(),
    ensures
        out@ == s@.subrange(from as int, to as int),
{
    s.substring_char(from, to).to_owned()
}

/// Whether `c` is white space.
pub fn is_space_char(c: char) -> (b: bool)
    ensures
        b == is_space(c),
{
    let n: u32 = c as u32;
    (0x9 <= n && n <= 0xd) || n == 0x20 || n == 0x85 || n == 0xa0 || n == 0x1680 || (0x2000 <= n
        && n <= 0x200a) || n == 0x2028 || n == 0x2029 || n == 0x202f || n == 0x205f || n == 0x3000
}

/// Whether `needle` stands in `hay` at index `i`.
pub fn matches_here(hay: &Vec<char>, needle: &Vec<char>, i: usize) -> (b: bool)
    ensures
        b == matches_at(hay@, needle@, i as int),
{
    if needle.len() > hay.len() || i > hay.len() - needle.len() {
        return false;
    }
    let mut k: usize = 0;
    while k < needle.len()
        invariant
            k <= needle.len(),
            i + needle.len() <= hay.len(),
            forall|m: int| 0 <= m < k ==> hay@[i + m] == needle@[m],
        decreases needle.len() - k,
    {
        if hay[i + k] != needle[k] {
            assert(hay@.subrange(i as int, i + needle.len())[k as int] != needle@[k as int]);
            return false;
        }
        k += 1;
    }
    assert(hay@.subrange(i as int, i + needle.len()) =~= needle@);
    true
}

/// The least index at or after `from` where `needle` occurs in `hay`.
pub fn find_in(hay: &Vec<char>, needle: &Vec<char>, from: usize) -> (r: Option<usize>)
    ensures
        r is Some <==> find_from(hay@, needle@, from as int) is Some,
        r matches Some(k) ==> find_from(hay@, needle@, from as int) == Some(k as int),
{
    if needle.len() > hay.len() || from > hay.len() - needle.len() {
        return None;
    }
    let last: usize = hay.len() - needle.len();
    let mut i: usize = from;
    loop
        invariant
            from <= i <= last,
            last == hay.len() - needle.len(),
            find_from(hay@, needle@, from as int) == find_from(hay@, needle@, i as int),
        decreases last - i,
    {
        if matches_here(hay, needle, i) {
            return Some(i);
        }
        if i == last {
            assert(find_from(hay@, needle@, i + 1) is None);
            return None;
        }
        i += 1;
    }
}

/// Whether `needle` occurs in `hay`.
pub fn has(hay: &Vec<char>, needle: &str) -> (b: bool)
    ensures
        b == contains(hay@, needle@),
{
    let n = chars_of(needle);
    proof {
        lemma_find_iff_contains(hay@, n@);
    }
    find_in(hay, &n, 0).is_some()
}

/// Whether `hay[from..]` begins with `needle`.
pub fn begins_at(hay: &Vec<char>, from: usize, needle: &str) -> (b: bool)
    ensures
        b == matches_at(hay@, needle@, from as int),
{
    let n = chars_of(needle);
    matches_here(hay, &n, from)
}

/// The least index in `[from, to)` that holds `c`, or `to`.
pub fn index_of_char(s: &Vec<char>, c: char, from: usize, to: usize) -> (r: usize)
    requires
        from <= to <= s.len(),
    ensures
        r == char_index_from(s@, c, from as int, to as int),
        from <= r <= to,
{
    let mut i: usize = from;
    while i < to
        invariant
            from <= i <= to <= s.len(),
            char_index_from(s@, c, from as int, to as int) == char_index_from(
                s@,
                c,
                i as int,
                to as int,
            ),
        decreases to - i,
    {
        if s[i] == c {
            return i;
        }
        i += 1;
    }
    to
}

/// Where the part of `s[from..to]` after its last `c` begins.
pub fn index_after_last_char(s: &Vec<char>, c: char, from: usize, to: usize) -> (r: usize)
    requires
        from <= to <= s.len(),
    ensures
        r == after_last_char(s@, c, from as int, to as int),
        from <= r <= to,
{
    let mut j: usize = to;
    while j > from
        invariant
            from <= j <= to <= s.len(),
            after_last_char(s@, c, from as int, to as int) == after_last_char(
                s@,
                c,
                from as int,
                j as int,
            ),
        decreases j - from,
    {
        if s[j - 1] == c {
            return j;
        }
        j -= 1;
    }
    from
}

/// The first index in `[from, to)` that holds no white space, or `to`.
pub fn skip_spaces_in(s: &Vec<char>, from: usize, to: usize) -> (r: usize)
    requires
        from <= to <= s.len(),
    ensures
        r == skip_spaces(s@, from as int, to as int),
        from <= r <= to,
{
    let mut i: usize = from;
    while i < to
        invariant
            from <= i <= to <= s.len(),
            skip_spaces(s@, from as int, to as int) == skip_spaces(s@, i as int, to as int),
        decreases to - i,
    {
        if !is_space_char(s[i]) {
            return i;
        }
        i += 1;
    }
    to
}

/// The end of `s[from..to]` once trailing white space is dropped.
pub fn drop_trailing_spaces_in(s: &Vec<char>, from: usize, to: usize) -> (r: usize)
    requires
        from <= to <= s.len(),
    ensures
        r == drop_trailing_spaces(s@, from as int, to as int),
        from <= r <= to,
{
    let mut j: usize = to;
    while j > from
        invariant
            from <= j <= to <= s.len(),
            drop_trailing_spaces(s@, from as int, to as int) == drop_trailing_spaces(
                s@,
                from as int,
                j as int,
            ),
        decreases j - from,
    {
        if !is_space_char(s[j - 1]) {
            return j;
        }
        j -= 1;
    }
    from
}

/// Whether `s[from..to]` is a run of ASCII digits, at least one.
pub fn is_number_in(s: &Vec<char>, from: usize, to: usize) -> (b: bool)
    requires
        from <= to <= s.len(),
    ensures
        b == is_number(s@.subrange(from as int, to as int)),
{
    if from == to {
        return false;
    }
    let ghost part = s@.subrange(from as int, to as int);
    let mut i: usize = from;
    while i < to
        invariant
            from <= i <= to <= s.len(),
            part == s@.subrange(from as int, to as int),
            forall|k: int| 0 <= k < i - from ==> is_digit(#[trigger] part[k]),
        decreases to - i,
    {
        let n: u32 = s[i] as u32;
        if !(n >= 0x30 && n <= 0x39) {
            assert(part[i - from] == s@[i as int]);
            return false;
        }
        assert(part[i - from] == s@[i as int]);
        i += 1;
    }
    true
}

/// Splits `s` into its lines.
pub fn split_lines(s: &str) -> (out: Vec<String>)
    ensures
        out.deep_view() == lines(s@),
{
    let cs = chars_of(s);
    let mut out: Vec<String> = Vec::new();
    let mut start: usize = 0;
    let mut i: usize = 0;
    while i < cs.len()
        invariant
            cs@ == s@,
            0 <= start <= i <= cs.len(),
            out.deep_view() + lines_scan(cs@, start as int, i as int) == lines(cs@),
        decreases cs.len() - i,
    {
        if cs[i] == '\n' {
            let end: usize = if i > start && cs[i - 1] == '\r' {
                i - 1
            } else {
                i
            };
            let ghost before = out.deep_view();
            let line = cut(s, start, end);
            out.push(line);
            assert(out.deep_view() =~= before.push(cs@.subrange(start as int, end as int)));
            assert(before + (seq![cs@.subrange(start as int, end as int)] + lines_scan(
                cs@,
                i + 1,
                i + 1,
            )) =~= before.push(cs@.subrange(start as int, end as int)) + lines_scan(
                cs@,
                i + 1,
                i + 1,
            ));
            start = i + 1;
        }
        i += 1;
    }
    if start < cs.len() {
        let ghost before = out.deep_view();
        let line = cut(s, start, cs.len());
        out.push(line);
        assert(out.deep_view() =~= before.push(cs@.subrange(start as int, cs.len() as int)));
        assert(before + seq![cs@.subrange(start as int, cs.len() as int)] =~= out.deep_view());
    } else {
        assert(out.deep_view() + Seq::<Seq<char>>::empty() =~= out.deep_view());
    }
    out
}

/// Whether `a` and `b` hold the same text.
pub fn same_text(a: &str, b: &str) -> (r: bool)
    ensures
        r == (a@ == b@),
{
    let x = chars_of(a);
    let y = chars_of(b);
    if x.len() != y.len() {
        return false;
    }
    let mut i: usize = 0;
    while i < x.len()
        invariant
            x@ == a@,
            y@ == b@,
            x.len() == y.len(),
            0 <= i <= x.len(),
            forall|k: int| 0 <= k < i ==> x@[k] == y@[k],
        decreases x.len() - i,
    {
        if x[i] != y[i] {
            assert(a@[i as int] != b@[i as int]);
            return false;
        }
        i += 1;
    }
    assert(x@ =~= y@);
    true
}

} // verus!
