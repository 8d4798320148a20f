//! Laying records out as rows under a header.
//!
//! A record is a list of fields, each a key with its value. The header is
//! made of the keys of the first record, each once, in lexical order, so
//! that the same records always give the same columns. No records give no
//! rows at all, not even a header.

use vstd::prelude::*;
use vstd::string::StringExecFns;
use crate::text::{chars_of, same_text};

verus! {

/// The first index at or after `i` where `a` and `b` differ, or where the
/// shorter of them ends.
pub open spec fn first_difference(a: Seq<char>, b: Seq<char>, i: int) -> int
    decreases a.len() - i,
{
    if 0 <= i < a.len() && i < b.len() && a[i] == b[i] {
        first_difference(a, b, i + 1)
    } else {
        i
    }
}

/// `a` stands before `b` in lexical order: at the first place where they
/// differ `a` has the smaller character, or `a` ends there and `b` goes on.
pub open spec fn comes_before(a: Seq<char>, b: Seq<char>) -> bool {
    let k = first_difference(a, b, 0);
    if k < a.len() && k < b.len() {
        (a[k] as u32) < (b[k] as u32)
    } else {
        a.len() < b.len()
    }
}

/// Each of `keys` stands before the next in lexical order.
pub open spec fn is_sorted(keys: Seq<Seq<char>>) -> bool {
    forall|i: int| 0 <= i < keys.len() - 1 ==> comes_before(#[trigger] keys[i], keys[i + 1])
}

/// The keys of a record, in the order of its fields.
pub open spec fn keys_of(record: Seq<(String, String)>) -> Seq<Seq<char>> {
    Seq::new(record.len(), |i: int| record[i].0@)
}

/// `header` is the header for `record`: the record's keys in lexical order,
/// each once.
pub open spec fn is_header_of(record: Seq<(String, String)>, header: Seq<Seq<char>>) -> bool {
    &&& is_sorted(header)
    &&& forall|i: int| 0 <= i < record.len() ==> header.contains(#[trigger] keys_of(record)[i])
    &&& forall|j: int| 0 <= j < header.len() ==> keys_of(record).contains(#[trigger] header[j])
}

/// The index of the first of the first `n` fields of `record` whose key is
/// `key`, or `n`.
pub open spec fn field_index(record: Seq<(String, String)>, key: Seq<char>, n: int) -> int
    decreases n,
{
    if n <= 0 {
        0
    } else if field_index(record, key, n - 1) < n - 1 {
        field_index(record, key, n - 1)
    } else if record[n - 1].0@ == key {
        n - 1
    } else {
        n
    }
}

/// The value that `record` has under `key`: that of the first field with the
/// key, and the empty text where there is none.
pub open spec fn value_under(record: Seq<(String, String)>, key: Seq<char>) -> Seq<char> {
    let k = field_index(record, key, record.len() as int);
    if k < record.len() {
        record[k].1@
    } else {
        Seq::empty()
    }
}

/// The row of `record` under `header`: for each column the record's value
/// under the column's key.
pub open spec fn row_of(record: Seq<(String, String)>, header: Seq<Seq<char>>) -> Seq<Seq<char>> {
    Seq::new(header.len(), |j: int| value_under(record, header[j]))
}

/// `table` lays `records` out: nothing for no records; else the header for
/// the first record, and under it one row for each record, in order.
pub open spec fn is_table_of(records: Seq<Vec<(String, String)>>, table: Seq<Seq<Seq<char>>>) -> bool {
    if records.len() == 0 {
        table.len() == 0
    } else {
        &&& table.len() == records.len() + 1
        &&& is_header_of(records[0]@, table[0])
        &&& forall|r: int|
            0 <= r < records.len() ==> #[trigger] table[r + 1] == row_of(records[r]@, table[0])
    }
}

/// Where two texts first differ, they agree before, and differ there unless
/// one of them ends.
pub proof fn lemma_first_difference(a: Seq<char>, b: Seq<char>, i: int)
    requires
        0 <= i <= a.len(),
        i <= b.len(),
    ensures
        i <= first_difference(a, b, i) <= a.len(),
        first_difference(a, b, i) <= b.len(),
        forall|j: int| i <= j < first_difference(a, b, i) ==> a[j] == b[j],
        first_difference(a, b, i) < a.len() && first_difference(a, b, i) < b.len() ==> a[first_difference(
            a,
            b,
            i,
        )] != b[first_difference(a, b, i)],
    decreases a.len() - i,
{
    if i < a.len() && i < b.len() && a[i] == b[i] {
        lemma_first_difference(a, b, i + 1);
    }
}

/// Two texts first differ at the same place, whichever is taken first.
pub proof fn lemma_first_difference_both_ways(a: Seq<char>, b: Seq<char>, i: int)
    requires
        0 <= i <= a.len(),
        i <= b.len(),
    ensures
        first_difference(a, b, i) == first_difference(b, a, i),
    decreases a.len() - i,
{
    if i < a.len() && i < b.len() && a[i] == b[i] {
        lemma_first_difference_both_ways(a, b, i + 1);
    }
}

/// Of two different texts one stands before the other: texts of which
/// neither stands before the other are the same.
pub proof fn lemma_neither_before_means_same(a: Seq<char>, b: Seq<char>)
    requires
        !comes_before(a, b),
        !comes_before(b, a),
    ensures
        a == b,
{
    lemma_first_difference(a, b, 0);
    lemma_first_difference_both_ways(a, b, 0);
    let k = first_difference(a, b, 0);
    if k < a.len() && k < b.len() {
        vstd::utf8::char_u32_cast(a[k], a[k] as u32);
        vstd::utf8::char_u32_cast(b[k], b[k] as u32);
    } else {
        assert(a.len() == b.len());
        assert(a =~= b);
    }
}

/// No text stands before itself.
pub proof fn lemma_not_before_itself(a: Seq<char>)
    ensures
        !comes_before(a, a),
{
    lemma_first_difference(a, a, 0);
}

/// Whether `a` stands before `b` in lexical order.
pub fn text_before(a: &str, b: &str) -> (r: bool)
    ensures
        r == comes_before(a@, b@),
{
    let x = chars_of(a);
    let y = chars_of(b);
    let mut i: usize = 0;
    while i < x.len() && i < y.len()
        invariant
            x@ == a@,
            y@ == b@,
            0 <= i <= x.len(),
            i <= y.len(),
            first_difference(x@, y@, 0) == first_difference(x@, y@, i as int),
        decreases x.len() - i,
    {
        if x[i] != y[i] {
            let m: u32 = x[i] as u32;
            let n: u32 = y[i] as u32;
            return m < n;
        }
        i += 1;
    }
    x.len() < y.len()
}

/// Puts `key` into the sorted `keys`, unless it is there.
fn put_key(keys: &mut Vec<String>, key: &str)
    requires
        is_sorted(old(keys).deep_view()),
    ensures
        is_sorted(final(keys).deep_view()),
        final(keys).deep_view().contains(key@),
        forall|i: int|
            0 <= i < old(keys).len() ==> final(keys).deep_view().contains(
                #[trigger] old(keys).deep_view()[i],
            ),
        forall|j: int|
            0 <= j < final(keys).len() ==> #[trigger] final(keys).deep_view()[j] == key@ || old(
                keys,
            ).deep_view().contains(final(keys).deep_view()[j]),
{
    let ghost before = keys.deep_view();
    let mut p: usize = 0;
    while p < keys.len() && text_before(keys[p].as_str(), key)
        invariant
            0 <= p <= keys.len(),
            keys.deep_view() == before,
            forall|i: int| 0 <= i < p ==> comes_before(#[trigger] before[i], key@),
        decreases keys.len() - p,
    {
        p += 1;
    }
    if p < keys.len() && !text_before(key, keys[p].as_str()) {
        proof {
            lemma_neither_before_means_same(key@, before[p as int]);
            assert(before.contains(key@));
        }
        return ;
    }
    keys.insert(p, String::from_str(key));
    proof {
        let after = keys.deep_view();
        assert(after.len() == before.len() + 1);
        assert(after[p as int] == key@);
        assert forall|i: int| 0 <= i < p implies after[i] == before[i] by {}
        assert forall|i: int| p < i < after.len() implies after[i] == before[i - 1] by {}
        assert forall|i: int| 0 <= i < after.len() - 1 implies comes_before(
            #[trigger] after[i],
            after[i + 1],
        ) by {
            if i + 1 < p {
                assert(comes_before(before[i], before[i + 1]));
            } else if i + 1 == p {
                assert(comes_before(before[i], key@));
            } else if i == p {
                assert(comes_before(key@, before[p as int]));
            } else {
                assert(comes_before(before[i - 1], before[i]));
            }
        }
        assert forall|i: int| 0 <= i < before.len() implies after.contains(
            #[trigger] before[i],
        ) by {
            if i < p {
                assert(after[i] == before[i]);
            } else {
                assert(after[i + 1] == before[i]);
            }
        }
        assert forall|j: int| 0 <= j < after.len() implies #[trigger] after[j] == key@
            || before.contains(after[j]) by {
            if j < p {
                assert(before[j] == after[j]);
            } else if j > p {
                assert(before[j - 1] == after[j]);
            }
        }
    }
}

/// The header for `record`: its keys in lexical order, each once.
pub fn header_of(record: &Vec<(String, String)>) -> (header: Vec<String>)
    ensures
        is_header_of(record@, header.deep_view()),
{
    let mut header: Vec<String> = Vec::new();
    let mut i: usize = 0;
    while i < record.len()
        invariant
            0 <= i <= record.len(),
            is_sorted(header.deep_view()),
            forall|k: int| 0 <= k < i ==> header.deep_view().contains(#[trigger] keys_of(record@)[k]),
            forall|j: int|
                0 <= j < header.len() ==> keys_of(record@).contains(#[trigger] header.deep_view()[j]),
        decreases record.len() - i,
    {
        let ghost before = header.deep_view();
        put_key(&mut header, record[i].0.as_str());
        proof {
            let after = header.deep_view();
            assert(keys_of(record@)[i as int] == record@[i as int].0@);
            assert forall|k: int| 0 <= k < i + 1 implies after.contains(
                #[trigger] keys_of(record@)[k],
            ) by {
                if k < i {
                    let at = choose|at: int| 0 <= at < before.len() && before[at] == keys_of(record@)[k];
                    assert(after.contains(before[at]));
                }
            }
            assert forall|j: int| 0 <= j < after.len() implies keys_of(record@).contains(
                #[trigger] after[j],
            ) by {
                if after[j] != record@[i as int].0@ {
                    let at = choose|at: int| 0 <= at < before.len() && before[at] == after[j];
                    assert(keys_of(record@).contains(before[at]));
                }
            }
        }
        i += 1;
    }
    header
}

/// The value that `record` has under `key`.
pub fn value_of(record: &Vec<(String, String)>, key: &str) -> (value: String)
    ensures
        value@ == value_under(record@, key@),
{
    let mut i: usize = 0;
    while i < record.len()
        invariant
            0 <= i <= record.len(),
            field_index(record@, key@, i as int) == i,
        decreases record.len() - i,
    {
        if same_text(record[i].0.as_str(), key) {
            proof {
                lemma_field_index_stays(record@, key@, i as int, record.len() as int);
            }
            return record[i].1.clone();
        }
        i += 1;
    }
    String::new()
}

proof fn lemma_field_index_stays(record: Seq<(String, String)>, key: Seq<char>, k: int, n: int)
    requires
        0 <= k < n,
        field_index(record, key, k) == k,
        record[k].0@ == key,
    ensures
        field_index(record, key, n) == k,
    decreases n,
{
    if n > k + 1 {
        lemma_field_index_stays(record, key, k, n - 1);
    }
}

/// The row of `record` under `header`.
pub fn row_for(record: &Vec<(String, String)>, header: &Vec<String>) -> (row: Vec<String>)
    ensures
        row.deep_view() == row_of(record@, header.deep_view()),
{
    let mut row: Vec<String> = Vec::new();
    let mut j: usize = 0;
    while j < header.len()
        invariant
            0 <= j <= header.len(),
            row.len() == j,
            forall|c: int|
                0 <= c < j ==> #[trigger] row.deep_view()[c] == value_under(
                    record@,
                    header.deep_view()[c],
                ),
        decreases header.len() - j,
    {
        let ghost so_far = row.deep_view();
        let value = value_of(record, header[j].as_str());
        let ghost text = value@;
        row.push(value);
        proof {
            assert(header.deep_view()[j as int] == header@[j as int]@);
            assert(text == value_under(record@, header.deep_view()[j as int]));
            assert forall|c: int| 0 <= c < j + 1 implies #[trigger] row.deep_view()[c]
                == value_under(record@, header.deep_view()[c]) by {
                if c < j {
                    assert(row.deep_view()[c] == so_far[c]);
                } else {
                    assert(row.deep_view()[c] == text);
                }
            }
        }
        j += 1;
    }
    assert(row.deep_view() =~= row_of(record@, header.deep_view()));
    row
}

/// Lays `records` out as rows under a header. The header is the first row.
pub fn table_of(records: &Vec<Vec<(String, String)>>) -> (table: Vec<Vec<String>>)
    ensures
        is_table_of(records@, table.deep_view()),
{
    let mut table: Vec<Vec<String>> = Vec::new();
    if records.len() == 0 {
        return table;
    }
    let header = header_of(&records[0]);
    let ghost columns = header.deep_view();
    let mut rows: Vec<Vec<String>> = Vec::new();
    let mut r: usize = 0;
    while r < records.len()
        invariant
            0 <= r <= records.len(),
            columns == header.deep_view(),
            rows.len() == r,
            forall|k: int|
                0 <= k < r ==> #[trigger] rows.deep_view()[k] == row_of(records@[k]@, columns),
        decreases records.len() - r,
    {
        let ghost done = rows.deep_view();
        let row = row_for(&records[r], &header);
        let ghost cells = row.deep_view();
        rows.push(row);
        proof {
            assert forall|k: int| 0 <= k < r + 1 implies #[trigger] rows.deep_view()[k] == row_of(
                records@[k]@,
                columns,
            ) by {
                if k < r {
                    assert(rows.deep_view()[k] == done[k]);
                } else {
                    assert(rows.deep_view()[k] == cells);
                }
            }
        }
        r += 1;
    }
    table.push(header);
    let ghost laid = rows.deep_view();
    table.append(&mut rows);
    proof {
        let out = table.deep_view();
        assert(out.len() == records.len() + 1);
        assert(out[0] == columns);
        assert forall|k: int| 0 <= k < records.len() implies #[trigger] out[k + 1] == row_of(
            records@[k]@,
            out[0],
        ) by {
            assert(out[k + 1] == laid[k]);
        }
    }
    table
}

/// No records give no rows: not even a header.
pub proof fn lemma_no_records_no_rows(records: Seq<Vec<(String, String)>>, table: Seq<Seq<Seq<char>>>)
    requires
        records.len() == 0,
        is_table_of(records, table),
    ensures
        table.len() == 0,
{
}

} // verus!
