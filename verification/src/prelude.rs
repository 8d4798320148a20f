//! What a generated program starts from.

use vstd::prelude::*;
use crate::fluent::Lob;

verus! {

/// A `Lob` over `items`.
pub fn lob<T>(items: Vec<T>) -> (out: Lob<T>)
    ensures
        out@ == items@,
{
    Lob::new(items)
}

/// The whole numbers from `start` up to, and without, `end`.
pub open spec fn range_of(start: int, end: int) -> Seq<i64> {
    Seq::new(
        if start <= end {
            (end - start) as nat
        } else {
            0
        },
        |i: int| (start + i) as i64,
    )
}

/// A `Lob` over the whole numbers from `start` up to, and without, `end`.
pub fn range(start: i64, end: i64) -> (out: Lob<i64>)
    ensures
        out@ == range_of(start as int, end as int),
{
    let mut items: Vec<i64> = Vec::new();
    let mut next: i64 = start;
    while next < end
        invariant
            start <= next <= end || (next == start && start > end),
            items@ == range_of(start as int, next as int),
        decreases end - next,
    {
        items.push(next);
        assert(items@ =~= range_of(start as int, next + 1));
        next += 1;
    }
    assert(items@ =~= range_of(start as int, end as int));
    Lob::new(items)
}

} // verus!
