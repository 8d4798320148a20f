//! Adding up a sequence of whole numbers.
//!
//! The items are added from the left, beginning with zero. The sum is there
//! exactly where every total on the way fits the items' type; where one does
//! not, there is no sum.

use vstd::prelude::*;
use crate::fluent::Lob;

verus! {

/// A type of whole numbers that can be added up.
pub trait Number: Copy + Sized {
    /// The number that a value stands for.
    spec fn value(self) -> int;

    /// Whether the type has a value for `v`.
    spec fn fits(v: int) -> bool;

    /// Every value stands for a number that fits.
    proof fn lemma_value_fits(self)
        ensures
            Self::fits(self.value()),
    ;

    /// The value that stands for zero.
    fn zero() -> (z: Self)
        ensures
            z.value() == 0,
            Self::fits(0),
    ;

    /// The sum of two values, where the type has a value for it.
    fn add_checked(self, other: Self) -> (r: Option<Self>)
        ensures
            match r {
                Some(s) => Self::fits(self.value() + other.value()) && s.value() == self.value()
                    + other.value(),
                None => !Self::fits(self.value() + other.value()),
            },
    ;
}

impl Number for i32 {
    open spec fn value(self) -> int {
        self as int
    }

    open spec fn fits(v: int) -> bool {
        i32::MIN <= v <= i32::MAX
    }

    proof fn lemma_value_fits(self) {
    }

    fn zero() -> (z: i32) {
        0
    }

    fn add_checked(self, other: i32) -> (r: Option<i32>) {
        self.checked_add(other)
    }
}

impl Number for i64 {
    open spec fn value(self) -> int {
        self as int
    }

    open spec fn fits(v: int) -> bool {
        i64::MIN <= v <= i64::MAX
    }

    proof fn lemma_value_fits(self) {
    }

    fn zero() -> (z: i64) {
        0
    }

    fn add_checked(self, other: i64) -> (r: Option<i64>) {
        self.checked_add(other)
    }
}

impl Number for isize {
    open spec fn value(self) -> int {
        self as int
    }

    open spec fn fits(v: int) -> bool {
        isize::MIN <= v <= isize::MAX
    }

    proof fn lemma_value_fits(self) {
    }

    fn zero() -> (z: isize) {
        0
    }

    fn add_checked(self, other: isize) -> (r: Option<isize>) {
        self.checked_add(other)
    }
}

impl Number for u32 {
    open spec fn value(self) -> int {
        self as int
    }

    open spec fn fits(v: int) -> bool {
        0 <= v <= u32::MAX
    }

    proof fn lemma_value_fits(self) {
    }

    fn zero() -> (z: u32) {
        0
    }

    fn add_checked(self, other: u32) -> (r: Option<u32>) {
        self.checked_add(other)
    }
}

impl Number for u64 {
    open spec fn value(self) -> int {
        self as int
    }

    open spec fn fits(v: int) -> bool {
        0 <= v <= u64::MAX
    }

    proof fn lemma_value_fits(self) {
    }

    fn zero() -> (z: u64) {
        0
    }

    fn add_checked(self, other: u64) -> (r: Option<u64>) {
        self.checked_add(other)
    }
}

impl Number for usize {
    open spec fn value(self) -> int {
        self as int
    }

    open spec fn fits(v: int) -> bool {
        0 <= v <= usize::MAX
    }

    proof fn lemma_value_fits(self) {
    }

    fn zero() -> (z: usize) {
        0
    }

    fn add_checked(self, other: usize) -> (r: Option<usize>) {
        self.checked_add(other)
    }
}

/// What the first `n` items add up to.
pub open spec fn running_total<T: Number>(items: Seq<T>, n: int) -> int
    decreases n,
{
    if n <= 0 {
        0
    } else {
        running_total(items, n - 1) + items[n - 1].value()
    }
}

/// Every total on the way through the first `n` items fits the items' type.
pub open spec fn totals_fit<T: Number>(items: Seq<T>, n: int) -> bool {
    forall|k: int| 0 <= k <= n ==> T::fits(#[trigger] running_total(items, k))
}

/// `r` is the sum of `items`: their total where every total on the way fits
/// the items' type, and nothing where one does not.
pub open spec fn is_sum_of<T: Number>(items: Seq<T>, r: Option<T>) -> bool {
    match r {
        Some(s) => totals_fit(items, items.len() as int) && s.value() == running_total(
            items,
            items.len() as int,
        ),
        None => !totals_fit(items, items.len() as int),
    }
}

impl<T: Number> Lob<T> {
    /// Adds the items up from the left, beginning with zero. There is no
    /// sum where a total on the way does not fit the items' type.
    pub fn checked_sum(self) -> (r: Option<T>)
        ensures
            is_sum_of(self@, r),
    {
        let items = self.to_list();
        let mut sum: T = T::zero();
        let mut i: usize = 0;
        while i < items.len()
            invariant
                0 <= i <= items.len(),
                items@ == self@,
                sum.value() == running_total(items@, i as int),
                totals_fit(items@, i as int),
            decreases items.len() - i,
        {
            match sum.add_checked(items[i]) {
                Some(next) => {
                    sum = next;
                    assert(totals_fit(items@, i + 1)) by {
                        assert(T::fits(running_total(items@, i + 1)));
                    }
                },
                None => {
                    assert(!T::fits(running_total(items@, i + 1)));
                    return None;
                },
            }
            i += 1;
        }
        Some(sum)
    }
}

/// No items add up to zero.
pub proof fn lemma_empty_sum_is_zero<T: Number>(items: Seq<T>)
    requires
        items.len() == 0,
    ensures
        running_total(items, items.len() as int) == 0,
{
}

} // verus!
