//! Sorting rows by an integer place.

use vstd::prelude::*;

use crate::common::{Counters, TenantKey};
use crate::table::{take_one_more, Ranked};

verus! {

/// Whole numbers can be the keys of std's ordered collections.
pub proof fn u64_keys_are_ordered()
    ensures
        vstd::laws_cmp::obeys_cmp::<u64>(),
{
    broadcast use vstd::laws_cmp::group_laws_cmp;

}

/// A row that has a place in an order; rows may share one.
pub trait Placed: Sized {
    spec fn place(self) -> int;

    fn goes_before(&self, other: &Self) -> (r: bool)
        ensures
            r == (self.place() < other.place()),
    ;
}

/// Whether the places of `rows` never descend.
pub open spec fn in_order<T: Placed>(rows: Seq<T>) -> bool {
    forall|i: int, j: int|
        0 <= i < j < rows.len() ==> (#[trigger] rows[i]).place() <= (#[trigger] rows[j]).place()
}

/// Merges rows that are in order with others that are.
fn merge_rows<T: Placed + Copy>(a: &[T], b: &[T]) -> (merged: Vec<T>)
    requires
        in_order(a@),
        in_order(b@),
    ensures
        in_order(merged@),
        merged@.to_multiset() == (a@ + b@).to_multiset(),
{
    let mut merged: Vec<T> = Vec::new();
    let mut i: usize = 0;
    let mut j: usize = 0;
    proof {
        assert(a@.take(0) =~= merged@);
        assert(b@.take(0) =~= merged@);
        merged@.to_multiset_ensures();
        assert(merged@.to_multiset() =~= a@.take(0).to_multiset().add(b@.take(0).to_multiset()));
    }
    while i < a.len() || j < b.len()
        invariant
            i <= a@.len(),
            j <= b@.len(),
            in_order(a@),
            in_order(b@),
            in_order(merged@),
            merged@.to_multiset() == a@.take(i as int).to_multiset().add(
                b@.take(j as int).to_multiset(),
            ),
            forall|m: int, k: int|
                0 <= m < merged@.len() && i <= k < a@.len() ==> (#[trigger] merged@[m]).place() <= (
                #[trigger] a@[k]).place(),
            forall|m: int, k: int|
                0 <= m < merged@.len() && j <= k < b@.len() ==> (#[trigger] merged@[m]).place() <= (
                #[trigger] b@[k]).place(),
        decreases a@.len() - i + b@.len() - j,
    {
        let from_b: bool = i == a.len() || j < b.len() && b[j].goes_before(&a[i]);
        if from_b {
            proof {
                take_one_more(b@, j as int);
                b@.take(j as int).to_multiset_ensures();
                merged@.to_multiset_ensures();
                assert(a@.take(i as int).to_multiset().add(
                    b@.take(j as int).to_multiset().insert(b@[j as int]),
                ) =~= merged@.to_multiset().insert(b@[j as int]));
            }
            merged.push(b[j]);
            j += 1;
        } else {
            proof {
                take_one_more(a@, i as int);
                a@.take(i as int).to_multiset_ensures();
                merged@.to_multiset_ensures();
                assert(a@.take(i as int).to_multiset().insert(a@[i as int]).add(
                    b@.take(j as int).to_multiset(),
                ) =~= merged@.to_multiset().insert(a@[i as int]));
            }
            merged.push(a[i]);
            i += 1;
        }
    }
    proof {
        assert(a@.take(i as int) =~= a@);
        assert(b@.take(j as int) =~= b@);
        vstd::seq_lib::lemma_multiset_commutative(a@, b@);
    }
    merged
}

/// Sorts `rows` by place.
pub fn sort_rows<T: Placed + Copy>(rows: &[T]) -> (sorted: Vec<T>)
    ensures
        in_order(sorted@),
        sorted@.to_multiset() == rows@.to_multiset(),
        sorted@.len() == rows@.len(),
    decreases rows@.len(),
{
    broadcast use vstd::seq_lib::group_to_multiset_ensures;

    let count: usize = rows.len();
    if count < 2 {
        let mut sorted: Vec<T> = Vec::new();
        if count == 1 {
            sorted.push(rows[0]);
        }
        assert(sorted@ =~= rows@);
        return sorted;
    }
    let middle: usize = count / 2;
    let head = vstd::slice::slice_subrange(rows, 0, middle);
    let tail = vstd::slice::slice_subrange(rows, middle, count);
    let first = sort_rows(head);
    let second = sort_rows(tail);
    let sorted = merge_rows(first.as_slice(), second.as_slice());
    proof {
        assert(head@ + tail@ =~= rows@);
        vstd::seq_lib::lemma_multiset_commutative(head@, tail@);
        vstd::seq_lib::lemma_multiset_commutative(first@, second@);
        assert(sorted@.to_multiset().len() == rows@.to_multiset().len());
    }
    sorted
}

impl Placed for (TenantKey, Counters) {
    /// Counters are listed by their key.
    open spec fn place(self) -> int {
        self.0.rank()
    }

    fn goes_before(&self, other: &Self) -> (r: bool) {
        self.0.precedes(&other.0)
    }
}

} // verus!
