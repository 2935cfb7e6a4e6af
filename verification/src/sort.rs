//! Stable ordering of request items.
//!
//! Several commands must serialise their items sorted by a protocol key
//! (data-type rank, then address) while remembering each item's place in
//! the caller's list, so that results can be handed back in caller order.
//! `sort_indices` therefore returns a permutation of the indices rather
//! than moving the items themselves.

use vstd::prelude::*;
use crate::device::{BlockedDeviceData, DeviceBlock, DeviceData, TypedDevice};
use crate::data::spec_type_order;

verus! {

/// Lexicographic order on the two-part sort key.
pub open spec fn spec_key_le(a: (int, int), b: (int, int)) -> bool {
    a.0 < b.0 || (a.0 == b.0 && a.1 <= b.1)
}

/// An item with a two-part protocol sort key.
pub trait SortKeyed {
    /// The sort key of the item.
    spec fn spec_key(&self) -> (int, int);

    /// Whether this item's key is at most the other's.
    fn key_le(&self, other: &Self) -> (r: bool)
        ensures
            r == spec_key_le(self.spec_key(), other.spec_key());
}

/// The sort keys of a sequence of items, position by position.
pub open spec fn spec_keys_of<T: SortKeyed>(items: Seq<T>) -> Seq<(int, int)> {
    Seq::new(items.len(), |i: int| items[i].spec_key())
}

/// Whether some position of `ord` holds the index `i`.
pub open spec fn spec_contains_index(ord: Seq<usize>, i: int) -> bool {
    exists|j: int| 0 <= j < ord.len() && (ord[j] as int) == i
}

/// `ord` enumerates every index of `keys` exactly once, in an order that
/// is sorted by key and stable: equal keys keep their original order.
pub open spec fn spec_is_sorted_permutation(keys: Seq<(int, int)>, ord: Seq<usize>) -> bool {
    &&& ord.len() == keys.len()
    &&& forall|j: int| 0 <= j < ord.len() ==> (#[trigger] ord[j]) < keys.len()
    &&& forall|i: int| 0 <= i < keys.len() ==> spec_contains_index(ord, i)
    &&& forall|j1: int, j2: int|
        0 <= j1 < j2 < ord.len() ==> spec_key_le(
            keys[#[trigger] ord[j1] as int],
            keys[#[trigger] ord[j2] as int],
        )
    &&& forall|j1: int, j2: int|
        0 <= j1 < j2 < ord.len() && keys[#[trigger] ord[j1] as int] == keys[#[trigger] ord[j2] as int] ==> ord[j1] < ord[j2]
}

/// In a sorted stable permutation no index occurs twice.
pub proof fn lemma_sorted_permutation_distinct(keys: Seq<(int, int)>, ord: Seq<usize>)
    requires
        spec_is_sorted_permutation(keys, ord),
    ensures
        forall|j1: int, j2: int|
            0 <= j1 < ord.len() && 0 <= j2 < ord.len() && j1 != j2 ==> #[trigger] ord[j1]
                != #[trigger] ord[j2],
{
    assert forall|j1: int, j2: int|
        0 <= j1 < ord.len() && 0 <= j2 < ord.len() && j1 != j2 implies #[trigger] ord[j1]
        != #[trigger] ord[j2] by {
        if ord[j1] == ord[j2] {
            if j1 < j2 {
                assert(keys[ord[j1] as int] == keys[ord[j2] as int]);
                assert(ord[j1] < ord[j2]);
            } else {
                assert(keys[ord[j2] as int] == keys[ord[j1] as int]);
                assert(ord[j2] < ord[j1]);
            }
        }
    }
}

/// Inserting a value into an index list keeps every index it already
/// enumerated, and adds the new one.
proof fn lemma_insert_keeps_indices(ord: Seq<usize>, p: int, x: usize, i: int)
    requires
        0 <= p <= ord.len(),
        spec_contains_index(ord, i) || (x as int) == i,
    ensures
        spec_contains_index(ord.insert(p, x), i),
{
    ord.insert_ensures(p, x);
    if (x as int) == i {
        assert(ord.insert(p, x)[p] == x);
    } else {
        let j = choose|j: int| 0 <= j < ord.len() && (ord[j] as int) == i;
        if j < p {
            assert(ord.insert(p, x)[j] == ord[j]);
        } else {
            assert(ord.insert(p, x)[j + 1] == ord[j]);
        }
    }
}

/// Whether the first key is at most the second, lexicographically, with
/// an unsigned rank and address.
fn lex_le(a0: u8, a1: usize, b0: u8, b1: usize) -> (r: bool)
    ensures
        r == spec_key_le((a0 as int, a1 as int), (b0 as int, b1 as int)),
{
    a0 < b0 || (a0 == b0 && a1 <= b1)
}

impl SortKeyed for TypedDevice {
    open spec fn spec_key(&self) -> (int, int) {
        (spec_type_order(self.data_type), self.device.address as int)
    }

    fn key_le(&self, other: &Self) -> (r: bool) {
        lex_le(
            self.data_type.type_order(),
            self.device.address,
            other.data_type.type_order(),
            other.device.address,
        )
    }
}

impl SortKeyed for DeviceData {
    open spec fn spec_key(&self) -> (int, int) {
        (spec_type_order(self.data.spec_get_type()), self.device.address as int)
    }

    fn key_le(&self, other: &Self) -> (r: bool) {
        lex_le(
            self.data.get_type().type_order(),
            self.device.address,
            other.data.get_type().type_order(),
            other.device.address,
        )
    }
}

impl SortKeyed for DeviceBlock {
    open spec fn spec_key(&self) -> (int, int) {
        (self.access_type.spec_order(), self.start_device.address as int)
    }

    fn key_le(&self, other: &Self) -> (r: bool) {
        lex_le(
            self.access_type.order(),
            self.start_device.address,
            other.access_type.order(),
            other.start_device.address,
        )
    }
}

impl SortKeyed for BlockedDeviceData {
    open spec fn spec_key(&self) -> (int, int) {
        (self.access_type.spec_order(), 0)
    }

    fn key_le(&self, other: &Self) -> (r: bool) {
        lex_le(self.access_type.order(), 0, other.access_type.order(), 0)
    }
}

/// Sort the indices of `items` by key, stably: the result lists every
/// index of `items` exactly once, ordered by the items' keys, equal keys
/// keeping their original order.
pub fn sort_indices<T: SortKeyed>(items: &Vec<T>) -> (r: Vec<usize>)
    ensures
        spec_is_sorted_permutation(spec_keys_of(items@), r@),
{
    let ghost keys = spec_keys_of(items@);
    let mut ord: Vec<usize> = Vec::new();
    let n = items.len();
    let mut i: usize = 0;
    while i < n
        invariant
            n == items@.len(),
            keys == spec_keys_of(items@),
            0 <= i <= n,
            ord@.len() == i,
            forall|j: int| 0 <= j < ord@.len() ==> (#[trigger] ord@[j]) < i,
            forall|k: int| 0 <= k < i ==> spec_contains_index(ord@, k),
            forall|j1: int, j2: int|
                0 <= j1 < j2 < ord@.len() ==> spec_key_le(
                    keys[#[trigger] ord@[j1] as int],
                    keys[#[trigger] ord@[j2] as int],
                ),
            forall|j1: int, j2: int|
                0 <= j1 < j2 < ord@.len() && keys[#[trigger] ord@[j1] as int] == keys[#[trigger] ord@[j2] as int] ==> ord@[j1] < ord@[j2],
        decreases n - i,
    {
        let mut p: usize = 0;
        while p < ord.len() && items[ord[p]].key_le(&items[i])
            invariant
                n == items@.len(),
                keys == spec_keys_of(items@),
                0 <= i < n,
                0 <= p <= ord@.len(),
                forall|j: int| 0 <= j < ord@.len() ==> (#[trigger] ord@[j]) < i,
                forall|q: int|
                    0 <= q < p ==> spec_key_le(
                        keys[#[trigger] ord@[q] as int],
                        keys[i as int],
                    ),
            decreases ord@.len() - p,
        {
            p = p + 1;
        }
        let ghost old_ord = ord@;
        ord.insert(p, i);
        proof {
            old_ord.insert_ensures(p as int, i as usize);
            assert forall|k: int| 0 <= k < i + 1 implies spec_contains_index(ord@, k) by {
                lemma_insert_keeps_indices(old_ord, p as int, i as usize, k);
            }
            assert forall|j1: int, j2: int| 0 <= j1 < j2 < ord@.len() implies spec_key_le(
                keys[#[trigger] ord@[j1] as int],
                keys[#[trigger] ord@[j2] as int],
            ) by {
                if j2 < p {
                } else if j1 < p && j2 == p {
                    assert(ord@[j1] == old_ord[j1]);
                } else if j1 < p && j2 > p {
                    assert(ord@[j1] == old_ord[j1]);
                    assert(ord@[j2] == old_ord[j2 - 1]);
                    if j2 - 1 >= p {
                        assert(!spec_key_le(keys[old_ord[p as int] as int], keys[i as int]));
                        assert(spec_key_le(keys[old_ord[j1] as int], keys[i as int]));
                        if j2 - 1 > p {
                            assert(spec_key_le(
                                keys[old_ord[p as int] as int],
                                keys[old_ord[j2 - 1] as int],
                            ));
                        }
                    }
                } else if j1 == p {
                    assert(ord@[j2] == old_ord[j2 - 1]);
                    assert(!spec_key_le(keys[old_ord[j2 - 1] as int], keys[i as int]));
                } else {
                    assert(ord@[j1] == old_ord[j1 - 1]);
                    assert(ord@[j2] == old_ord[j2 - 1]);
                }
            }
            assert forall|j1: int, j2: int|
                0 <= j1 < j2 < ord@.len() && keys[#[trigger] ord@[j1] as int] == keys[#[trigger] ord@[j2] as int] implies ord@[j1] < ord@[j2] by {
                if j2 < p {
                } else if j1 < p && j2 == p {
                    assert(ord@[j1] == old_ord[j1]);
                    assert((ord@[j1] as int) < i);
                } else if j1 < p && j2 > p {
                    assert(ord@[j1] == old_ord[j1]);
                    assert(ord@[j2] == old_ord[j2 - 1]);
                } else if j1 == p {
                    assert(ord@[j2] == old_ord[j2 - 1]);
                    assert(!spec_key_le(keys[old_ord[j2 - 1] as int], keys[i as int]));
                } else {
                    assert(ord@[j1] == old_ord[j1 - 1]);
                    assert(ord@[j2] == old_ord[j2 - 1]);
                }
            }
        }
        i = i + 1;
    }
    ord
}

/// Sum of `f` over the elements of a sequence.
pub open spec fn spec_count_by<A>(s: Seq<A>, f: spec_fn(A) -> int) -> int
    decreases s.len(),
{
    if s.len() == 0 {
        0
    } else {
        spec_count_by(s.drop_last(), f) + f(s.last())
    }
}

/// Removing one element subtracts exactly its contribution from the sum.
pub proof fn lemma_count_by_remove<A>(s: Seq<A>, j: int, f: spec_fn(A) -> int)
    requires
        0 <= j < s.len(),
    ensures
        spec_count_by(s.remove(j), f) == spec_count_by(s, f) - f(s[j]),
    decreases s.len(),
{
    if j == s.len() - 1 {
        assert(s.remove(j) =~= s.drop_last());
    } else {
        assert(s.remove(j).drop_last() =~= s.drop_last().remove(j));
        assert(s.remove(j).last() == s.last());
        lemma_count_by_remove(s.drop_last(), j, f);
    }
}

/// `ord` enumerates the indices `0..n` exactly once each.
pub open spec fn spec_is_permutation(n: int, ord: Seq<usize>) -> bool {
    &&& ord.len() == n
    &&& forall|j: int| 0 <= j < ord.len() ==> (#[trigger] ord[j]) < n
    &&& forall|i: int| 0 <= i < n ==> spec_contains_index(ord, i)
    &&& forall|j1: int, j2: int|
        0 <= j1 < ord.len() && 0 <= j2 < ord.len() && j1 != j2 ==> #[trigger] ord[j1]
            != #[trigger] ord[j2]
}

/// A sorted stable permutation is in particular a permutation.
pub proof fn lemma_sorted_permutation_is_permutation(keys: Seq<(int, int)>, ord: Seq<usize>)
    requires
        spec_is_sorted_permutation(keys, ord),
    ensures
        spec_is_permutation(keys.len() as int, ord),
{
    lemma_sorted_permutation_distinct(keys, ord);
}

/// Reordering a sequence by a permutation of its indices leaves the sum
/// of `f` over its elements unchanged.
pub proof fn lemma_count_by_permutation<A>(items: Seq<A>, ord: Seq<usize>, f: spec_fn(A) -> int)
    requires
        spec_is_permutation(items.len() as int, ord),
    ensures
        spec_count_by(Seq::new(ord.len(), |j: int| items[ord[j] as int]), f) == spec_count_by(
            items,
            f,
        ),
    decreases items.len(),
{
    let n = items.len() as int;
    let picked = Seq::new(ord.len(), |j: int| items[ord[j] as int]);
    if n > 0 {
        assert(spec_contains_index(ord, n - 1));
        let jstar = choose|j: int| 0 <= j < ord.len() && (ord[j] as int) == n - 1;
        let ord2 = ord.remove(jstar);
        ord.remove_ensures(jstar);
        let shorter = items.drop_last();
        assert(spec_is_permutation(n - 1, ord2)) by {
            assert forall|j: int| 0 <= j < ord2.len() implies (#[trigger] ord2[j]) < n - 1 by {
                if j < jstar {
                    assert(ord2[j] == ord[j]);
                    assert(j != jstar);
                } else {
                    assert(ord2[j] == ord[j + 1]);
                    assert(j + 1 != jstar);
                }
            }
            assert forall|i: int| 0 <= i < n - 1 implies spec_contains_index(ord2, i) by {
                assert(spec_contains_index(ord, i));
                let j = choose|j: int| 0 <= j < ord.len() && (ord[j] as int) == i;
                if j < jstar {
                    assert(ord2[j] == ord[j]);
                } else {
                    assert(j > jstar);
                    assert(ord2[j - 1] == ord[j]);
                }
            }
            assert forall|j1: int, j2: int|
                0 <= j1 < ord2.len() && 0 <= j2 < ord2.len() && j1 != j2 implies #[trigger] ord2[j1]
                != #[trigger] ord2[j2] by {
                let m1 = if j1 < jstar { j1 } else { j1 + 1 };
                let m2 = if j2 < jstar { j2 } else { j2 + 1 };
                assert(ord2[j1] == ord[m1]);
                assert(ord2[j2] == ord[m2]);
            }
        }
        let picked2 = Seq::new(ord2.len(), |j: int| shorter[ord2[j] as int]);
        assert(picked2 =~= picked.remove(jstar)) by {
            assert forall|j: int| 0 <= j < picked2.len() implies picked2[j] == picked.remove(
                jstar,
            )[j] by {
                picked.remove_ensures(jstar);
                if j < jstar {
                    assert(ord2[j] == ord[j]);
                } else {
                    assert(ord2[j] == ord[j + 1]);
                }
            }
        }
        lemma_count_by_remove(picked, jstar, f);
        lemma_count_by_permutation(shorter, ord2, f);
        assert(picked[jstar] == items[n - 1]);
        assert(spec_count_by(items, f) == spec_count_by(shorter, f) + f(items[n - 1]));
    } else {
        assert(picked =~= Seq::<A>::empty());
    }
}

} // verus!
