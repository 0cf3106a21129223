//! What holds of a buffer across several operations.
use crate::element::{zero_bytes, zero_elems, zero_of, Element};
use crate::layout::{elems_of, lemma_elems_of_zero, lemma_elems_splice, splice};
use vstd::prelude::*;

verus! {

/// Every write of `writes` names an index below `n`.
pub open spec fn writes_in_range<T>(writes: Seq<(int, T)>, n: nat) -> bool {
    forall|k: int| 0 <= k < writes.len() ==> 0 <= (#[trigger] writes[k]).0 < n
}

/// The elements after setting each `(index, value)` of `writes`, in order.
pub open spec fn apply_writes<T>(s: Seq<T>, writes: Seq<(int, T)>) -> Seq<T>
    decreases writes.len(),
{
    if writes.len() == 0 {
        s
    } else {
        apply_writes(s, writes.drop_last()).update(writes.last().0, writes.last().1)
    }
}

/// The bytes after writing each `(index, value)` of `writes`, in order, over
/// that element's run of bytes.
pub open spec fn apply_byte_writes<T: Element>(bytes: Seq<u8>, writes: Seq<(int, T)>) -> Seq<u8>
    decreases writes.len(),
{
    if writes.len() == 0 {
        bytes
    } else {
        splice(
            apply_byte_writes(bytes, writes.drop_last()),
            writes.last().0 * T::width(),
            T::encode(writes.last().1),
        )
    }
}

/// The same writes give the same elements on both storages: writing the
/// bytes of each value into a mapping and then reading the mapping back
/// gives what setting the values in a vector of the mapping's elements
/// gives.
pub proof fn lemma_variant_parity<T: Element>(bytes: Seq<u8>, n: nat, writes: Seq<(int, T)>)
    requires
        bytes.len() == n * T::width(),
        writes_in_range(writes, n),
    ensures
        apply_byte_writes(bytes, writes).len() == bytes.len(),
        elems_of::<T>(apply_byte_writes(bytes, writes), n) == apply_writes(
            elems_of::<T>(bytes, n),
            writes,
        ),
    decreases writes.len(),
{
    if writes.len() > 0 {
        let prev = writes.drop_last();
        assert(writes_in_range(prev, n)) by {
            assert forall|k: int| 0 <= k < prev.len() implies 0 <= (#[trigger] prev[k]).0 < n by {
                assert(prev[k] == writes[k]);
            }
        }
        lemma_variant_parity(bytes, n, prev);
        assert(0 <= writes[writes.len() - 1].0 < n);
        lemma_elems_splice::<T>(
            apply_byte_writes(bytes, prev),
            n,
            writes.last().0,
            writes.last().1,
        );
    }
}

/// After writes over a new (all-zero) buffer of `capacity` elements, its
/// bytes read back as: at each written index, the value last written there;
/// at every other index, zero.
pub proof fn lemma_round_trip<T: Element>(capacity: nat, writes: Seq<(int, T)>)
    requires
        writes_in_range(writes, capacity),
    ensures
        elems_of::<T>(apply_byte_writes(zero_bytes(capacity * T::width()), writes), capacity)
            == apply_writes(zero_elems::<T>(capacity), writes),
        forall|j: int|
            0 <= j < capacity && (forall|k: int| 0 <= k < writes.len() ==> (#[trigger] writes[k]).0
                != j) ==> #[trigger] apply_writes(
                zero_elems::<T>(capacity),
                writes,
            )[j] == zero_of::<T>(),
        forall|k: int, j: int|
            0 <= k < writes.len() && (#[trigger] writes[k]).0 == j && (forall|l: int|
                k < l < writes.len() ==> (#[trigger] writes[l]).0 != j) ==> #[trigger] apply_writes(
                zero_elems::<T>(capacity),
                writes,
            )[j] == writes[k].1,
{
    lemma_elems_of_zero::<T>(capacity);
    lemma_variant_parity::<T>(zero_bytes(capacity * T::width()), capacity, writes);
    lemma_apply_writes_at(zero_elems::<T>(capacity), writes);
}

/// What `apply_writes` leaves at each index.
proof fn lemma_apply_writes_at<T>(s: Seq<T>, writes: Seq<(int, T)>)
    requires
        writes_in_range(writes, s.len()),
    ensures
        apply_writes(s, writes).len() == s.len(),
        forall|j: int|
            0 <= j < s.len() && (forall|k: int| 0 <= k < writes.len() ==> (#[trigger] writes[k]).0
                != j) ==> #[trigger] apply_writes(s, writes)[j] == s[j],
        forall|k: int, j: int|
            0 <= k < writes.len() && (#[trigger] writes[k]).0 == j && (forall|l: int|
                k < l < writes.len() ==> (#[trigger] writes[l]).0 != j) ==> #[trigger] apply_writes(
                s,
                writes,
            )[j] == writes[k].1,
    decreases writes.len(),
{
    if writes.len() > 0 {
        let prev = writes.drop_last();
        let last = writes.len() - 1;
        assert(writes_in_range(prev, s.len())) by {
            assert forall|k: int| 0 <= k < prev.len() implies 0 <= (#[trigger] prev[k]).0
                < s.len() by {
                assert(prev[k] == writes[k]);
            }
        }
        lemma_apply_writes_at(s, prev);
        assert(0 <= writes[last].0 < s.len());
        assert forall|j: int|
            0 <= j < s.len() && (forall|k: int| 0 <= k < writes.len() ==> (#[trigger] writes[k]).0
                != j) implies #[trigger] apply_writes(s, writes)[j] == s[j] by {
            assert(writes[last].0 != j);
            assert forall|k: int| 0 <= k < prev.len() implies (#[trigger] prev[k]).0 != j by {
                assert(prev[k] == writes[k]);
            }
        }
        assert forall|k: int, j: int|
            0 <= k < writes.len() && (#[trigger] writes[k]).0 == j && (forall|l: int|
                k < l < writes.len() ==> (#[trigger] writes[l]).0 != j) implies #[trigger] apply_writes(
            s,
            writes,
        )[j] == writes[k].1 by {
            if k < last {
                assert(writes[last].0 != j);
                assert(prev[k] == writes[k]);
                assert forall|l: int| k < l < prev.len() implies (#[trigger] prev[l]).0 != j by {
                    assert(prev[l] == writes[l]);
                }
            }
        }
    }
}

} // verus!
