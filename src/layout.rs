//! How a run of elements sits in bytes, and how a new file's bytes are
//! zeroed.
use crate::element::{zero_bytes, zero_elems, Element};
use vstd::arithmetic::mul::*;
use vstd::prelude::*;

verus! {

/// Size of the blocks in which a new file is zero-filled.
pub const ZERO_BLOCK: usize = 4096;

/// The `i`-th run of `T::width()` bytes in `bytes`.
pub open spec fn chunk<T: Element>(bytes: Seq<u8>, i: int) -> Seq<u8> {
    bytes.subrange(i * T::width(), i * T::width() + T::width())
}

/// The first `n` elements that `bytes` holds, one per run of `T::width()`
/// bytes.
pub open spec fn elems_of<T: Element>(bytes: Seq<u8>, n: nat) -> Seq<T> {
    Seq::new(n, |i: int| T::decode(chunk::<T>(bytes, i)))
}

/// `bytes` with the bytes from offset `at` on replaced by `src`.
pub open spec fn splice(bytes: Seq<u8>, at: int, src: Seq<u8>) -> Seq<u8> {
    bytes.subrange(0, at) + src + bytes.subrange(at + src.len(), bytes.len() as int)
}

/// Sum of a sequence of block sizes.
pub open spec fn total(s: Seq<usize>) -> int
    decreases s.len(),
{
    if s.len() == 0 {
        0
    } else {
        total(s.drop_last()) + s.last()
    }
}

pub proof fn lemma_chunk_bounds<T: Element>(i: int, n: int)
    requires
        0 <= i < n,
    ensures
        0 <= i * T::width(),
        i * T::width() + T::width() <= n * T::width(),
{
    lemma_mul_nonnegative(i, T::width() as int);
    lemma_mul_inequality(i + 1, n, T::width() as int);
    lemma_mul_is_distributive_add_other_way(T::width() as int, i, 1);
}

/// Writing the bytes of `v` over the run of element `i` changes element `i`
/// to `v` and leaves every other element as it was.
pub proof fn lemma_elems_splice<T: Element>(bytes: Seq<u8>, n: nat, i: int, v: T)
    requires
        bytes.len() == n * T::width(),
        0 <= i < n,
    ensures
        splice(bytes, i * T::width(), T::encode(v)).len() == bytes.len(),
        elems_of::<T>(splice(bytes, i * T::width(), T::encode(v)), n) == elems_of::<T>(
            bytes,
            n,
        ).update(i, v),
{
    let w = T::width() as int;
    let out = splice(bytes, i * w, T::encode(v));
    T::lemma_codec(v);
    lemma_chunk_bounds::<T>(i, n as int);
    assert(out.len() == bytes.len());
    assert forall|j: int| 0 <= j < n implies #[trigger] chunk::<T>(out, j) == if j == i {
        T::encode(v)
    } else {
        chunk::<T>(bytes, j)
    } by {
        lemma_chunk_bounds::<T>(j, n as int);
        if j < i {
            lemma_mul_inequality(j + 1, i, w);
            lemma_mul_is_distributive_add_other_way(w, j, 1);
            assert(chunk::<T>(out, j) =~= chunk::<T>(bytes, j));
        } else if j > i {
            lemma_mul_inequality(i + 1, j, w);
            lemma_mul_is_distributive_add_other_way(w, i, 1);
            assert(chunk::<T>(out, j) =~= chunk::<T>(bytes, j));
        } else {
            assert(chunk::<T>(out, j) =~= T::encode(v));
        }
    }
    assert(elems_of::<T>(out, n) =~= elems_of::<T>(bytes, n).update(i, v));
}

/// Each run of bytes is the encoding of the element it holds.
pub proof fn lemma_chunks_encode<T: Element>(bytes: Seq<u8>, n: nat)
    requires
        bytes.len() == n * T::width(),
    ensures
        forall|i: int|
            0 <= i < n ==> #[trigger] chunk::<T>(bytes, i) == T::encode(elems_of::<T>(bytes, n)[i]),
{
    assert forall|i: int| 0 <= i < n implies #[trigger] chunk::<T>(bytes, i) == T::encode(
        elems_of::<T>(bytes, n)[i],
    ) by {
        lemma_chunk_bounds::<T>(i, n as int);
        T::lemma_decode(chunk::<T>(bytes, i));
    }
}

/// All-zero bytes hold only zero elements.
pub proof fn lemma_elems_of_zero<T: Element>(n: nat)
    ensures
        elems_of::<T>(zero_bytes(n * T::width()), n) == zero_elems::<T>(n),
{
    assert forall|j: int| 0 <= j < n implies #[trigger] chunk::<T>(
        zero_bytes(n * T::width()),
        j,
    ) == zero_bytes(T::width()) by {
        lemma_chunk_bounds::<T>(j, n as int);
        assert(chunk::<T>(zero_bytes(n * T::width()), j) =~= zero_bytes(T::width()));
    }
    assert(elems_of::<T>(zero_bytes(n * T::width()), n) =~= zero_elems::<T>(n));
}

/// Bytes needed for `capacity` elements of `T`, or `None` when that does not
/// fit in `usize`.
pub fn capacity_bytes<T: Element>(capacity: usize) -> (r: Option<usize>)
    ensures
        r matches Some(b) ==> b == capacity * T::width(),
        r is None <==> capacity * T::width() > usize::MAX,
{
    capacity.checked_mul(T::byte_width())
}

/// The sizes of the blocks in which `byte_len` zero bytes are written: each
/// a full `ZERO_BLOCK` but the last, which holds the rest.
pub fn zero_fill_plan(byte_len: usize) -> (r: Vec<usize>)
    ensures
        total(r@) == byte_len,
        forall|k: int| 0 <= k < r@.len() ==> 0 < #[trigger] r@[k] <= ZERO_BLOCK,
        forall|k: int| 0 <= k < r@.len() - 1 ==> #[trigger] r@[k] == ZERO_BLOCK,
{
    let mut r: Vec<usize> = Vec::new();
    let mut left: usize = byte_len;
    while left > 0
        invariant
            total(r@) + left == byte_len,
            forall|k: int| 0 <= k < r@.len() ==> 0 < #[trigger] r@[k] <= ZERO_BLOCK,
            forall|k: int| 0 <= k < r@.len() - 1 ==> #[trigger] r@[k] == ZERO_BLOCK,
            r@.len() > 0 && r@.last() < ZERO_BLOCK ==> left == 0,
        decreases left,
    {
        let block: usize = if left < ZERO_BLOCK {
            left
        } else {
            ZERO_BLOCK
        };
        let ghost before = r@;
        r.push(block);
        assert(r@.drop_last() =~= before);
        left = left - block;
    }
    r
}

} // verus!
