//! A fixed-size run of elements stored in a read-write memory mapping.
use crate::element::{zero_bytes, zero_elems, zero_of, Element};
use crate::error::BufferError;
use crate::layout::{chunk, elems_of, lemma_chunks_encode, lemma_chunk_bounds, lemma_elems_of_zero, lemma_elems_splice, splice};
use crate::mapping::{bytes_of_mapping, mapped_bytes, store_byte};
use vstd::prelude::*;
use vstd::slice::slice_subrange;

verus! {

/// A fixed-size buffer of `T` whose bytes live in a memory mapping.
///
/// The model takes the mapped bytes to change only through this buffer: for
/// a mapping of a file, nothing else may write that file while the buffer
/// lives (an advisory lock binds only cooperating users).
///
/// `handle` is whatever keeps the mapping's source exclusive for the
/// buffer's life (an open, locked file); it is held and handed back, never
/// looked into.
pub struct BackedBuffer<T, H> {
    map: memmap2::MmapMut,
    count: usize,
    handle: H,
    elems: core::marker::PhantomData<T>,
}

/// Runs the slice-cast check on a mapping's bytes: the number of elements
/// they hold, or the check's refusal.
pub fn check_layout<T: Element>(map: &memmap2::MmapMut) -> (r: Result<
    usize,
    bytemuck::PodCastError,
>)
    ensures
        r matches Ok(n) ==> n * T::width() == mapped_bytes(*map).len(),
        mapped_bytes(*map).len() % T::width() != 0 ==> r is Err,
        T::byte_aligned() && mapped_bytes(*map).len() % T::width() == 0 ==> r is Ok,
        T::width() > 0,
{
    T::byte_width();
    T::layout_count(bytes_of_mapping(map))
}

/// A count the cast check gave for `len` bytes is `c` exactly when
/// `len == c * width`; a byte-aligned type is always counted.
proof fn lemma_same_count<T: Element>(checked: Result<usize, bytemuck::PodCastError>, c: nat, len: nat)
    requires
        checked matches Ok(n) ==> n * T::width() == len,
        T::byte_aligned() && len % T::width() == 0 ==> checked is Ok,
        T::width() > 0,
    ensures
        checked matches Ok(n) ==> (n == c <==> len == c * T::width()),
        T::byte_aligned() && len == c * T::width() ==> checked is Ok,
{
    let w = T::width() as int;
    if let Ok(n) = checked {
        if n != c {
            assert(n * w != c * w) by (nonlinear_arith)
                requires
                    n != c,
                    w > 0,
            ;
        }
    }
    if len == c * w {
        vstd::arithmetic::div_mod::lemma_mod_multiples_basic(c as int, w);
    }
}

impl<T: Element, H> BackedBuffer<T, H> {
    /// The mapped bytes.
    pub closed spec fn bytes(&self) -> Seq<u8> {
        mapped_bytes(self.map)
    }

    /// The elements, in order.
    pub closed spec fn view(&self) -> Seq<T> {
        elems_of::<T>(mapped_bytes(self.map), self.count as nat)
    }

    /// The value that keeps the mapping's source exclusive.
    pub closed spec fn spec_handle(&self) -> H {
        self.handle
    }

    /// The mapping holds exactly `count` elements' worth of bytes.
    pub closed spec fn wf(&self) -> bool {
        mapped_bytes(self.map).len() == self.count * T::width()
    }

    /// Views an existing mapping as elements, after the slice-cast check.
    ///
    /// Fails with `LayoutMismatch` when the mapping is not a whole number of
    /// elements, or the cast check refuses it; otherwise the elements are
    /// the decoding of the mapped bytes, unchanged.
    pub fn load(map: memmap2::MmapMut, handle: H) -> (r: Result<Self, BufferError>)
        ensures
            mapped_bytes(map).len() % T::width() != 0 ==> r == Err::<Self, BufferError>(
                BufferError::LayoutMismatch,
            ),
            T::byte_aligned() && mapped_bytes(map).len() % T::width() == 0 ==> r is Ok,
            r is Err ==> r == Err::<Self, BufferError>(BufferError::LayoutMismatch),
            r matches Ok(b) ==> {
                &&& b.wf()
                &&& b.bytes() == mapped_bytes(map)
                &&& b@.len() * T::width() == mapped_bytes(map).len()
                &&& b@ == elems_of::<T>(mapped_bytes(map), b@.len())
                &&& b.spec_handle() == handle
            },
    {
        let checked = check_layout::<T>(&map);
        Self::from_layout_check(map, handle, checked)
    }

    /// Views a mapping as elements, given what the slice-cast check said of
    /// its bytes: a buffer of `n` elements for `Ok(n)`, `LayoutMismatch` for
    /// any refusal.
    pub fn from_layout_check(
        map: memmap2::MmapMut,
        handle: H,
        checked: Result<usize, bytemuck::PodCastError>,
    ) -> (r: Result<Self, BufferError>)
        requires
            checked matches Ok(n) ==> n * T::width() == mapped_bytes(map).len(),
        ensures
            checked is Err ==> r == Err::<Self, BufferError>(BufferError::LayoutMismatch),
            checked matches Ok(n) ==> r matches Ok(b) && b.wf() && b.bytes() == mapped_bytes(map)
                && b@.len() == n && b@ == elems_of::<T>(mapped_bytes(map), n as nat)
                && b.spec_handle() == handle,
    {
        match checked {
            Ok(n) => Ok(BackedBuffer { map, count: n, handle, elems: core::marker::PhantomData }),
            Err(_) => Err(BufferError::LayoutMismatch),
        }
    }

    /// Makes a buffer of `capacity` zero elements over a mapping of exactly
    /// `capacity` elements' worth of bytes, writing zero over every byte.
    ///
    /// Fails with `LayoutMismatch` when the mapping's length is not that, or
    /// the cast check refuses it (which it never does for a byte-aligned
    /// element type).
    pub fn new(capacity: usize, map: memmap2::MmapMut, handle: H) -> (r: Result<
        Self,
        BufferError,
    >)
        ensures
            mapped_bytes(map).len() != capacity * T::width() ==> r == Err::<Self, BufferError>(
                BufferError::LayoutMismatch,
            ),
            T::byte_aligned() && mapped_bytes(map).len() == capacity * T::width() ==> r is Ok,
            r is Err ==> r == Err::<Self, BufferError>(BufferError::LayoutMismatch),
            r matches Ok(b) ==> {
                &&& b.wf()
                &&& b@ == zero_elems::<T>(capacity as nat)
                &&& b.bytes() == zero_bytes(capacity as nat * T::width())
                &&& b.spec_handle() == handle
            },
    {
        let checked = check_layout::<T>(&map);
        proof {
            lemma_same_count::<T>(checked, capacity as nat, mapped_bytes(map).len());
        }
        Self::new_from_layout_check(capacity, map, handle, checked)
    }

    /// `new`, given what the slice-cast check said of the mapping's bytes:
    /// a buffer of `capacity` zero elements exactly when the check counted
    /// `capacity` elements, `LayoutMismatch` otherwise.
    pub fn new_from_layout_check(
        capacity: usize,
        map: memmap2::MmapMut,
        handle: H,
        checked: Result<usize, bytemuck::PodCastError>,
    ) -> (r: Result<Self, BufferError>)
        requires
            checked matches Ok(n) ==> n * T::width() == mapped_bytes(map).len(),
        ensures
            checked is Err ==> r == Err::<Self, BufferError>(BufferError::LayoutMismatch),
            checked matches Ok(n) ==> (r is Ok <==> n == capacity),
            r is Err ==> r == Err::<Self, BufferError>(BufferError::LayoutMismatch),
            r matches Ok(b) ==> {
                &&& b.wf()
                &&& b@ == zero_elems::<T>(capacity as nat)
                &&& b.bytes() == zero_bytes(capacity as nat * T::width())
                &&& b.spec_handle() == handle
            },
    {
        let mut b = match Self::from_layout_check(map, handle, checked) {
            Ok(b) => b,
            Err(e) => return Err(e),
        };
        if b.count != capacity {
            return Err(BufferError::LayoutMismatch);
        }
        let zero: T = crate::element::zeroed::<T>();
        let mut i: usize = 0;
        while i < capacity
            invariant
                b.wf(),
                b@.len() == capacity,
                b.spec_handle() == handle,
                i <= capacity,
                forall|j: int| 0 <= j < i * T::width() ==> #[trigger] b.bytes()[j] == 0u8,
                zero == zero_of::<T>(),
            decreases capacity - i,
        {
            proof {
                T::lemma_decode(zero_bytes(T::width()));
                lemma_chunk_bounds::<T>(i as int, capacity as int);
                vstd::arithmetic::mul::lemma_mul_is_distributive_add_other_way(
                    T::width() as int,
                    i as int,
                    1,
                );
            }
            let ghost before = b.bytes();
            b.set(i, zero);
            assert forall|j: int| 0 <= j < (i + 1) * T::width() implies #[trigger] b.bytes()[j]
                == 0u8 by {
                if j >= i * T::width() {
                    assert(b.bytes()[j] == zero_bytes(T::width())[j - i * T::width()]);
                } else {
                    assert(b.bytes()[j] == before[j]);
                }
            }
            i = i + 1;
        }
        proof {
            assert(b.bytes() =~= zero_bytes(capacity as nat * T::width()));
            lemma_elems_of_zero::<T>(capacity as nat);
        }
        Ok(b)
    }

    /// Number of elements.
    pub fn len(&self) -> (r: usize)
        ensures
            r == self@.len(),
    {
        self.count
    }

    /// The element at `i`.
    pub fn get(&self, i: usize) -> (r: T)
        requires
            self.wf(),
            i < self@.len(),
        ensures
            r == self@[i as int],
    {
        let w = T::byte_width();
        proof {
            lemma_chunk_bounds::<T>(i as int, self.count as int);
        }
        let all = bytes_of_mapping(&self.map);
        // Its length, a `usize`, bounds the offsets below.
        let _total = all.len();
        let part = slice_subrange(all, i * w, i * w + w);
        T::read_from(part)
    }

    /// Sets the element at `i` to `v`; every other element stays.
    pub fn set(&mut self, i: usize, v: T)
        requires
            old(self).wf(),
            i < old(self)@.len(),
        ensures
            final(self).wf(),
            final(self)@ == old(self)@.update(i as int, v),
            final(self).bytes() == splice(old(self).bytes(), i * T::width(), T::encode(v)),
            final(self).spec_handle() == old(self).spec_handle(),
    {
        let w = T::byte_width();
        proof {
            lemma_chunk_bounds::<T>(i as int, self.count as int);
            T::lemma_codec(v);
            lemma_elems_splice::<T>(mapped_bytes(self.map), self.count as nat, i as int, v);
        }
        let total = bytes_of_mapping(&self.map).len();
        let src = T::bytes_of(v);
        let at = i * w;
        let ghost start = mapped_bytes(self.map);
        let mut k: usize = 0;
        while k < w
            invariant
                w == T::width(),
                src@ == T::encode(v),
                src@.len() == w,
                at + w <= start.len(),
                start.len() == total,
                start == mapped_bytes(old(self).map),
                self.count == old(self).count,
                self.handle == old(self).handle,
                k <= w,
                mapped_bytes(self.map) == splice(start, at as int, src@.subrange(0, k as int)),
            decreases w - k,
        {
            store_byte(&mut self.map, at + k, src[k]);
            k = k + 1;
            assert(mapped_bytes(self.map) =~= splice(start, at as int, src@.subrange(0, k as int)));
        }
        assert(src@.subrange(0, w as int) =~= src@);
    }

    /// Overwrites every element with the one at the same index of `src`.
    pub fn copy_from(&mut self, src: &[T])
        requires
            old(self).wf(),
            src@.len() == old(self)@.len(),
        ensures
            final(self).wf(),
            final(self)@ == src@,
            final(self).spec_handle() == old(self).spec_handle(),
    {
        let n = self.count;
        let mut i: usize = 0;
        while i < n
            invariant
                self.wf(),
                n == self@.len(),
                src@.len() == n,
                i <= n,
                self.spec_handle() == old(self).spec_handle(),
                forall|j: int| 0 <= j < i ==> #[trigger] self@[j] == src@[j],
            decreases n - i,
        {
            self.set(i, src[i]);
            i = i + 1;
        }
        assert(self@ =~= src@);
    }

    /// Makes a buffer over a mapping of exactly `src.len()` elements' worth
    /// of bytes, holding the elements of `src`.
    ///
    /// Fails with `LayoutMismatch` when the mapping's length is not that, or
    /// the cast check refuses it (which it never does for a byte-aligned
    /// element type): exactly when `new` would on the same mapping.
    pub fn copy_from_slice(src: &[T], map: memmap2::MmapMut, handle: H) -> (r: Result<
        Self,
        BufferError,
    >)
        ensures
            mapped_bytes(map).len() != src@.len() * T::width() ==> r == Err::<Self, BufferError>(
                BufferError::LayoutMismatch,
            ),
            T::byte_aligned() && mapped_bytes(map).len() == src@.len() * T::width() ==> r is Ok,
            r is Err ==> r == Err::<Self, BufferError>(BufferError::LayoutMismatch),
            r matches Ok(b) ==> {
                &&& b.wf()
                &&& b@ == src@
                &&& b.bytes().len() == src@.len() * T::width()
                &&& forall|i: int|
                    0 <= i < src@.len() ==> #[trigger] chunk::<T>(b.bytes(), i) == T::encode(src@[i])
                &&& b.spec_handle() == handle
            },
    {
        let checked = check_layout::<T>(&map);
        proof {
            lemma_same_count::<T>(checked, src@.len(), mapped_bytes(map).len());
        }
        Self::copy_from_slice_from_layout_check(src, map, handle, checked)
    }

    /// `copy_from_slice`, given what the slice-cast check said of the
    /// mapping's bytes: a buffer holding `src` exactly when the check counted
    /// `src.len()` elements, `LayoutMismatch` otherwise.
    pub fn copy_from_slice_from_layout_check(
        src: &[T],
        map: memmap2::MmapMut,
        handle: H,
        checked: Result<usize, bytemuck::PodCastError>,
    ) -> (r: Result<Self, BufferError>)
        requires
            checked matches Ok(n) ==> n * T::width() == mapped_bytes(map).len(),
        ensures
            checked is Err ==> r == Err::<Self, BufferError>(BufferError::LayoutMismatch),
            checked matches Ok(n) ==> (r is Ok <==> n == src@.len()),
            r is Err ==> r == Err::<Self, BufferError>(BufferError::LayoutMismatch),
            r matches Ok(b) ==> {
                &&& b.wf()
                &&& b@ == src@
                &&& b.bytes().len() == src@.len() * T::width()
                &&& forall|i: int|
                    0 <= i < src@.len() ==> #[trigger] chunk::<T>(b.bytes(), i) == T::encode(src@[i])
                &&& b.spec_handle() == handle
            },
    {
        let mut b = match Self::new_from_layout_check(src.len(), map, handle, checked) {
            Ok(b) => b,
            Err(e) => return Err(e),
        };
        b.copy_from(src);
        proof {
            lemma_chunks_encode::<T>(b.bytes(), src@.len());
        }
        Ok(b)
    }

    /// The elements, copied out in order.
    pub fn to_vec(&self) -> (r: Vec<T>)
        requires
            self.wf(),
        ensures
            r@ == self@,
    {
        let mut r: Vec<T> = Vec::new();
        let mut i: usize = 0;
        while i < self.count
            invariant
                self.wf(),
                i <= self@.len(),
                r@ == self@.subrange(0, i as int),
            decreases self@.len() - i,
        {
            r.push(self.get(i));
            i = i + 1;
            assert(r@ =~= self@.subrange(0, i as int));
        }
        assert(r@ =~= self@);
        r
    }

    /// Gives back the mapping and the handle.
    pub fn into_parts(self) -> (r: (memmap2::MmapMut, H))
        ensures
            mapped_bytes(r.0) == self.bytes(),
            r.1 == self.spec_handle(),
    {
        (self.map, self.handle)
    }

    /// The held handle.
    pub fn handle(&self) -> (r: &H)
        ensures
            *r == self.spec_handle(),
    {
        &self.handle
    }
}

} // verus!
