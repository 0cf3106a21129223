//! One buffer type over the two storages: a memory mapping or a vector.
use crate::backed::BackedBuffer;
use crate::element::{zero_elems, zero_of, zeroed, Element};
use crate::error::BufferError;
use vstd::prelude::*;

verus! {

/// A fixed-size buffer of `T`, kept in a mapping of a file or in memory.
///
/// The disk constructors succeed and fail exactly as the `BackedBuffer`
/// constructors they call; their contracts repeat those clauses.
///
/// Every read and write means the same on both storages; only persistence
/// and exclusivity differ.
pub enum Buffer<T, H> {
    /// Elements stored in a memory mapping.
    Disk(BackedBuffer<T, H>),
    /// Elements stored in a vector.
    Memory(Vec<T>),
}

impl<T: Element, H> Buffer<T, H> {
    /// The elements, in order.
    pub open spec fn view(&self) -> Seq<T> {
        match self {
            Buffer::Disk(b) => b@,
            Buffer::Memory(v) => v@,
        }
    }

    pub open spec fn wf(&self) -> bool {
        match self {
            Buffer::Disk(b) => b.wf(),
            Buffer::Memory(_) => true,
        }
    }

    /// A buffer of `capacity` zero elements over a mapping of exactly that
    /// many elements' worth of bytes; see `BackedBuffer::new`.
    pub fn new_on_disk(capacity: usize, map: memmap2::MmapMut, handle: H) -> (r: Result<
        Self,
        BufferError,
    >)
        ensures
            crate::mapping::mapped_bytes(map).len() != capacity * T::width() ==> r == Err::<
                Self,
                BufferError,
            >(BufferError::LayoutMismatch),
            T::byte_aligned() && crate::mapping::mapped_bytes(map).len() == capacity * T::width()
                ==> r is Ok,
            r is Err ==> r == Err::<Self, BufferError>(BufferError::LayoutMismatch),
            r matches Ok(b) ==> {
                &&& b.wf()
                &&& b is Disk
                &&& b@ == zero_elems::<T>(capacity as nat)
            },
    {
        match BackedBuffer::new(capacity, map, handle) {
            Ok(b) => Ok(Buffer::Disk(b)),
            Err(e) => Err(e),
        }
    }

    /// A buffer of `capacity` zero elements in memory.
    pub fn new_in_memory(capacity: usize) -> (r: Self)
        ensures
            r.wf(),
            r is Memory,
            r@ == zero_elems::<T>(capacity as nat),
    {
        let zero: T = zeroed::<T>();
        let mut v: Vec<T> = Vec::new();
        let mut i: usize = 0;
        while i < capacity
            invariant
                i <= capacity,
                zero == zero_of::<T>(),
                v@ == zero_elems::<T>(i as nat),
            decreases capacity - i,
        {
            v.push(zero);
            i = i + 1;
            assert(v@ =~= zero_elems::<T>(i as nat));
        }
        Buffer::Memory(v)
    }

    /// A buffer over an existing mapping; see `BackedBuffer::load`.
    pub fn load_from_disk(map: memmap2::MmapMut, handle: H) -> (r: Result<Self, BufferError>)
        ensures
            crate::mapping::mapped_bytes(map).len() % T::width() != 0 ==> r == Err::<
                Self,
                BufferError,
            >(BufferError::LayoutMismatch),
            T::byte_aligned() && crate::mapping::mapped_bytes(map).len() % T::width() == 0
                ==> r is Ok,
            r is Err ==> r == Err::<Self, BufferError>(BufferError::LayoutMismatch),
            r matches Ok(b) ==> {
                &&& b.wf()
                &&& b is Disk
                &&& b@.len() * T::width() == crate::mapping::mapped_bytes(map).len()
                &&& b@ == crate::layout::elems_of::<T>(
                    crate::mapping::mapped_bytes(map),
                    b@.len(),
                )
            },
    {
        match BackedBuffer::load(map, handle) {
            Ok(b) => Ok(Buffer::Disk(b)),
            Err(e) => Err(e),
        }
    }

    /// A buffer in memory holding `data`.
    pub fn from_vec_in_memory(data: Vec<T>) -> (r: Self)
        ensures
            r.wf(),
            r is Memory,
            r@ == data@,
    {
        Buffer::Memory(data)
    }

    /// A buffer over a mapping of exactly `data.len()` elements' worth of
    /// bytes, holding the elements of `data`; see
    /// `BackedBuffer::copy_from_slice`.
    pub fn from_slice_on_disk(data: &[T], map: memmap2::MmapMut, handle: H) -> (r: Result<
        Self,
        BufferError,
    >)
        ensures
            crate::mapping::mapped_bytes(map).len() != data@.len() * T::width() ==> r == Err::<
                Self,
                BufferError,
            >(BufferError::LayoutMismatch),
            T::byte_aligned() && crate::mapping::mapped_bytes(map).len() == data@.len()
                * T::width() ==> r is Ok,
            r is Err ==> r == Err::<Self, BufferError>(BufferError::LayoutMismatch),
            r matches Ok(b) ==> {
                &&& b.wf()
                &&& b is Disk
                &&& b@ == data@
            },
    {
        match BackedBuffer::copy_from_slice(data, map, handle) {
            Ok(b) => Ok(Buffer::Disk(b)),
            Err(e) => Err(e),
        }
    }

    /// Number of elements.
    pub fn len(&self) -> (r: usize)
        ensures
            r == self@.len(),
    {
        match self {
            Buffer::Disk(b) => b.len(),
            Buffer::Memory(v) => v.len(),
        }
    }

    /// The element at `i`.
    pub fn get(&self, i: usize) -> (r: T)
        requires
            self.wf(),
            i < self@.len(),
        ensures
            r == self@[i as int],
    {
        match self {
            Buffer::Disk(b) => b.get(i),
            Buffer::Memory(v) => v[i],
        }
    }

    /// Sets the element at `i` to `v`; every other element stays.
    pub fn set(&mut self, i: usize, v: T)
        requires
            old(self).wf(),
            i < old(self)@.len(),
        ensures
            final(self).wf(),
            final(self)@ == old(self)@.update(i as int, v),
            (*final(self) is Disk) == (*old(self) is Disk),
    {
        match self {
            Buffer::Disk(b) => b.set(i, v),
            Buffer::Memory(data) => data.set(i, v),
        }
    }

    /// Overwrites every element with the one at the same index of `src`.
    pub fn copy_from(&mut self, src: &[T])
        requires
            old(self).wf(),
            src@.len() == old(self)@.len(),
        ensures
            final(self).wf(),
            final(self)@ == src@,
            (*final(self) is Disk) == (*old(self) is Disk),
    {
        match self {
            Buffer::Disk(b) => b.copy_from(src),
            Buffer::Memory(data) => {
                let n = data.len();
                let mut i: usize = 0;
                while i < n
                    invariant
                        n == data@.len(),
                        src@.len() == n,
                        i <= n,
                        forall|j: int| 0 <= j < i ==> #[trigger] data@[j] == src@[j],
                    decreases n - i,
                {
                    data.set(i, src[i]);
                    i = i + 1;
                }
                assert(data@ =~= src@);
            },
        }
    }

    /// The elements, copied out in order.
    pub fn to_vec(&self) -> (r: Vec<T>)
        requires
            self.wf(),
        ensures
            r@ == self@,
    {
        match self {
            Buffer::Disk(b) => b.to_vec(),
            Buffer::Memory(v) => {
                let mut r: Vec<T> = Vec::new();
                let mut i: usize = 0;
                while i < v.len()
                    invariant
                        i <= v@.len(),
                        r@ == v@.subrange(0, i as int),
                    decreases v@.len() - i,
                {
                    r.push(v[i]);
                    i = i + 1;
                    assert(r@ =~= v@.subrange(0, i as int));
                }
                assert(r@ =~= v@);
                r
            },
        }
    }
}

} // verus!
