//! The outside pieces a buffer is built from: a read-write memory mapping
//! and the slice-cast check of `bytemuck`.
use vstd::prelude::*;

verus! {

#[verifier::external_type_specification]
#[verifier::external_body]
pub struct ExMmapMut(memmap2::MmapMut);

#[verifier::external_type_specification]
#[verifier::external_body]
pub struct ExPodCastError(bytemuck::PodCastError);

/// The bytes that a mapping currently shows, in address order.
pub uninterp spec fn mapped_bytes(m: memmap2::MmapMut) -> Seq<u8>;

/// Relies on `<MmapMut as Deref>::deref`: the mapping as one byte slice.
#[verifier::external_body]
pub(crate) fn bytes_of_mapping(m: &memmap2::MmapMut) -> (r: &[u8])
    ensures
        r@ == mapped_bytes(*m),
{
    &m[..]
}

/// Relies on `<MmapMut as DerefMut>::deref_mut`: byte `i` becomes `b`, and
/// nothing else changes.
#[verifier::external_body]
pub(crate) fn store_byte(m: &mut memmap2::MmapMut, i: usize, b: u8)
    requires
        i < mapped_bytes(*old(m)).len(),
    ensures
        mapped_bytes(*final(m)) == mapped_bytes(*old(m)).update(i as int, b),
{
    m[i] = b;
}

/// Relies on `bytemuck::try_cast_slice::<u8, B>`: the cast succeeds only when
/// the byte length is a whole multiple of `size_of::<B>()`, and then yields
/// `len / size_of::<B>()` elements. It may also fail on a misaligned start,
/// which cannot happen when `B`'s alignment is 1.
#[verifier::external_body]
pub(crate) fn cast_count<B: bytemuck::Pod>(a: &[u8]) -> (r: Result<usize, bytemuck::PodCastError>)
    requires
        vstd::layout::size_of::<B>() > 0,
    ensures
        r matches Ok(n) ==> n * vstd::layout::size_of::<B>() == a@.len(),
        a@.len() % vstd::layout::size_of::<B>() != 0 ==> r is Err,
        vstd::layout::align_of::<B>() == 1 && a@.len() % vstd::layout::size_of::<B>() == 0 ==> r is Ok,
{
    bytemuck::try_cast_slice::<u8, B>(a).map(|s| s.len())
}

} // verus!
