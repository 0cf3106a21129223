//! Plain-data element types: fixed width, and a value for every byte pattern
//! of that width.
use vstd::bytes::*;
use vstd::prelude::*;

verus! {

broadcast use vstd::layout::layout_of_primitives;

/// A fixed-width value that every byte pattern of its width encodes.
///
/// `decode` reads `width()` bytes in little-endian order; `encode` is its
/// inverse on values. The stored layout is thus little-endian on every
/// target; it is the native in-memory layout only on little-endian targets.
pub trait Element: Copy + Sized {
    /// Number of bytes an element occupies.
    spec fn width() -> nat;

    /// The value that `width()` bytes stand for.
    spec fn decode(b: Seq<u8>) -> Self;

    /// The `width()` bytes that stand for `v`.
    spec fn encode(v: Self) -> Seq<u8>;

    /// `width()`, as a `usize`.
    fn byte_width() -> (r: usize)
        ensures
            r as nat == Self::width(),
            0 < r <= 8,
    ;

    /// Whether an element may start at any address (its alignment is 1).
    spec fn byte_aligned() -> bool;

    /// Decodes one element from exactly `width()` bytes.
    fn read_from(b: &[u8]) -> (r: Self)
        requires
            b@.len() == Self::width(),
        ensures
            r == Self::decode(b@),
    ;

    /// Encodes one element.
    fn bytes_of(v: Self) -> (r: Vec<u8>)
        ensures
            r@ == Self::encode(v),
    ;

    /// Counts the elements in `b` through the slice-cast check, which fails
    /// on a length that is not a whole number of elements.
    fn layout_count(b: &[u8]) -> (r: Result<usize, bytemuck::PodCastError>)
        ensures
            r matches Ok(n) ==> n * Self::width() == b@.len(),
            b@.len() % Self::width() != 0 ==> r is Err,
            Self::byte_aligned() && b@.len() % Self::width() == 0 ==> r is Ok,
    ;

    /// Encoding gives `width()` bytes, and decoding them gives `v` back.
    proof fn lemma_codec(v: Self)
        ensures
            Self::encode(v).len() == Self::width(),
            Self::decode(Self::encode(v)) == v,
    ;

    /// Every run of `width()` bytes is the encoding of what it decodes to.
    proof fn lemma_decode(b: Seq<u8>)
        requires
            b.len() == Self::width(),
        ensures
            Self::encode(Self::decode(b)) == b,
    ;
}

/// `n` zero bytes.
pub open spec fn zero_bytes(n: nat) -> Seq<u8> {
    Seq::new(n, |_i: int| 0u8)
}

/// The value whose bytes are all zero.
pub open spec fn zero_of<T: Element>() -> T {
    T::decode(zero_bytes(T::width()))
}

/// `n` zero elements.
pub open spec fn zero_elems<T: Element>(n: nat) -> Seq<T> {
    Seq::new(n, |_i: int| zero_of::<T>())
}

/// The value whose bytes are all zero.
pub fn zeroed<T: Element>() -> (r: T)
    ensures
        r == zero_of::<T>(),
{
    let w = T::byte_width();
    let mut z: Vec<u8> = Vec::new();
    while z.len() < w
        invariant
            z.len() <= w,
            w == T::width(),
            forall|i: int| 0 <= i < z@.len() ==> z@[i] == 0u8,
        decreases w - z.len(),
    {
        z.push(0u8);
    }
    assert(z@ =~= zero_bytes(T::width()));
    T::read_from(z.as_slice())
}

impl Element for u8 {
    open spec fn byte_aligned() -> bool {
        true
    }

    open spec fn width() -> nat {
        1
    }

    open spec fn decode(b: Seq<u8>) -> u8 {
        b[0]
    }

    open spec fn encode(v: u8) -> Seq<u8> {
        seq![v]
    }

    /// `width()`, as a `usize`.
    fn byte_width() -> (r: usize) {
        1
    }

    fn read_from(b: &[u8]) -> (r: u8) {
        b[0]
    }

    fn bytes_of(v: u8) -> (r: Vec<u8>) {
        let mut r: Vec<u8> = Vec::new();
        r.push(v);
        assert(r@ =~= seq![v]);
        r
    }

    fn layout_count(b: &[u8]) -> (r: Result<usize, bytemuck::PodCastError>) {
        broadcast use vstd::layout::align_of_u8;

        crate::mapping::cast_count::<u8>(b)
    }

    proof fn lemma_codec(v: u8) {
    }

    proof fn lemma_decode(b: Seq<u8>) {
        assert(seq![b[0]] =~= b);
    }
}

impl Element for u16 {
    open spec fn byte_aligned() -> bool {
        false
    }

    open spec fn width() -> nat {
        2
    }

    open spec fn decode(b: Seq<u8>) -> u16 {
        spec_u16_from_le_bytes(b)
    }

    open spec fn encode(v: u16) -> Seq<u8> {
        spec_u16_to_le_bytes(v)
    }

    /// `width()`, as a `usize`.
    fn byte_width() -> (r: usize) {
        2
    }

    fn read_from(b: &[u8]) -> (r: u16) {
        u16_from_le_bytes(b)
    }

    fn bytes_of(v: u16) -> (r: Vec<u8>) {
        u16_to_le_bytes(v)
    }

    fn layout_count(b: &[u8]) -> (r: Result<usize, bytemuck::PodCastError>) {
        crate::mapping::cast_count::<u16>(b)
    }

    proof fn lemma_codec(v: u16) {
        lemma_auto_spec_u16_to_from_le_bytes();
        assert(spec_u16_to_le_bytes(v).len() == 2);
    }

    proof fn lemma_decode(b: Seq<u8>) {
        lemma_auto_spec_u16_to_from_le_bytes();
    }
}

impl Element for u32 {
    open spec fn byte_aligned() -> bool {
        false
    }

    open spec fn width() -> nat {
        4
    }

    open spec fn decode(b: Seq<u8>) -> u32 {
        spec_u32_from_le_bytes(b)
    }

    open spec fn encode(v: u32) -> Seq<u8> {
        spec_u32_to_le_bytes(v)
    }

    /// `width()`, as a `usize`.
    fn byte_width() -> (r: usize) {
        4
    }

    fn read_from(b: &[u8]) -> (r: u32) {
        u32_from_le_bytes(b)
    }

    fn bytes_of(v: u32) -> (r: Vec<u8>) {
        u32_to_le_bytes(v)
    }

    fn layout_count(b: &[u8]) -> (r: Result<usize, bytemuck::PodCastError>) {
        crate::mapping::cast_count::<u32>(b)
    }

    proof fn lemma_codec(v: u32) {
        lemma_auto_spec_u32_to_from_le_bytes();
        assert(spec_u32_to_le_bytes(v).len() == 4);
    }

    proof fn lemma_decode(b: Seq<u8>) {
        lemma_auto_spec_u32_to_from_le_bytes();
    }
}

impl Element for u64 {
    open spec fn byte_aligned() -> bool {
        false
    }

    open spec fn width() -> nat {
        8
    }

    open spec fn decode(b: Seq<u8>) -> u64 {
        spec_u64_from_le_bytes(b)
    }

    open spec fn encode(v: u64) -> Seq<u8> {
        spec_u64_to_le_bytes(v)
    }

    /// `width()`, as a `usize`.
    fn byte_width() -> (r: usize) {
        8
    }

    fn read_from(b: &[u8]) -> (r: u64) {
        u64_from_le_bytes(b)
    }

    fn bytes_of(v: u64) -> (r: Vec<u8>) {
        u64_to_le_bytes(v)
    }

    fn layout_count(b: &[u8]) -> (r: Result<usize, bytemuck::PodCastError>) {
        crate::mapping::cast_count::<u64>(b)
    }

    proof fn lemma_codec(v: u64) {
        lemma_auto_spec_u64_to_from_le_bytes();
    }

    proof fn lemma_decode(b: Seq<u8>) {
        lemma_auto_spec_u64_to_from_le_bytes();
    }
}

impl Element for i32 {
    open spec fn byte_aligned() -> bool {
        false
    }

    open spec fn width() -> nat {
        4
    }

    open spec fn decode(b: Seq<u8>) -> i32 {
        spec_u32_from_le_bytes(b) as i32
    }

    open spec fn encode(v: i32) -> Seq<u8> {
        spec_u32_to_le_bytes(v as u32)
    }

    /// `width()`, as a `usize`.
    fn byte_width() -> (r: usize) {
        4
    }

    fn read_from(b: &[u8]) -> (r: i32) {
        u32_from_le_bytes(b) as i32
    }

    fn bytes_of(v: i32) -> (r: Vec<u8>) {
        u32_to_le_bytes(v as u32)
    }

    fn layout_count(b: &[u8]) -> (r: Result<usize, bytemuck::PodCastError>) {
        crate::mapping::cast_count::<i32>(b)
    }

    proof fn lemma_codec(v: i32) {
        lemma_auto_spec_u32_to_from_le_bytes();
        assert(spec_u32_to_le_bytes(v as u32).len() == 4);
        assert((v as u32) as i32 == v) by (bit_vector);
    }

    proof fn lemma_decode(b: Seq<u8>) {
        lemma_auto_spec_u32_to_from_le_bytes();
        let x = spec_u32_from_le_bytes(b);
        assert((x as i32) as u32 == x) by (bit_vector);
    }
}

impl Element for i8 {
    open spec fn byte_aligned() -> bool {
        true
    }

    open spec fn width() -> nat {
        1
    }

    open spec fn decode(b: Seq<u8>) -> i8 {
        b[0] as i8
    }

    open spec fn encode(v: i8) -> Seq<u8> {
        seq![v as u8]
    }

    fn byte_width() -> (r: usize) {
        1
    }

    fn read_from(b: &[u8]) -> (r: i8) {
        b[0] as i8
    }

    fn bytes_of(v: i8) -> (r: Vec<u8>) {
        let mut r: Vec<u8> = Vec::new();
        r.push(v as u8);
        assert(r@ =~= seq![v as u8]);
        r
    }

    fn layout_count(b: &[u8]) -> (r: Result<usize, bytemuck::PodCastError>) {
        proof {
            broadcast use {
                vstd::layout::align_properties,
                vstd::layout::align_nonzero,
                vstd::arithmetic::div_mod::lemma_mod_is_zero,
            };

            assert(vstd::layout::align_of::<i8>() == 1);
        }
        crate::mapping::cast_count::<i8>(b)
    }

    proof fn lemma_codec(v: i8) {
        assert((v as u8) as i8 == v) by (bit_vector);
    }

    proof fn lemma_decode(b: Seq<u8>) {
        let x = b[0];
        assert((x as i8) as u8 == x) by (bit_vector);
        assert(seq![(b[0] as i8) as u8] =~= b);
    }
}

impl Element for i16 {
    open spec fn byte_aligned() -> bool {
        false
    }

    open spec fn width() -> nat {
        2
    }

    open spec fn decode(b: Seq<u8>) -> i16 {
        spec_u16_from_le_bytes(b) as i16
    }

    open spec fn encode(v: i16) -> Seq<u8> {
        spec_u16_to_le_bytes(v as u16)
    }

    fn byte_width() -> (r: usize) {
        2
    }

    fn read_from(b: &[u8]) -> (r: i16) {
        u16_from_le_bytes(b) as i16
    }

    fn bytes_of(v: i16) -> (r: Vec<u8>) {
        u16_to_le_bytes(v as u16)
    }

    fn layout_count(b: &[u8]) -> (r: Result<usize, bytemuck::PodCastError>) {
        crate::mapping::cast_count::<i16>(b)
    }

    proof fn lemma_codec(v: i16) {
        lemma_auto_spec_u16_to_from_le_bytes();
        assert(spec_u16_to_le_bytes(v as u16).len() == 2);
        assert((v as u16) as i16 == v) by (bit_vector);
    }

    proof fn lemma_decode(b: Seq<u8>) {
        lemma_auto_spec_u16_to_from_le_bytes();
        let x = spec_u16_from_le_bytes(b);
        assert((x as i16) as u16 == x) by (bit_vector);
    }
}

impl Element for i64 {
    open spec fn byte_aligned() -> bool {
        false
    }

    open spec fn width() -> nat {
        8
    }

    open spec fn decode(b: Seq<u8>) -> i64 {
        spec_u64_from_le_bytes(b) as i64
    }

    open spec fn encode(v: i64) -> Seq<u8> {
        spec_u64_to_le_bytes(v as u64)
    }

    fn byte_width() -> (r: usize) {
        8
    }

    fn read_from(b: &[u8]) -> (r: i64) {
        u64_from_le_bytes(b) as i64
    }

    fn bytes_of(v: i64) -> (r: Vec<u8>) {
        u64_to_le_bytes(v as u64)
    }

    fn layout_count(b: &[u8]) -> (r: Result<usize, bytemuck::PodCastError>) {
        crate::mapping::cast_count::<i64>(b)
    }

    proof fn lemma_codec(v: i64) {
        lemma_auto_spec_u64_to_from_le_bytes();
        assert(spec_u64_to_le_bytes(v as u64).len() == 8);
        assert((v as u64) as i64 == v) by (bit_vector);
    }

    proof fn lemma_decode(b: Seq<u8>) {
        lemma_auto_spec_u64_to_from_le_bytes();
        let x = spec_u64_from_le_bytes(b);
        assert((x as i64) as u64 == x) by (bit_vector);
    }
}

} // verus!
