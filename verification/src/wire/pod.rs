//! Values that lldpd sends as the bytes of its own memory.

use vstd::prelude::*;

use super::bytes;

verus! {

/// A type whose values travel as their bytes in memory.
pub trait Pod: Sized {
    /// The size of a value in bytes.
    spec fn size() -> nat;

    /// The alignment that a value has inside a structure.
    spec fn align() -> nat;

    /// A limit on the size that holds on every machine.
    spec fn size_limit() -> nat;

    /// The value that `size()` bytes denote.
    spec fn decode(b: Seq<u8>) -> Self;

    /// The bytes of a value.
    spec fn encode(&self) -> Seq<u8>;

    /// The size is a multiple of the alignment, and both are small.
    proof fn lemma_layout()
        ensures
            1 <= Self::align() <= 64,
            Self::size() % Self::align() == 0,
            Self::size() <= Self::size_limit() <= 0x200_0000,
    ;

    /// A value's bytes denote that value.
    proof fn lemma_round_trip(&self)
        ensures
            self.encode().len() == Self::size(),
            Self::decode(self.encode()) == *self,
    ;

    fn size_of() -> (n: usize)
        ensures
            n == Self::size(),
    ;

    fn align_of() -> (n: usize)
        ensures
            n == Self::align(),
    ;

    fn from_bytes(b: &[u8]) -> (v: Self)
        requires
            b@.len() == Self::size(),
        ensures
            v == Self::decode(b@),
    ;

    fn to_bytes(&self) -> (b: Vec<u8>)
        ensures
            b@ == self.encode(),
    ;
}

/// The width of a pointer, and of C's `size_t`.
pub open spec fn ptr_width() -> nat {
    vstd::layout::size_of::<usize>()
}

pub(crate) proof fn lemma_ptr_width()
    ensures
        ptr_width() == 4 || ptr_width() == 8,
        bytes::byte_limit(ptr_width()) == usize::MAX + 1,
        vstd::layout::size_of::<isize>() == ptr_width(),
{
    broadcast use vstd::layout::layout_of_primitives;

    bytes::lemma_byte_limits();
    assert(ptr_width() * 8 == usize::BITS);
    assert(vstd::layout::size_of::<isize>() == ptr_width());
}

/// The width of a pointer on this machine.
pub fn ptr_size() -> (n: usize)
    ensures
        n == ptr_width(),
        n == 4 || n == 8,
{
    proof {
        lemma_ptr_width();
    }
    core::mem::size_of::<usize>()
}

proof fn lemma_divisor_bound(size: nat, align: nat)
    requires
        size > 0,
        align > 0,
        size % align == 0,
    ensures
        align <= size,
{
    if align > size {
        vstd::arithmetic::div_mod::lemma_small_mod(size, align);
    }
}

impl Pod for u8 {
    open spec fn size() -> nat {
        1
    }

    open spec fn align() -> nat {
        vstd::layout::align_of::<u8>()
    }

    open spec fn size_limit() -> nat {
        8
    }

    open spec fn decode(b: Seq<u8>) -> Self {
        bytes::ne_nat(b) as u8
    }

    open spec fn encode(&self) -> Seq<u8> {
        bytes::ne_bytes(*self as nat, Self::size())
    }

    proof fn lemma_layout() {
        broadcast use {
            vstd::layout::layout_of_primitives,
            vstd::layout::align_properties,
            vstd::layout::align_nonzero,
        };

        assert(vstd::layout::size_of::<u8>() == Self::size());
        lemma_divisor_bound(Self::size(), Self::align());
    }

    proof fn lemma_round_trip(&self) {
        bytes::lemma_byte_limits();
        bytes::lemma_ne_round_trip(*self as nat, Self::size());
    }

    fn size_of() -> usize {
        1
    }

    fn align_of() -> usize {
        core::mem::align_of::<u8>()
    }

    fn from_bytes(b: &[u8]) -> Self {
        proof {
            bytes::lemma_byte_limits();
        }
        bytes::ne_to_u64(b) as u8
    }

    fn to_bytes(&self) -> Vec<u8> {
        bytes::u64_to_ne(*self as u64, 1)
    }
}

impl Pod for u16 {
    open spec fn size() -> nat {
        2
    }

    open spec fn align() -> nat {
        vstd::layout::align_of::<u16>()
    }

    open spec fn size_limit() -> nat {
        8
    }

    open spec fn decode(b: Seq<u8>) -> Self {
        bytes::ne_nat(b) as u16
    }

    open spec fn encode(&self) -> Seq<u8> {
        bytes::ne_bytes(*self as nat, Self::size())
    }

    proof fn lemma_layout() {
        broadcast use {
            vstd::layout::layout_of_primitives,
            vstd::layout::align_properties,
            vstd::layout::align_nonzero,
        };

        assert(vstd::layout::size_of::<u16>() == Self::size());
        lemma_divisor_bound(Self::size(), Self::align());
    }

    proof fn lemma_round_trip(&self) {
        bytes::lemma_byte_limits();
        bytes::lemma_ne_round_trip(*self as nat, Self::size());
    }

    fn size_of() -> usize {
        2
    }

    fn align_of() -> usize {
        core::mem::align_of::<u16>()
    }

    fn from_bytes(b: &[u8]) -> Self {
        proof {
            bytes::lemma_byte_limits();
        }
        bytes::ne_to_u64(b) as u16
    }

    fn to_bytes(&self) -> Vec<u8> {
        bytes::u64_to_ne(*self as u64, 2)
    }
}

impl Pod for u32 {
    open spec fn size() -> nat {
        4
    }

    open spec fn align() -> nat {
        vstd::layout::align_of::<u32>()
    }

    open spec fn size_limit() -> nat {
        8
    }

    open spec fn decode(b: Seq<u8>) -> Self {
        bytes::ne_nat(b) as u32
    }

    open spec fn encode(&self) -> Seq<u8> {
        bytes::ne_bytes(*self as nat, Self::size())
    }

    proof fn lemma_layout() {
        broadcast use {
            vstd::layout::layout_of_primitives,
            vstd::layout::align_properties,
            vstd::layout::align_nonzero,
        };

        assert(vstd::layout::size_of::<u32>() == Self::size());
        lemma_divisor_bound(Self::size(), Self::align());
    }

    proof fn lemma_round_trip(&self) {
        bytes::lemma_byte_limits();
        bytes::lemma_ne_round_trip(*self as nat, Self::size());
    }

    fn size_of() -> usize {
        4
    }

    fn align_of() -> usize {
        core::mem::align_of::<u32>()
    }

    fn from_bytes(b: &[u8]) -> Self {
        proof {
            bytes::lemma_byte_limits();
        }
        bytes::ne_to_u64(b) as u32
    }

    fn to_bytes(&self) -> Vec<u8> {
        bytes::u64_to_ne(*self as u64, 4)
    }
}

impl Pod for u64 {
    open spec fn size() -> nat {
        8
    }

    open spec fn align() -> nat {
        vstd::layout::align_of::<u64>()
    }

    open spec fn size_limit() -> nat {
        8
    }

    open spec fn decode(b: Seq<u8>) -> Self {
        bytes::ne_nat(b) as u64
    }

    open spec fn encode(&self) -> Seq<u8> {
        bytes::ne_bytes(*self as nat, Self::size())
    }

    proof fn lemma_layout() {
        broadcast use {
            vstd::layout::layout_of_primitives,
            vstd::layout::align_properties,
            vstd::layout::align_nonzero,
        };

        assert(vstd::layout::size_of::<u64>() == Self::size());
        lemma_divisor_bound(Self::size(), Self::align());
    }

    proof fn lemma_round_trip(&self) {
        bytes::lemma_byte_limits();
        bytes::lemma_ne_round_trip(*self as nat, Self::size());
    }

    fn size_of() -> usize {
        8
    }

    fn align_of() -> usize {
        core::mem::align_of::<u64>()
    }

    fn from_bytes(b: &[u8]) -> Self {
        proof {
            bytes::lemma_byte_limits();
        }
        bytes::ne_to_u64(b) as u64
    }

    fn to_bytes(&self) -> Vec<u8> {
        bytes::u64_to_ne(*self as u64, 8)
    }
}

impl Pod for usize {
    open spec fn size() -> nat {
        ptr_width()
    }

    open spec fn align() -> nat {
        vstd::layout::align_of::<usize>()
    }

    open spec fn size_limit() -> nat {
        8
    }

    open spec fn decode(b: Seq<u8>) -> Self {
        bytes::ne_nat(b) as usize
    }

    open spec fn encode(&self) -> Seq<u8> {
        bytes::ne_bytes(*self as nat, Self::size())
    }

    proof fn lemma_layout() {
        broadcast use {
            vstd::layout::layout_of_primitives,
            vstd::layout::align_properties,
            vstd::layout::align_nonzero,
        };

        lemma_ptr_width();
        assert(vstd::layout::size_of::<usize>() == Self::size());
        lemma_divisor_bound(Self::size(), Self::align());
    }

    proof fn lemma_round_trip(&self) {
        lemma_ptr_width();
        bytes::lemma_byte_limits();
        bytes::lemma_ne_round_trip(*self as nat, Self::size());
    }

    fn size_of() -> usize {
        ptr_size()
    }

    fn align_of() -> usize {
        core::mem::align_of::<usize>()
    }

    fn from_bytes(b: &[u8]) -> Self {
        proof {
            lemma_ptr_width();
            bytes::lemma_byte_limits();
        }
        bytes::ne_to_u64(b) as usize
    }

    fn to_bytes(&self) -> Vec<u8> {
        bytes::u64_to_ne(*self as u64, ptr_size())
    }
}

impl Pod for i32 {
    open spec fn size() -> nat {
        <u32 as Pod>::size()
    }

    open spec fn align() -> nat {
        vstd::layout::align_of::<i32>()
    }

    open spec fn size_limit() -> nat {
        8
    }

    open spec fn decode(b: Seq<u8>) -> Self {
        <u32 as Pod>::decode(b) as i32
    }

    open spec fn encode(&self) -> Seq<u8> {
        (*self as u32).encode()
    }

    proof fn lemma_layout() {
        broadcast use {
            vstd::layout::layout_of_primitives,
            vstd::layout::align_properties,
            vstd::layout::align_nonzero,
        };

        lemma_ptr_width();
        assert(vstd::layout::size_of::<i32>() == Self::size());
        lemma_divisor_bound(Self::size(), Self::align());
    }

    proof fn lemma_round_trip(&self) {
        let x = *self;
        (x as u32).lemma_round_trip();
        assert((x as u32) as i32 == x) by (bit_vector);
    }

    fn size_of() -> usize {
        <u32 as Pod>::size_of()
    }

    fn align_of() -> usize {
        core::mem::align_of::<i32>()
    }

    fn from_bytes(b: &[u8]) -> Self {
        <u32 as Pod>::from_bytes(b) as i32
    }

    fn to_bytes(&self) -> Vec<u8> {
        (*self as u32).to_bytes()
    }
}

impl Pod for isize {
    open spec fn size() -> nat {
        <usize as Pod>::size()
    }

    open spec fn align() -> nat {
        vstd::layout::align_of::<isize>()
    }

    open spec fn size_limit() -> nat {
        8
    }

    open spec fn decode(b: Seq<u8>) -> Self {
        <usize as Pod>::decode(b) as isize
    }

    open spec fn encode(&self) -> Seq<u8> {
        (*self as usize).encode()
    }

    proof fn lemma_layout() {
        broadcast use {
            vstd::layout::layout_of_primitives,
            vstd::layout::align_properties,
            vstd::layout::align_nonzero,
        };

        lemma_ptr_width();
        assert(vstd::layout::size_of::<isize>() == Self::size());
        lemma_divisor_bound(Self::size(), Self::align());
    }

    proof fn lemma_round_trip(&self) {
        let x = *self;
        (x as usize).lemma_round_trip();
        assert((x as usize) as isize == x) by (bit_vector);
    }

    fn size_of() -> usize {
        <usize as Pod>::size_of()
    }

    fn align_of() -> usize {
        core::mem::align_of::<isize>()
    }

    fn from_bytes(b: &[u8]) -> Self {
        <usize as Pod>::from_bytes(b) as isize
    }

    fn to_bytes(&self) -> Vec<u8> {
        (*self as usize).to_bytes()
    }
}

} // verus!
