//! Where each number stands in the bytes of a structure.
//!
//! The laws here speak of bytes and offsets alone: a field of a structure is
//! the number that the machine reads at the field's offset in C. The offsets
//! are written out for machines with 64-bit and with 32-bit pointers.

use vstd::prelude::*;

use super::bytes;
use super::layout;
use super::layout::{Fields, Record};
use super::pod;
use super::pod::Pod;
use super::raw::{
    RawCdpPower, RawChassis, RawDot3MacPhy, RawDot3Power, RawHardware, RawInterface,
    RawInterfaceList, RawMedLoc, RawMedPolicy, RawMedPower, RawMgmt, RawNeighborChange, RawPi,
    RawPort, RawPortSet, RawPpvid, RawVlan, MED_APPTYPE_LAST, MED_LOCFORMAT_LAST,
};

verus! {

/// The number in the `n` bytes of `b` at `at`, least significant byte first.
pub open spec fn little_at(b: Seq<u8>, at: int, n: nat) -> nat
    decreases n,
{
    if n == 0 {
        0
    } else {
        b[at] as nat + 256 * little_at(b, at + 1, (n - 1) as nat)
    }
}

/// The number in the `n` bytes of `b` at `at`, most significant byte first.
pub open spec fn big_at(b: Seq<u8>, at: int, n: nat) -> nat
    decreases n,
{
    if n == 0 {
        0
    } else {
        256 * big_at(b, at, (n - 1) as nat) + b[at + n - 1] as nat
    }
}

/// The number that the machine reads from the `n` bytes of `b` at `at`.
pub open spec fn number_at(b: Seq<u8>, at: int, n: nat) -> nat {
    match vstd::endian::endianness() {
        vstd::endian::Endian::Little => little_at(b, at, n),
        vstd::endian::Endian::Big => big_at(b, at, n),
    }
}

/// The number of 32 bits in two's complement.
pub open spec fn signed_32(n: nat) -> int {
    if n < 0x8000_0000 {
        n as int
    } else {
        n - 0x1_0000_0000
    }
}

proof fn lemma_little(b: Seq<u8>, at: int, n: nat)
    requires
        0 <= at,
        at + n <= b.len(),
    ensures
        bytes::le_nat(b.subrange(at, at + n)) == little_at(b, at, n),
    decreases n,
{
    if n > 0 {
        lemma_little(b, at + 1, (n - 1) as nat);
        assert(b.subrange(at, at + n).drop_first() =~= b.subrange(at + 1, at + n));
    }
}

proof fn lemma_big(b: Seq<u8>, at: int, n: nat)
    requires
        0 <= at,
        at + n <= b.len(),
    ensures
        bytes::le_nat(b.subrange(at, at + n).reverse()) == big_at(b, at, n),
    decreases n,
{
    let whole = b.subrange(at, at + n);
    if n > 0 {
        lemma_big(b, at, (n - 1) as nat);
        assert(whole.reverse().drop_first() =~= b.subrange(at, at + n - 1).reverse());
        assert(whole.reverse()[0] == b[at + n - 1]);
    }
}

/// A number is read from the bytes in the machine's order, and from those
/// bytes alone.
pub proof fn numbers_are_read_in_place(b: Seq<u8>, at: int, n: nat)
    requires
        0 <= at,
        at + n <= b.len(),
    ensures
        bytes::ne_nat(b.subrange(at, at + n)) == number_at(b, at, n),
        number_at(b, at, n) < bytes::byte_limit(n),
{
    lemma_little(b, at, n);
    lemma_big(b, at, n);
    bytes::lemma_ne_nat_bound(b.subrange(at, at + n));
}

/// An octet is read as itself.
pub proof fn u8_in_place(b: Seq<u8>, at: int)
    requires
        0 <= at < b.len(),
    ensures
        u8::decode(b.subrange(at, at + 1)) == b[at],
{
    numbers_are_read_in_place(b, at, 1);
    reveal_with_fuel(little_at, 2);
    reveal_with_fuel(big_at, 2);
}

/// Two bytes are read as an unsigned number.
pub proof fn u16_in_place(b: Seq<u8>, at: int)
    requires
        0 <= at,
        at + 2 <= b.len(),
    ensures
        u16::decode(b.subrange(at, at + 2)) == number_at(b, at, 2),
{
    bytes::lemma_byte_limits();
    numbers_are_read_in_place(b, at, 2);
}

/// Four bytes are read as an unsigned number.
pub proof fn u32_in_place(b: Seq<u8>, at: int)
    requires
        0 <= at,
        at + 4 <= b.len(),
    ensures
        u32::decode(b.subrange(at, at + 4)) == number_at(b, at, 4),
{
    bytes::lemma_byte_limits();
    numbers_are_read_in_place(b, at, 4);
}

/// Eight bytes are read as an unsigned number.
pub proof fn u64_in_place(b: Seq<u8>, at: int)
    requires
        0 <= at,
        at + 8 <= b.len(),
    ensures
        u64::decode(b.subrange(at, at + 8)) == number_at(b, at, 8),
{
    bytes::lemma_byte_limits();
    numbers_are_read_in_place(b, at, 8);
}

/// As many bytes as a pointer has are read as an unsigned number.
pub proof fn usize_in_place(b: Seq<u8>, at: int)
    requires
        0 <= at,
        at + pod::ptr_width() <= b.len(),
    ensures
        usize::decode(b.subrange(at, at + pod::ptr_width())) == number_at(
            b,
            at,
            pod::ptr_width(),
        ),
{
    pod::lemma_ptr_width();
    numbers_are_read_in_place(b, at, pod::ptr_width());
}

/// Four bytes are read as a number in two's complement.
pub proof fn i32_in_place(b: Seq<u8>, at: int)
    requires
        0 <= at,
        at + 4 <= b.len(),
    ensures
        i32::decode(b.subrange(at, at + 4)) == signed_32(number_at(b, at, 4)),
{
    u32_in_place(b, at);
    let x = u32::decode(b.subrange(at, at + 4));
    assert(x < 0x8000_0000 ==> (x as i32) == x) by (bit_vector);
    assert(x >= 0x8000_0000 ==> (x as i32) == x - 0x1_0000_0000) by (bit_vector);
}

/// The structure that the bytes `b` are.
#[verifier::opaque]
pub open spec fn structure<T: Pod>(b: Seq<u8>) -> T {
    T::decode(b)
}

/// How many bytes a structure has.
#[verifier::opaque]
pub open spec fn extent<T: Pod>() -> nat {
    T::size()
}

/// At the multiples of which number a structure stands.
#[verifier::opaque]
pub open spec fn alignment<T: Pod>() -> nat {
    T::align()
}

/// What decoding gives is what the laws here speak of.
pub proof fn structures_are_decoded<T: Pod>(b: Seq<u8>)
    ensures
        structure::<T>(b) == T::decode(b),
        extent::<T>() == T::size(),
        alignment::<T>() == T::align(),
{
    reveal(structure);
    reveal(extent);
    reveal(alignment);
}

#[verifier::opaque]
spec fn fields_at<F: Fields>(b: Seq<u8>, start: nat) -> F {
    F::decode_at(b, start)
}

#[verifier::opaque]
spec fn end_of<F: Fields>(start: nat) -> nat {
    F::end_at(start)
}

#[verifier::opaque]
spec fn widest<F: Fields>() -> nat {
    F::max_align()
}

/// A field stands at the next multiple of its alignment.
proof fn lemma_field<F: Pod>(b: Seq<u8>, start: nat, align: nat, size: nat, at: nat)
    requires
        alignment::<F>() == align,
        extent::<F>() == size,
        layout::align_up_to(start, align) == at,
    ensures
        end_of::<F>(start) == at + size,
        widest::<F>() == align,
        fields_at::<F>(b, start) == structure::<F>(b.subrange(at as int, (at + size) as int)),
{
    reveal(structure);
    reveal(extent);
    reveal(alignment);
    reveal(fields_at);
    reveal(end_of);
    reveal(widest);
}

/// The fields of `B` stand behind those of `A`.
proof fn lemma_pair<A: Fields, B: Fields>(b: Seq<u8>, start: nat)
    ensures
        fields_at::<(A, B)>(b, start) == (
            fields_at::<A>(b, start),
            fields_at::<B>(b, end_of::<A>(start)),
        ),
        end_of::<(A, B)>(start) == end_of::<B>(end_of::<A>(start)),
        widest::<(A, B)>() == (if widest::<A>() > widest::<B>() {
            widest::<A>()
        } else {
            widest::<B>()
        }),
{
    reveal(fields_at);
    reveal(end_of);
    reveal(widest);
}

/// A structure is its fields, padded to its alignment.
proof fn lemma_record<R: Record>(b: Seq<u8>, end: nat, align: nat, size: nat)
    requires
        end_of::<R::Fs>(0) == end,
        widest::<R::Fs>() == align,
        layout::align_up_to(end, align) == size,
    ensures
        extent::<R>() == size,
        alignment::<R>() == align,
        structure::<R>(b) == R::of_fields(fields_at::<R::Fs>(b, 0)),
{
    reveal(structure);
    reveal(extent);
    reveal(alignment);
    reveal(fields_at);
    reveal(end_of);
    reveal(widest);
}

proof fn lemma_u8_align()
    ensures
        u8::align() == 1,
{
    u8::lemma_layout();
    if u8::align() > 1 {
        vstd::arithmetic::div_mod::lemma_small_mod(1, u8::align());
    }
}

proof fn lemma_u8_field(b: Seq<u8>, start: nat)
    requires
        start < b.len(),
    ensures
        end_of::<u8>(start) == start + 1,
        widest::<u8>() == 1,
        fields_at::<u8>(b, start) == b[start as int],
{
    lemma_u8_align();
    assert(layout::align_up_to(start, 1) == start);
    structures_are_decoded::<u8>(b.subrange(start as int, (start + 1) as int));
    lemma_field::<u8>(b, start, 1, 1, start);
    u8_in_place(b, start as int);
}

proof fn lemma_u16_field(b: Seq<u8>, start: nat, at: nat)
    requires
        u16::align() == 2,
        layout::align_up_to(start, 2) == at,
        at + 2 <= b.len(),
    ensures
        end_of::<u16>(start) == at + 2,
        widest::<u16>() == 2,
        fields_at::<u16>(b, start) == number_at(b, at as int, 2),
{
    structures_are_decoded::<u16>(b.subrange(at as int, (at + 2) as int));
    lemma_field::<u16>(b, start, 2, 2, at);
    u16_in_place(b, at as int);
}

proof fn lemma_u32_field(b: Seq<u8>, start: nat, at: nat)
    requires
        u32::align() == 4,
        layout::align_up_to(start, 4) == at,
        at + 4 <= b.len(),
    ensures
        end_of::<u32>(start) == at + 4,
        widest::<u32>() == 4,
        fields_at::<u32>(b, start) == number_at(b, at as int, 4),
{
    structures_are_decoded::<u32>(b.subrange(at as int, (at + 4) as int));
    lemma_field::<u32>(b, start, 4, 4, at);
    u32_in_place(b, at as int);
}

proof fn lemma_i32_field(b: Seq<u8>, start: nat, at: nat)
    requires
        i32::align() == 4,
        layout::align_up_to(start, 4) == at,
        at + 4 <= b.len(),
    ensures
        end_of::<i32>(start) == at + 4,
        widest::<i32>() == 4,
        fields_at::<i32>(b, start) == signed_32(number_at(b, at as int, 4)),
{
    structures_are_decoded::<i32>(b.subrange(at as int, (at + 4) as int));
    lemma_field::<i32>(b, start, 4, 4, at);
    i32_in_place(b, at as int);
}

proof fn lemma_u64_field(b: Seq<u8>, start: nat, align: nat, at: nat)
    requires
        u64::align() == align,
        layout::align_up_to(start, align) == at,
        at + 8 <= b.len(),
    ensures
        end_of::<u64>(start) == at + 8,
        widest::<u64>() == align,
        fields_at::<u64>(b, start) == number_at(b, at as int, 8),
{
    structures_are_decoded::<u64>(b.subrange(at as int, (at + 8) as int));
    lemma_field::<u64>(b, start, align, 8, at);
    u64_in_place(b, at as int);
}

proof fn lemma_usize_field(b: Seq<u8>, start: nat, align: nat, at: nat)
    requires
        usize::align() == align,
        layout::align_up_to(start, align) == at,
        at + pod::ptr_width() <= b.len(),
    ensures
        end_of::<usize>(start) == at + pod::ptr_width(),
        widest::<usize>() == align,
        fields_at::<usize>(b, start) == number_at(b, at as int, pod::ptr_width()),
{
    structures_are_decoded::<usize>(b.subrange(at as int, (at + pod::ptr_width()) as int));
    lemma_field::<usize>(b, start, align, pod::ptr_width(), at);
    usize_in_place(b, at as int);
}

proof fn lemma_isize_field(b: Seq<u8>, start: nat, align: nat, at: nat)
    requires
        isize::align() == align,
        layout::align_up_to(start, align) == at,
        at + pod::ptr_width() <= b.len(),
    ensures
        end_of::<isize>(start) == at + pod::ptr_width(),
        widest::<isize>() == align,
        fields_at::<isize>(b, start) == isize::decode(
            b.subrange(at as int, (at + pod::ptr_width()) as int),
        ),
{
    pod::lemma_ptr_width();
    structures_are_decoded::<isize>(b.subrange(at as int, (at + pod::ptr_width()) as int));
    lemma_field::<isize>(b, start, align, pod::ptr_width(), at);
}

/// Six octets are their bytes, in order.
pub proof fn six_octets_are_their_bytes(b: Seq<u8>)
    requires
        b.len() == 6,
    ensures
        extent::<[u8; 6]>() == 6,
        alignment::<[u8; 6]>() == 1,
        structure::<[u8; 6]>(b)@ == b,
        <[u8; 6] as Pod>::decode(b)@ == b,
{
    lemma_u8_field(b, 0);
    lemma_u8_field(b, 1);
    lemma_u8_field(b, 2);
    lemma_u8_field(b, 3);
    lemma_u8_field(b, 4);
    lemma_u8_field(b, 5);
    lemma_pair::<u8, u8>(b, 4);
    lemma_pair::<u8, (u8, u8)>(b, 3);
    lemma_pair::<u8, (u8, (u8, u8))>(b, 2);
    lemma_pair::<u8, (u8, (u8, (u8, u8)))>(b, 1);
    lemma_pair::<u8, (u8, (u8, (u8, (u8, u8))))>(b, 0);
    lemma_record::<[u8; 6]>(b, 6, 1, 6);
    assert(structure::<[u8; 6]>(b)@ =~= b);
    structures_are_decoded::<[u8; 6]>(b);
}

/// Six octets are written as they are, in order.
pub proof fn six_octets_are_written_in_order(a: [u8; 6])
    ensures
        a.encode() == a@,
{
    six_octets_are_their_bytes(Seq::new(6, |i: int| 0u8));
    structures_are_decoded::<[u8; 6]>(a.encode());
    a.lemma_round_trip();
    six_octets_are_their_bytes(a.encode());
}

/// Sixteen octets are their bytes, in order.
pub proof fn sixteen_octets_are_their_bytes(b: Seq<u8>)
    requires
        b.len() == 16,
    ensures
        extent::<[u8; 16]>() == 16,
        alignment::<[u8; 16]>() == 1,
        structure::<[u8; 16]>(b)@ == b,
        <[u8; 16] as Pod>::decode(b)@ == b,
{
    lemma_u8_field(b, 0);
    lemma_u8_field(b, 1);
    lemma_u8_field(b, 2);
    lemma_u8_field(b, 3);
    lemma_u8_field(b, 4);
    lemma_u8_field(b, 5);
    lemma_u8_field(b, 6);
    lemma_u8_field(b, 7);
    lemma_u8_field(b, 8);
    lemma_u8_field(b, 9);
    lemma_u8_field(b, 10);
    lemma_u8_field(b, 11);
    lemma_u8_field(b, 12);
    lemma_u8_field(b, 13);
    lemma_u8_field(b, 14);
    lemma_u8_field(b, 15);
    lemma_pair::<u8, u8>(b, 4);
    lemma_pair::<u8, (u8, u8)>(b, 3);
    lemma_pair::<u8, (u8, (u8, u8))>(b, 2);
    lemma_pair::<u8, (u8, (u8, (u8, u8)))>(b, 1);
    lemma_pair::<u8, (u8, (u8, (u8, (u8, u8))))>(b, 0);
    lemma_pair::<u8, u8>(b, 10);
    lemma_pair::<u8, (u8, u8)>(b, 9);
    lemma_pair::<u8, (u8, (u8, u8))>(b, 8);
    lemma_pair::<u8, (u8, (u8, (u8, u8)))>(b, 7);
    lemma_pair::<u8, (u8, (u8, (u8, (u8, u8))))>(b, 6);
    lemma_pair::<u8, u8>(b, 14);
    lemma_pair::<u8, (u8, u8)>(b, 13);
    lemma_pair::<u8, (u8, (u8, u8))>(b, 12);
    lemma_pair::<(u8, (u8, (u8, (u8, (u8, u8))))), (u8, (u8, (u8, u8)))>(b, 6);
    lemma_pair::<
        (u8, (u8, (u8, (u8, (u8, u8))))),
        ((u8, (u8, (u8, (u8, (u8, u8))))), (u8, (u8, (u8, u8)))),
    >(b, 0);
    lemma_record::<[u8; 16]>(b, 16, 1, 16);
    assert(structure::<[u8; 16]>(b)@ =~= b);
    structures_are_decoded::<[u8; 16]>(b);
}

/// Sixteen octets are written as they are, in order.
pub proof fn sixteen_octets_are_written_in_order(a: [u8; 16])
    ensures
        a.encode() == a@,
{
    sixteen_octets_are_their_bytes(Seq::new(16, |i: int| 0u8));
    structures_are_decoded::<[u8; 16]>(a.encode());
    a.lemma_round_trip();
    sixteen_octets_are_their_bytes(a.encode());
}

/// Numbers of up to four bytes stand at multiples of their size.
pub open spec fn narrow_alignments() -> bool {
    u16::align() == 2 && u32::align() == 4 && i32::align() == 4
}

/// A machine with 64-bit pointers, where every number stands at a multiple of
/// its size.
pub open spec fn is_64() -> bool {
    pod::ptr_width() == 8 && narrow_alignments() && u64::align() == 8 && usize::align() == 8
        && isize::align() == 8
}

/// A machine with 32-bit pointers. It may align 64-bit numbers to eight or to
/// four.
pub open spec fn is_32() -> bool {
    pod::ptr_width() == 4 && narrow_alignments() && usize::align() == 4 && isize::align() == 4
}

/// `struct lldpd_mgmt` on a 64-bit machine.
pub proof fn mgmt_in_place_64(b: Seq<u8>)
    requires
        is_64(),
        b.len() == 56,
    ensures
        extent::<RawMgmt>() == 56,
        alignment::<RawMgmt>() == 8,
        ({
            let v = structure::<RawMgmt>(b);
            &&& v.tqe_next == number_at(b, 0, 8)
            &&& v.tqe_prev == number_at(b, 8, 8)
            &&& v.m_family == signed_32(number_at(b, 16, 4))
            &&& v.m_addr@ == b.subrange(20, 36)
            &&& v.m_addrsize == number_at(b, 40, 8)
            &&& v.m_iface == number_at(b, 48, 4)
        }),
{
    lemma_usize_field(b, 0, 8, 0);
    lemma_usize_field(b, 8, 8, 8);
    lemma_i32_field(b, 16, 16);
    sixteen_octets_are_their_bytes(b.subrange(20, 36));
    lemma_field::<[u8; 16]>(b, 20, 1, 16, 20);
    lemma_usize_field(b, 36, 8, 40);
    lemma_u32_field(b, 48, 48);
    lemma_pair::<usize, u32>(b, 36);
    lemma_pair::<[u8; 16], (usize, u32)>(b, 20);
    lemma_pair::<i32, ([u8; 16], (usize, u32))>(b, 16);
    lemma_pair::<usize, (i32, ([u8; 16], (usize, u32)))>(b, 8);
    lemma_pair::<usize, (usize, (i32, ([u8; 16], (usize, u32))))>(b, 0);
    lemma_record::<RawMgmt>(b, 52, 8, 56);
}

/// `struct lldpd_mgmt` on a 32-bit machine.
pub proof fn mgmt_in_place_32(b: Seq<u8>)
    requires
        is_32(),
        b.len() == 36,
    ensures
        extent::<RawMgmt>() == 36,
        alignment::<RawMgmt>() == 4,
        ({
            let v = structure::<RawMgmt>(b);
            &&& v.tqe_next == number_at(b, 0, 4)
            &&& v.tqe_prev == number_at(b, 4, 4)
            &&& v.m_family == signed_32(number_at(b, 8, 4))
            &&& v.m_addr@ == b.subrange(12, 28)
            &&& v.m_addrsize == number_at(b, 28, 4)
            &&& v.m_iface == number_at(b, 32, 4)
        }),
{
    lemma_usize_field(b, 0, 4, 0);
    lemma_usize_field(b, 4, 4, 4);
    lemma_i32_field(b, 8, 8);
    sixteen_octets_are_their_bytes(b.subrange(12, 28));
    lemma_field::<[u8; 16]>(b, 12, 1, 16, 12);
    lemma_usize_field(b, 28, 4, 28);
    lemma_u32_field(b, 32, 32);
    lemma_pair::<usize, u32>(b, 28);
    lemma_pair::<[u8; 16], (usize, u32)>(b, 12);
    lemma_pair::<i32, ([u8; 16], (usize, u32))>(b, 8);
    lemma_pair::<usize, (i32, ([u8; 16], (usize, u32)))>(b, 4);
    lemma_pair::<usize, (usize, (i32, ([u8; 16], (usize, u32))))>(b, 0);
    lemma_record::<RawMgmt>(b, 36, 4, 36);
}

/// `struct lldpd_vlan` on a 64-bit machine.
pub proof fn vlan_in_place_64(b: Seq<u8>)
    requires
        is_64(),
        b.len() == 32,
    ensures
        extent::<RawVlan>() == 32,
        alignment::<RawVlan>() == 8,
        ({
            let v = structure::<RawVlan>(b);
            &&& v.tqe_next == number_at(b, 0, 8)
            &&& v.tqe_prev == number_at(b, 8, 8)
            &&& v.v_name == number_at(b, 16, 8)
            &&& v.v_vid == number_at(b, 24, 2)
        }),
{
    lemma_usize_field(b, 0, 8, 0);
    lemma_usize_field(b, 8, 8, 8);
    lemma_usize_field(b, 16, 8, 16);
    lemma_u16_field(b, 24, 24);
    lemma_pair::<usize, u16>(b, 16);
    lemma_pair::<usize, (usize, u16)>(b, 8);
    lemma_pair::<usize, (usize, (usize, u16))>(b, 0);
    lemma_record::<RawVlan>(b, 26, 8, 32);
}

/// `struct lldpd_vlan` on a 32-bit machine.
pub proof fn vlan_in_place_32(b: Seq<u8>)
    requires
        is_32(),
        b.len() == 16,
    ensures
        extent::<RawVlan>() == 16,
        alignment::<RawVlan>() == 4,
        ({
            let v = structure::<RawVlan>(b);
            &&& v.tqe_next == number_at(b, 0, 4)
            &&& v.tqe_prev == number_at(b, 4, 4)
            &&& v.v_name == number_at(b, 8, 4)
            &&& v.v_vid == number_at(b, 12, 2)
        }),
{
    lemma_usize_field(b, 0, 4, 0);
    lemma_usize_field(b, 4, 4, 4);
    lemma_usize_field(b, 8, 4, 8);
    lemma_u16_field(b, 12, 12);
    lemma_pair::<usize, u16>(b, 8);
    lemma_pair::<usize, (usize, u16)>(b, 4);
    lemma_pair::<usize, (usize, (usize, u16))>(b, 0);
    lemma_record::<RawVlan>(b, 14, 4, 16);
}

/// `struct lldpd_ppvid` on a 64-bit machine.
pub proof fn ppvid_in_place_64(b: Seq<u8>)
    requires
        is_64(),
        b.len() == 24,
    ensures
        extent::<RawPpvid>() == 24,
        alignment::<RawPpvid>() == 8,
        ({
            let v = structure::<RawPpvid>(b);
            &&& v.tqe_next == number_at(b, 0, 8)
            &&& v.tqe_prev == number_at(b, 8, 8)
            &&& v.p_cap_status == b[16]
            &&& v.p_ppvid == number_at(b, 18, 2)
        }),
{
    lemma_usize_field(b, 0, 8, 0);
    lemma_usize_field(b, 8, 8, 8);
    lemma_u8_field(b, 16);
    lemma_u16_field(b, 17, 18);
    lemma_pair::<u8, u16>(b, 16);
    lemma_pair::<usize, (u8, u16)>(b, 8);
    lemma_pair::<usize, (usize, (u8, u16))>(b, 0);
    lemma_record::<RawPpvid>(b, 20, 8, 24);
}

/// `struct lldpd_ppvid` on a 32-bit machine.
pub proof fn ppvid_in_place_32(b: Seq<u8>)
    requires
        is_32(),
        b.len() == 12,
    ensures
        extent::<RawPpvid>() == 12,
        alignment::<RawPpvid>() == 4,
        ({
            let v = structure::<RawPpvid>(b);
            &&& v.tqe_next == number_at(b, 0, 4)
            &&& v.tqe_prev == number_at(b, 4, 4)
            &&& v.p_cap_status == b[8]
            &&& v.p_ppvid == number_at(b, 10, 2)
        }),
{
    lemma_usize_field(b, 0, 4, 0);
    lemma_usize_field(b, 4, 4, 4);
    lemma_u8_field(b, 8);
    lemma_u16_field(b, 9, 10);
    lemma_pair::<u8, u16>(b, 8);
    lemma_pair::<usize, (u8, u16)>(b, 4);
    lemma_pair::<usize, (usize, (u8, u16))>(b, 0);
    lemma_record::<RawPpvid>(b, 12, 4, 12);
}

/// `struct lldpd_pi` on a 64-bit machine.
pub proof fn pi_in_place_64(b: Seq<u8>)
    requires
        is_64(),
        b.len() == 32,
    ensures
        extent::<RawPi>() == 32,
        alignment::<RawPi>() == 8,
        ({
            let v = structure::<RawPi>(b);
            &&& v.tqe_next == number_at(b, 0, 8)
            &&& v.tqe_prev == number_at(b, 8, 8)
            &&& v.p_pi == number_at(b, 16, 8)
            &&& v.p_pi_len == signed_32(number_at(b, 24, 4))
        }),
{
    lemma_usize_field(b, 0, 8, 0);
    lemma_usize_field(b, 8, 8, 8);
    lemma_usize_field(b, 16, 8, 16);
    lemma_i32_field(b, 24, 24);
    lemma_pair::<usize, i32>(b, 16);
    lemma_pair::<usize, (usize, i32)>(b, 8);
    lemma_pair::<usize, (usize, (usize, i32))>(b, 0);
    lemma_record::<RawPi>(b, 28, 8, 32);
}

/// `struct lldpd_pi` on a 32-bit machine.
pub proof fn pi_in_place_32(b: Seq<u8>)
    requires
        is_32(),
        b.len() == 16,
    ensures
        extent::<RawPi>() == 16,
        alignment::<RawPi>() == 4,
        ({
            let v = structure::<RawPi>(b);
            &&& v.tqe_next == number_at(b, 0, 4)
            &&& v.tqe_prev == number_at(b, 4, 4)
            &&& v.p_pi == number_at(b, 8, 4)
            &&& v.p_pi_len == signed_32(number_at(b, 12, 4))
        }),
{
    lemma_usize_field(b, 0, 4, 0);
    lemma_usize_field(b, 4, 4, 4);
    lemma_usize_field(b, 8, 4, 8);
    lemma_i32_field(b, 12, 12);
    lemma_pair::<usize, i32>(b, 8);
    lemma_pair::<usize, (usize, i32)>(b, 4);
    lemma_pair::<usize, (usize, (usize, i32))>(b, 0);
    lemma_record::<RawPi>(b, 16, 4, 16);
}

proof fn lemma_med_policy_part_1(b: Seq<u8>)
    requires
        narrow_alignments(),
        b.len() == 8,
    ensures
        end_of::<(u8, (u8, (u8, (u8, (u16, u8)))))>(0) == 7,
        widest::<(u8, (u8, (u8, (u8, (u16, u8)))))>() == 2,
        ({
            let g = fields_at::<(u8, (u8, (u8, (u8, (u16, u8)))))>(b, 0);
            &&& g.0 == b[0]
            &&& g.1.0 == b[1]
            &&& g.1.1.0 == b[2]
            &&& g.1.1.1.0 == b[3]
            &&& g.1.1.1.1.0 == number_at(b, 4, 2)
            &&& g.1.1.1.1.1 == b[6]
        }),
{
    lemma_u8_field(b, 0);
    lemma_u8_field(b, 1);
    lemma_u8_field(b, 2);
    lemma_u8_field(b, 3);
    lemma_u16_field(b, 4, 4);
    lemma_u8_field(b, 6);
    lemma_pair::<u16, u8>(b, 4);
    lemma_pair::<u8, (u16, u8)>(b, 3);
    lemma_pair::<u8, (u8, (u16, u8))>(b, 2);
    lemma_pair::<u8, (u8, (u8, (u16, u8)))>(b, 1);
    lemma_pair::<u8, (u8, (u8, (u8, (u16, u8))))>(b, 0);
}

proof fn lemma_med_policy_part_2(b: Seq<u8>)
    requires
        narrow_alignments(),
        b.len() == 8,
    ensures
        end_of::<u8>(7) == 8,
        widest::<u8>() == 1,
        ({
            let g = fields_at::<u8>(b, 7);
            &&& g == b[7]
        }),
{
    lemma_u8_field(b, 7);
}

/// `struct lldpd_med_policy` on every machine.
pub proof fn med_policy_in_place(b: Seq<u8>)
    requires
        narrow_alignments(),
        b.len() == 8,
    ensures
        extent::<RawMedPolicy>() == 8,
        alignment::<RawMedPolicy>() == 2,
        ({
            let v = structure::<RawMedPolicy>(b);
            &&& v.index == b[0]
            &&& v.kind == b[1]
            &&& v.unknown == b[2]
            &&& v.tagged == b[3]
            &&& v.vid == number_at(b, 4, 2)
            &&& v.priority == b[6]
            &&& v.dscp == b[7]
        }),
{
    lemma_med_policy_part_1(b);
    lemma_med_policy_part_2(b);
    lemma_pair::<(u8, (u8, (u8, (u8, (u16, u8))))), u8>(b, 0);
    lemma_record::<RawMedPolicy>(b, 8, 2, 8);
}

proof fn lemma_med_policy_size()
    requires
        narrow_alignments(),
    ensures
        extent::<RawMedPolicy>() == 8,
        alignment::<RawMedPolicy>() == 2,
{
    med_policy_in_place(Seq::new(8, |i: int| 0u8));
}

/// The elements of an array of `RawMedPolicy` stand one behind the other.
pub proof fn med_policy_array_in_place(b: Seq<u8>)
    requires
        narrow_alignments(),
        b.len() == 64,
    ensures
        extent::<[RawMedPolicy; MED_APPTYPE_LAST]>() == 64,
        alignment::<[RawMedPolicy; MED_APPTYPE_LAST]>() == 2,
        forall|i: int|
            0 <= i < 8 ==> #[trigger] structure::<[RawMedPolicy; MED_APPTYPE_LAST]>(b)@[i]
                == structure::<RawMedPolicy>(
                b.subrange(i * 8, i * 8 + 8),
            ),
{
    lemma_med_policy_size();
    lemma_field::<RawMedPolicy>(b, 0, 2, 8, 0);
    lemma_field::<RawMedPolicy>(b, 8, 2, 8, 8);
    lemma_field::<RawMedPolicy>(b, 16, 2, 8, 16);
    lemma_field::<RawMedPolicy>(b, 24, 2, 8, 24);
    lemma_field::<RawMedPolicy>(b, 32, 2, 8, 32);
    lemma_field::<RawMedPolicy>(b, 40, 2, 8, 40);
    lemma_field::<RawMedPolicy>(b, 48, 2, 8, 48);
    lemma_field::<RawMedPolicy>(b, 56, 2, 8, 56);
    lemma_pair::<RawMedPolicy, RawMedPolicy>(b, 32);
    lemma_pair::<RawMedPolicy, (RawMedPolicy, RawMedPolicy)>(b, 24);
    lemma_pair::<RawMedPolicy, (RawMedPolicy, (RawMedPolicy, RawMedPolicy))>(b, 16);
    lemma_pair::<RawMedPolicy, (RawMedPolicy, (RawMedPolicy, (RawMedPolicy, RawMedPolicy)))>(b, 8);
    lemma_pair::<
        RawMedPolicy,
        (RawMedPolicy, (RawMedPolicy, (RawMedPolicy, (RawMedPolicy, RawMedPolicy)))),
    >(b, 0);
    lemma_pair::<RawMedPolicy, RawMedPolicy>(b, 48);
    lemma_pair::<
        (
            RawMedPolicy,
            (RawMedPolicy, (RawMedPolicy, (RawMedPolicy, (RawMedPolicy, RawMedPolicy)))),
        ),
        (RawMedPolicy, RawMedPolicy),
    >(b, 0);
    lemma_record::<[RawMedPolicy; MED_APPTYPE_LAST]>(b, 64, 2, 64);
}

proof fn lemma_med_policy_array_size()
    requires
        narrow_alignments(),
    ensures
        extent::<[RawMedPolicy; MED_APPTYPE_LAST]>() == 64,
        alignment::<[RawMedPolicy; MED_APPTYPE_LAST]>() == 2,
{
    med_policy_array_in_place(Seq::new(64, |i: int| 0u8));
}

/// `struct lldpd_med_loc` on a 64-bit machine.
pub proof fn med_loc_in_place_64(b: Seq<u8>)
    requires
        is_64(),
        b.len() == 24,
    ensures
        extent::<RawMedLoc>() == 24,
        alignment::<RawMedLoc>() == 8,
        ({
            let v = structure::<RawMedLoc>(b);
            &&& v.index == b[0]
            &&& v.format == b[1]
            &&& v.data == number_at(b, 8, 8)
            &&& v.data_len == signed_32(number_at(b, 16, 4))
        }),
{
    lemma_u8_field(b, 0);
    lemma_u8_field(b, 1);
    lemma_usize_field(b, 2, 8, 8);
    lemma_i32_field(b, 16, 16);
    lemma_pair::<usize, i32>(b, 2);
    lemma_pair::<u8, (usize, i32)>(b, 1);
    lemma_pair::<u8, (u8, (usize, i32))>(b, 0);
    lemma_record::<RawMedLoc>(b, 20, 8, 24);
}

proof fn lemma_med_loc_size_64()
    requires
        is_64(),
    ensures
        extent::<RawMedLoc>() == 24,
        alignment::<RawMedLoc>() == 8,
{
    med_loc_in_place_64(Seq::new(24, |i: int| 0u8));
}

/// The elements of an array of `RawMedLoc` stand one behind the other.
pub proof fn med_loc_array_in_place_64(b: Seq<u8>)
    requires
        is_64(),
        b.len() == 72,
    ensures
        extent::<[RawMedLoc; MED_LOCFORMAT_LAST]>() == 72,
        alignment::<[RawMedLoc; MED_LOCFORMAT_LAST]>() == 8,
        forall|i: int|
            0 <= i < 3 ==> #[trigger] structure::<[RawMedLoc; MED_LOCFORMAT_LAST]>(b)@[i]
                == structure::<RawMedLoc>(
                b.subrange(i * 24, i * 24 + 24),
            ),
{
    lemma_med_loc_size_64();
    lemma_field::<RawMedLoc>(b, 0, 8, 24, 0);
    lemma_field::<RawMedLoc>(b, 24, 8, 24, 24);
    lemma_field::<RawMedLoc>(b, 48, 8, 24, 48);
    lemma_pair::<RawMedLoc, RawMedLoc>(b, 24);
    lemma_pair::<RawMedLoc, (RawMedLoc, RawMedLoc)>(b, 0);
    lemma_record::<[RawMedLoc; MED_LOCFORMAT_LAST]>(b, 72, 8, 72);
}

proof fn lemma_med_loc_array_size_64()
    requires
        is_64(),
    ensures
        extent::<[RawMedLoc; MED_LOCFORMAT_LAST]>() == 72,
        alignment::<[RawMedLoc; MED_LOCFORMAT_LAST]>() == 8,
{
    med_loc_array_in_place_64(Seq::new(72, |i: int| 0u8));
}

/// `struct lldpd_med_loc` on a 32-bit machine.
pub proof fn med_loc_in_place_32(b: Seq<u8>)
    requires
        is_32(),
        b.len() == 12,
    ensures
        extent::<RawMedLoc>() == 12,
        alignment::<RawMedLoc>() == 4,
        ({
            let v = structure::<RawMedLoc>(b);
            &&& v.index == b[0]
            &&& v.format == b[1]
            &&& v.data == number_at(b, 4, 4)
            &&& v.data_len == signed_32(number_at(b, 8, 4))
        }),
{
    lemma_u8_field(b, 0);
    lemma_u8_field(b, 1);
    lemma_usize_field(b, 2, 4, 4);
    lemma_i32_field(b, 8, 8);
    lemma_pair::<usize, i32>(b, 2);
    lemma_pair::<u8, (usize, i32)>(b, 1);
    lemma_pair::<u8, (u8, (usize, i32))>(b, 0);
    lemma_record::<RawMedLoc>(b, 12, 4, 12);
}

proof fn lemma_med_loc_size_32()
    requires
        is_32(),
    ensures
        extent::<RawMedLoc>() == 12,
        alignment::<RawMedLoc>() == 4,
{
    med_loc_in_place_32(Seq::new(12, |i: int| 0u8));
}

/// The elements of an array of `RawMedLoc` stand one behind the other.
pub proof fn med_loc_array_in_place_32(b: Seq<u8>)
    requires
        is_32(),
        b.len() == 36,
    ensures
        extent::<[RawMedLoc; MED_LOCFORMAT_LAST]>() == 36,
        alignment::<[RawMedLoc; MED_LOCFORMAT_LAST]>() == 4,
        forall|i: int|
            0 <= i < 3 ==> #[trigger] structure::<[RawMedLoc; MED_LOCFORMAT_LAST]>(b)@[i]
                == structure::<RawMedLoc>(
                b.subrange(i * 12, i * 12 + 12),
            ),
{
    lemma_med_loc_size_32();
    lemma_field::<RawMedLoc>(b, 0, 4, 12, 0);
    lemma_field::<RawMedLoc>(b, 12, 4, 12, 12);
    lemma_field::<RawMedLoc>(b, 24, 4, 12, 24);
    lemma_pair::<RawMedLoc, RawMedLoc>(b, 12);
    lemma_pair::<RawMedLoc, (RawMedLoc, RawMedLoc)>(b, 0);
    lemma_record::<[RawMedLoc; MED_LOCFORMAT_LAST]>(b, 36, 4, 36);
}

proof fn lemma_med_loc_array_size_32()
    requires
        is_32(),
    ensures
        extent::<[RawMedLoc; MED_LOCFORMAT_LAST]>() == 36,
        alignment::<[RawMedLoc; MED_LOCFORMAT_LAST]>() == 4,
{
    med_loc_array_in_place_32(Seq::new(36, |i: int| 0u8));
}

/// `struct lldpd_med_power` on every machine.
pub proof fn med_power_in_place(b: Seq<u8>)
    requires
        narrow_alignments(),
        b.len() == 6,
    ensures
        extent::<RawMedPower>() == 6,
        alignment::<RawMedPower>() == 2,
        ({
            let v = structure::<RawMedPower>(b);
            &&& v.devicetype == b[0]
            &&& v.source == b[1]
            &&& v.priority == b[2]
            &&& v.val == number_at(b, 4, 2)
        }),
{
    lemma_u8_field(b, 0);
    lemma_u8_field(b, 1);
    lemma_u8_field(b, 2);
    lemma_u16_field(b, 3, 4);
    lemma_pair::<u8, u16>(b, 2);
    lemma_pair::<u8, (u8, u16)>(b, 1);
    lemma_pair::<u8, (u8, (u8, u16))>(b, 0);
    lemma_record::<RawMedPower>(b, 6, 2, 6);
}

proof fn lemma_med_power_size()
    requires
        narrow_alignments(),
    ensures
        extent::<RawMedPower>() == 6,
        alignment::<RawMedPower>() == 2,
{
    med_power_in_place(Seq::new(6, |i: int| 0u8));
}

/// `struct lldpd_dot3_macphy` on every machine.
pub proof fn dot3_macphy_in_place(b: Seq<u8>)
    requires
        narrow_alignments(),
        b.len() == 6,
    ensures
        extent::<RawDot3MacPhy>() == 6,
        alignment::<RawDot3MacPhy>() == 2,
        ({
            let v = structure::<RawDot3MacPhy>(b);
            &&& v.autoneg_support == b[0]
            &&& v.autoneg_enabled == b[1]
            &&& v.autoneg_advertised == number_at(b, 2, 2)
            &&& v.mau_type == number_at(b, 4, 2)
        }),
{
    lemma_u8_field(b, 0);
    lemma_u8_field(b, 1);
    lemma_u16_field(b, 2, 2);
    lemma_u16_field(b, 4, 4);
    lemma_pair::<u16, u16>(b, 2);
    lemma_pair::<u8, (u16, u16)>(b, 1);
    lemma_pair::<u8, (u8, (u16, u16))>(b, 0);
    lemma_record::<RawDot3MacPhy>(b, 6, 2, 6);
}

proof fn lemma_dot3_macphy_size()
    requires
        narrow_alignments(),
    ensures
        extent::<RawDot3MacPhy>() == 6,
        alignment::<RawDot3MacPhy>() == 2,
{
    dot3_macphy_in_place(Seq::new(6, |i: int| 0u8));
}

proof fn lemma_dot3_power_part_1(b: Seq<u8>)
    requires
        narrow_alignments(),
        b.len() == 36,
    ensures
        end_of::<(u8, (u8, (u8, (u8, (u8, u8)))))>(0) == 6,
        widest::<(u8, (u8, (u8, (u8, (u8, u8)))))>() == 1,
        ({
            let g = fields_at::<(u8, (u8, (u8, (u8, (u8, u8)))))>(b, 0);
            &&& g.0 == b[0]
            &&& g.1.0 == b[1]
            &&& g.1.1.0 == b[2]
            &&& g.1.1.1.0 == b[3]
            &&& g.1.1.1.1.0 == b[4]
            &&& g.1.1.1.1.1 == b[5]
        }),
{
    lemma_u8_field(b, 0);
    lemma_u8_field(b, 1);
    lemma_u8_field(b, 2);
    lemma_u8_field(b, 3);
    lemma_u8_field(b, 4);
    lemma_u8_field(b, 5);
    lemma_pair::<u8, u8>(b, 4);
    lemma_pair::<u8, (u8, u8)>(b, 3);
    lemma_pair::<u8, (u8, (u8, u8))>(b, 2);
    lemma_pair::<u8, (u8, (u8, (u8, u8)))>(b, 1);
    lemma_pair::<u8, (u8, (u8, (u8, (u8, u8))))>(b, 0);
}

proof fn lemma_dot3_power_part_2(b: Seq<u8>)
    requires
        narrow_alignments(),
        b.len() == 36,
    ensures
        end_of::<(u8, (u8, (u8, (u16, (u16, u8)))))>(6) == 15,
        widest::<(u8, (u8, (u8, (u16, (u16, u8)))))>() == 2,
        ({
            let g = fields_at::<(u8, (u8, (u8, (u16, (u16, u8)))))>(b, 6);
            &&& g.0 == b[6]
            &&& g.1.0 == b[7]
            &&& g.1.1.0 == b[8]
            &&& g.1.1.1.0 == number_at(b, 10, 2)
            &&& g.1.1.1.1.0 == number_at(b, 12, 2)
            &&& g.1.1.1.1.1 == b[14]
        }),
{
    lemma_u8_field(b, 6);
    lemma_u8_field(b, 7);
    lemma_u8_field(b, 8);
    lemma_u16_field(b, 9, 10);
    lemma_u16_field(b, 12, 12);
    lemma_u8_field(b, 14);
    lemma_pair::<u16, u8>(b, 12);
    lemma_pair::<u16, (u16, u8)>(b, 9);
    lemma_pair::<u8, (u16, (u16, u8))>(b, 8);
    lemma_pair::<u8, (u8, (u16, (u16, u8)))>(b, 7);
    lemma_pair::<u8, (u8, (u8, (u16, (u16, u8))))>(b, 6);
}

proof fn lemma_dot3_power_part_3(b: Seq<u8>)
    requires
        narrow_alignments(),
        b.len() == 36,
    ensures
        end_of::<(u16, (u16, (u16, (u16, (u16, u8)))))>(15) == 27,
        widest::<(u16, (u16, (u16, (u16, (u16, u8)))))>() == 2,
        ({
            let g = fields_at::<(u16, (u16, (u16, (u16, (u16, u8)))))>(b, 15);
            &&& g.0 == number_at(b, 16, 2)
            &&& g.1.0 == number_at(b, 18, 2)
            &&& g.1.1.0 == number_at(b, 20, 2)
            &&& g.1.1.1.0 == number_at(b, 22, 2)
            &&& g.1.1.1.1.0 == number_at(b, 24, 2)
            &&& g.1.1.1.1.1 == b[26]
        }),
{
    lemma_u16_field(b, 15, 16);
    lemma_u16_field(b, 18, 18);
    lemma_u16_field(b, 20, 20);
    lemma_u16_field(b, 22, 22);
    lemma_u16_field(b, 24, 24);
    lemma_u8_field(b, 26);
    lemma_pair::<u16, u8>(b, 24);
    lemma_pair::<u16, (u16, u8)>(b, 22);
    lemma_pair::<u16, (u16, (u16, u8))>(b, 20);
    lemma_pair::<u16, (u16, (u16, (u16, u8)))>(b, 18);
    lemma_pair::<u16, (u16, (u16, (u16, (u16, u8))))>(b, 15);
}

proof fn lemma_dot3_power_part_4(b: Seq<u8>)
    requires
        narrow_alignments(),
        b.len() == 36,
    ensures
        end_of::<(u8, (u8, (u8, (u8, (u8, u8)))))>(27) == 33,
        widest::<(u8, (u8, (u8, (u8, (u8, u8)))))>() == 1,
        ({
            let g = fields_at::<(u8, (u8, (u8, (u8, (u8, u8)))))>(b, 27);
            &&& g.0 == b[27]
            &&& g.1.0 == b[28]
            &&& g.1.1.0 == b[29]
            &&& g.1.1.1.0 == b[30]
            &&& g.1.1.1.1.0 == b[31]
            &&& g.1.1.1.1.1 == b[32]
        }),
{
    lemma_u8_field(b, 27);
    lemma_u8_field(b, 28);
    lemma_u8_field(b, 29);
    lemma_u8_field(b, 30);
    lemma_u8_field(b, 31);
    lemma_u8_field(b, 32);
    lemma_pair::<u8, u8>(b, 31);
    lemma_pair::<u8, (u8, u8)>(b, 30);
    lemma_pair::<u8, (u8, (u8, u8))>(b, 29);
    lemma_pair::<u8, (u8, (u8, (u8, u8)))>(b, 28);
    lemma_pair::<u8, (u8, (u8, (u8, (u8, u8))))>(b, 27);
}

proof fn lemma_dot3_power_part_5(b: Seq<u8>)
    requires
        narrow_alignments(),
        b.len() == 36,
    ensures
        end_of::<u16>(33) == 36,
        widest::<u16>() == 2,
        ({
            let g = fields_at::<u16>(b, 33);
            &&& g == number_at(b, 34, 2)
        }),
{
    lemma_u16_field(b, 33, 34);
}

/// `struct lldpd_dot3_power` on every machine.
pub proof fn dot3_power_in_place(b: Seq<u8>)
    requires
        narrow_alignments(),
        b.len() == 36,
    ensures
        extent::<RawDot3Power>() == 36,
        alignment::<RawDot3Power>() == 2,
        ({
            let v = structure::<RawDot3Power>(b);
            &&& v.devicetype == b[0]
            &&& v.supported == b[1]
            &&& v.enabled == b[2]
            &&& v.paircontrol == b[3]
            &&& v.pairs == b[4]
            &&& v.class == b[5]
            &&& v.powertype == b[6]
            &&& v.source == b[7]
            &&& v.priority == b[8]
            &&& v.requested == number_at(b, 10, 2)
            &&& v.allocated == number_at(b, 12, 2)
            &&& v.pd_4pid == b[14]
            &&& v.requested_a == number_at(b, 16, 2)
            &&& v.requested_b == number_at(b, 18, 2)
            &&& v.allocated_a == number_at(b, 20, 2)
            &&& v.allocated_b == number_at(b, 22, 2)
            &&& v.pse_status == number_at(b, 24, 2)
            &&& v.pd_status == b[26]
            &&& v.pse_pairs_ext == b[27]
            &&& v.class_a == b[28]
            &&& v.class_b == b[29]
            &&& v.class_ext == b[30]
            &&& v.type_ext == b[31]
            &&& v.pd_load == b[32]
            &&& v.pse_max == number_at(b, 34, 2)
        }),
{
    lemma_dot3_power_part_1(b);
    lemma_dot3_power_part_2(b);
    lemma_dot3_power_part_3(b);
    lemma_dot3_power_part_4(b);
    lemma_dot3_power_part_5(b);
    lemma_pair::<(u8, (u8, (u8, (u8, (u8, u8))))), u16>(b, 27);
    lemma_pair::<
        (u16, (u16, (u16, (u16, (u16, u8))))),
        ((u8, (u8, (u8, (u8, (u8, u8))))), u16),
    >(b, 15);
    lemma_pair::<
        (u8, (u8, (u8, (u16, (u16, u8))))),
        ((u16, (u16, (u16, (u16, (u16, u8))))), ((u8, (u8, (u8, (u8, (u8, u8))))), u16)),
    >(b, 6);
    lemma_pair::<
        (u8, (u8, (u8, (u8, (u8, u8))))),
        (
            (u8, (u8, (u8, (u16, (u16, u8))))),
            ((u16, (u16, (u16, (u16, (u16, u8))))), ((u8, (u8, (u8, (u8, (u8, u8))))), u16)),
        ),
    >(b, 0);
    lemma_record::<RawDot3Power>(b, 36, 2, 36);
}

proof fn lemma_dot3_power_size()
    requires
        narrow_alignments(),
    ensures
        extent::<RawDot3Power>() == 36,
        alignment::<RawDot3Power>() == 2,
{
    dot3_power_in_place(Seq::new(36, |i: int| 0u8));
}

/// `struct cdpv2_power` on every machine.
pub proof fn cdp_power_in_place(b: Seq<u8>)
    requires
        narrow_alignments(),
        b.len() == 4,
    ensures
        extent::<RawCdpPower>() == 4,
        alignment::<RawCdpPower>() == 2,
        ({
            let v = structure::<RawCdpPower>(b);
            &&& v.request_id == number_at(b, 0, 2)
            &&& v.management_id == number_at(b, 2, 2)
        }),
{
    lemma_u16_field(b, 0, 0);
    lemma_u16_field(b, 2, 2);
    lemma_pair::<u16, u16>(b, 0);
    lemma_record::<RawCdpPower>(b, 4, 2, 4);
}

proof fn lemma_cdp_power_size()
    requires
        narrow_alignments(),
    ensures
        extent::<RawCdpPower>() == 4,
        alignment::<RawCdpPower>() == 2,
{
    cdp_power_in_place(Seq::new(4, |i: int| 0u8));
}

proof fn lemma_chassis_part_1_64(b: Seq<u8>)
    requires
        is_64(),
        b.len() == 144,
    ensures
        end_of::<(usize, (usize, (u16, (u16, (u8, u8)))))>(0) == 22,
        widest::<(usize, (usize, (u16, (u16, (u8, u8)))))>() == 8,
        ({
            let g = fields_at::<(usize, (usize, (u16, (u16, (u8, u8)))))>(b, 0);
            &&& g.0 == number_at(b, 0, 8)
            &&& g.1.0 == number_at(b, 8, 8)
            &&& g.1.1.0 == number_at(b, 16, 2)
            &&& g.1.1.1.0 == number_at(b, 18, 2)
            &&& g.1.1.1.1.0 == b[20]
            &&& g.1.1.1.1.1 == b[21]
        }),
{
    lemma_usize_field(b, 0, 8, 0);
    lemma_usize_field(b, 8, 8, 8);
    lemma_u16_field(b, 16, 16);
    lemma_u16_field(b, 18, 18);
    lemma_u8_field(b, 20);
    lemma_u8_field(b, 21);
    lemma_pair::<u8, u8>(b, 20);
    lemma_pair::<u16, (u8, u8)>(b, 18);
    lemma_pair::<u16, (u16, (u8, u8))>(b, 16);
    lemma_pair::<usize, (u16, (u16, (u8, u8)))>(b, 8);
    lemma_pair::<usize, (usize, (u16, (u16, (u8, u8))))>(b, 0);
}

proof fn lemma_chassis_part_2_64(b: Seq<u8>)
    requires
        is_64(),
        b.len() == 144,
    ensures
        end_of::<(usize, (i32, (usize, (usize, (u16, u16)))))>(22) == 60,
        widest::<(usize, (i32, (usize, (usize, (u16, u16)))))>() == 8,
        ({
            let g = fields_at::<(usize, (i32, (usize, (usize, (u16, u16)))))>(b, 22);
            &&& g.0 == number_at(b, 24, 8)
            &&& g.1.0 == signed_32(number_at(b, 32, 4))
            &&& g.1.1.0 == number_at(b, 40, 8)
            &&& g.1.1.1.0 == number_at(b, 48, 8)
            &&& g.1.1.1.1.0 == number_at(b, 56, 2)
            &&& g.1.1.1.1.1 == number_at(b, 58, 2)
        }),
{
    lemma_usize_field(b, 22, 8, 24);
    lemma_i32_field(b, 32, 32);
    lemma_usize_field(b, 36, 8, 40);
    lemma_usize_field(b, 48, 8, 48);
    lemma_u16_field(b, 56, 56);
    lemma_u16_field(b, 58, 58);
    lemma_pair::<u16, u16>(b, 56);
    lemma_pair::<usize, (u16, u16)>(b, 48);
    lemma_pair::<usize, (usize, (u16, u16))>(b, 36);
    lemma_pair::<i32, (usize, (usize, (u16, u16)))>(b, 32);
    lemma_pair::<usize, (i32, (usize, (usize, (u16, u16))))>(b, 22);
}

proof fn lemma_chassis_part_3_64(b: Seq<u8>)
    requires
        is_64(),
        b.len() == 144,
    ensures
        end_of::<(usize, (usize, (u16, (u8, (usize, usize)))))>(60) == 104,
        widest::<(usize, (usize, (u16, (u8, (usize, usize)))))>() == 8,
        ({
            let g = fields_at::<(usize, (usize, (u16, (u8, (usize, usize)))))>(b, 60);
            &&& g.0 == number_at(b, 64, 8)
            &&& g.1.0 == number_at(b, 72, 8)
            &&& g.1.1.0 == number_at(b, 80, 2)
            &&& g.1.1.1.0 == b[82]
            &&& g.1.1.1.1.0 == number_at(b, 88, 8)
            &&& g.1.1.1.1.1 == number_at(b, 96, 8)
        }),
{
    lemma_usize_field(b, 60, 8, 64);
    lemma_usize_field(b, 72, 8, 72);
    lemma_u16_field(b, 80, 80);
    lemma_u8_field(b, 82);
    lemma_usize_field(b, 83, 8, 88);
    lemma_usize_field(b, 96, 8, 96);
    lemma_pair::<usize, usize>(b, 83);
    lemma_pair::<u8, (usize, usize)>(b, 82);
    lemma_pair::<u16, (u8, (usize, usize))>(b, 80);
    lemma_pair::<usize, (u16, (u8, (usize, usize)))>(b, 72);
    lemma_pair::<usize, (usize, (u16, (u8, (usize, usize))))>(b, 60);
}

proof fn lemma_chassis_part_4_64(b: Seq<u8>)
    requires
        is_64(),
        b.len() == 144,
    ensures
        end_of::<(usize, (usize, (usize, (usize, usize))))>(104) == 144,
        widest::<(usize, (usize, (usize, (usize, usize))))>() == 8,
        ({
            let g = fields_at::<(usize, (usize, (usize, (usize, usize))))>(b, 104);
            &&& g.0 == number_at(b, 104, 8)
            &&& g.1.0 == number_at(b, 112, 8)
            &&& g.1.1.0 == number_at(b, 120, 8)
            &&& g.1.1.1.0 == number_at(b, 128, 8)
            &&& g.1.1.1.1 == number_at(b, 136, 8)
        }),
{
    lemma_usize_field(b, 104, 8, 104);
    lemma_usize_field(b, 112, 8, 112);
    lemma_usize_field(b, 120, 8, 120);
    lemma_usize_field(b, 128, 8, 128);
    lemma_usize_field(b, 136, 8, 136);
    lemma_pair::<usize, usize>(b, 128);
    lemma_pair::<usize, (usize, usize)>(b, 120);
    lemma_pair::<usize, (usize, (usize, usize))>(b, 112);
    lemma_pair::<usize, (usize, (usize, (usize, usize)))>(b, 104);
}

/// `struct lldpd_chassis` on a 64-bit machine.
pub proof fn chassis_in_place_64(b: Seq<u8>)
    requires
        is_64(),
        b.len() == 144,
    ensures
        extent::<RawChassis>() == 144,
        alignment::<RawChassis>() == 8,
        ({
            let v = structure::<RawChassis>(b);
            &&& v.tqe_next == number_at(b, 0, 8)
            &&& v.tqe_prev == number_at(b, 8, 8)
            &&& v.c_refcount == number_at(b, 16, 2)
            &&& v.c_index == number_at(b, 18, 2)
            &&& v.c_protocol == b[20]
            &&& v.c_id_subtype == b[21]
            &&& v.c_id == number_at(b, 24, 8)
            &&& v.c_id_len == signed_32(number_at(b, 32, 4))
            &&& v.c_name == number_at(b, 40, 8)
            &&& v.c_descr == number_at(b, 48, 8)
            &&& v.c_cap_available == number_at(b, 56, 2)
            &&& v.c_cap_enabled == number_at(b, 58, 2)
            &&& v.c_mgmt_tqh_first == number_at(b, 64, 8)
            &&& v.c_mgmt_tqh_last == number_at(b, 72, 8)
            &&& v.c_med_cap_available == number_at(b, 80, 2)
            &&& v.c_med_type == b[82]
            &&& v.c_med_hw == number_at(b, 88, 8)
            &&& v.c_med_fw == number_at(b, 96, 8)
            &&& v.c_med_sw == number_at(b, 104, 8)
            &&& v.c_med_sn == number_at(b, 112, 8)
            &&& v.c_med_manuf == number_at(b, 120, 8)
            &&& v.c_med_model == number_at(b, 128, 8)
            &&& v.c_med_asset == number_at(b, 136, 8)
        }),
{
    lemma_chassis_part_1_64(b);
    lemma_chassis_part_2_64(b);
    lemma_chassis_part_3_64(b);
    lemma_chassis_part_4_64(b);
    lemma_pair::<
        (usize, (usize, (u16, (u8, (usize, usize))))),
        (usize, (usize, (usize, (usize, usize)))),
    >(b, 60);
    lemma_pair::<
        (usize, (i32, (usize, (usize, (u16, u16))))),
        (
            (usize, (usize, (u16, (u8, (usize, usize))))),
            (usize, (usize, (usize, (usize, usize)))),
        ),
    >(b, 22);
    lemma_pair::<
        (usize, (usize, (u16, (u16, (u8, u8))))),
        (
            (usize, (i32, (usize, (usize, (u16, u16))))),
            (
                (usize, (usize, (u16, (u8, (usize, usize))))),
                (usize, (usize, (usize, (usize, usize)))),
            ),
        ),
    >(b, 0);
    lemma_record::<RawChassis>(b, 144, 8, 144);
}

proof fn lemma_chassis_part_1_32(b: Seq<u8>)
    requires
        is_32(),
        b.len() == 76,
    ensures
        end_of::<(usize, (usize, (u16, (u16, (u8, u8)))))>(0) == 14,
        widest::<(usize, (usize, (u16, (u16, (u8, u8)))))>() == 4,
        ({
            let g = fields_at::<(usize, (usize, (u16, (u16, (u8, u8)))))>(b, 0);
            &&& g.0 == number_at(b, 0, 4)
            &&& g.1.0 == number_at(b, 4, 4)
            &&& g.1.1.0 == number_at(b, 8, 2)
            &&& g.1.1.1.0 == number_at(b, 10, 2)
            &&& g.1.1.1.1.0 == b[12]
            &&& g.1.1.1.1.1 == b[13]
        }),
{
    lemma_usize_field(b, 0, 4, 0);
    lemma_usize_field(b, 4, 4, 4);
    lemma_u16_field(b, 8, 8);
    lemma_u16_field(b, 10, 10);
    lemma_u8_field(b, 12);
    lemma_u8_field(b, 13);
    lemma_pair::<u8, u8>(b, 12);
    lemma_pair::<u16, (u8, u8)>(b, 10);
    lemma_pair::<u16, (u16, (u8, u8))>(b, 8);
    lemma_pair::<usize, (u16, (u16, (u8, u8)))>(b, 4);
    lemma_pair::<usize, (usize, (u16, (u16, (u8, u8))))>(b, 0);
}

proof fn lemma_chassis_part_2_32(b: Seq<u8>)
    requires
        is_32(),
        b.len() == 76,
    ensures
        end_of::<(usize, (i32, (usize, (usize, (u16, u16)))))>(14) == 36,
        widest::<(usize, (i32, (usize, (usize, (u16, u16)))))>() == 4,
        ({
            let g = fields_at::<(usize, (i32, (usize, (usize, (u16, u16)))))>(b, 14);
            &&& g.0 == number_at(b, 16, 4)
            &&& g.1.0 == signed_32(number_at(b, 20, 4))
            &&& g.1.1.0 == number_at(b, 24, 4)
            &&& g.1.1.1.0 == number_at(b, 28, 4)
            &&& g.1.1.1.1.0 == number_at(b, 32, 2)
            &&& g.1.1.1.1.1 == number_at(b, 34, 2)
        }),
{
    lemma_usize_field(b, 14, 4, 16);
    lemma_i32_field(b, 20, 20);
    lemma_usize_field(b, 24, 4, 24);
    lemma_usize_field(b, 28, 4, 28);
    lemma_u16_field(b, 32, 32);
    lemma_u16_field(b, 34, 34);
    lemma_pair::<u16, u16>(b, 32);
    lemma_pair::<usize, (u16, u16)>(b, 28);
    lemma_pair::<usize, (usize, (u16, u16))>(b, 24);
    lemma_pair::<i32, (usize, (usize, (u16, u16)))>(b, 20);
    lemma_pair::<usize, (i32, (usize, (usize, (u16, u16))))>(b, 14);
}

proof fn lemma_chassis_part_3_32(b: Seq<u8>)
    requires
        is_32(),
        b.len() == 76,
    ensures
        end_of::<(usize, (usize, (u16, (u8, (usize, usize)))))>(36) == 56,
        widest::<(usize, (usize, (u16, (u8, (usize, usize)))))>() == 4,
        ({
            let g = fields_at::<(usize, (usize, (u16, (u8, (usize, usize)))))>(b, 36);
            &&& g.0 == number_at(b, 36, 4)
            &&& g.1.0 == number_at(b, 40, 4)
            &&& g.1.1.0 == number_at(b, 44, 2)
            &&& g.1.1.1.0 == b[46]
            &&& g.1.1.1.1.0 == number_at(b, 48, 4)
            &&& g.1.1.1.1.1 == number_at(b, 52, 4)
        }),
{
    lemma_usize_field(b, 36, 4, 36);
    lemma_usize_field(b, 40, 4, 40);
    lemma_u16_field(b, 44, 44);
    lemma_u8_field(b, 46);
    lemma_usize_field(b, 47, 4, 48);
    lemma_usize_field(b, 52, 4, 52);
    lemma_pair::<usize, usize>(b, 47);
    lemma_pair::<u8, (usize, usize)>(b, 46);
    lemma_pair::<u16, (u8, (usize, usize))>(b, 44);
    lemma_pair::<usize, (u16, (u8, (usize, usize)))>(b, 40);
    lemma_pair::<usize, (usize, (u16, (u8, (usize, usize))))>(b, 36);
}

proof fn lemma_chassis_part_4_32(b: Seq<u8>)
    requires
        is_32(),
        b.len() == 76,
    ensures
        end_of::<(usize, (usize, (usize, (usize, usize))))>(56) == 76,
        widest::<(usize, (usize, (usize, (usize, usize))))>() == 4,
        ({
            let g = fields_at::<(usize, (usize, (usize, (usize, usize))))>(b, 56);
            &&& g.0 == number_at(b, 56, 4)
            &&& g.1.0 == number_at(b, 60, 4)
            &&& g.1.1.0 == number_at(b, 64, 4)
            &&& g.1.1.1.0 == number_at(b, 68, 4)
            &&& g.1.1.1.1 == number_at(b, 72, 4)
        }),
{
    lemma_usize_field(b, 56, 4, 56);
    lemma_usize_field(b, 60, 4, 60);
    lemma_usize_field(b, 64, 4, 64);
    lemma_usize_field(b, 68, 4, 68);
    lemma_usize_field(b, 72, 4, 72);
    lemma_pair::<usize, usize>(b, 68);
    lemma_pair::<usize, (usize, usize)>(b, 64);
    lemma_pair::<usize, (usize, (usize, usize))>(b, 60);
    lemma_pair::<usize, (usize, (usize, (usize, usize)))>(b, 56);
}

/// `struct lldpd_chassis` on a 32-bit machine.
pub proof fn chassis_in_place_32(b: Seq<u8>)
    requires
        is_32(),
        b.len() == 76,
    ensures
        extent::<RawChassis>() == 76,
        alignment::<RawChassis>() == 4,
        ({
            let v = structure::<RawChassis>(b);
            &&& v.tqe_next == number_at(b, 0, 4)
            &&& v.tqe_prev == number_at(b, 4, 4)
            &&& v.c_refcount == number_at(b, 8, 2)
            &&& v.c_index == number_at(b, 10, 2)
            &&& v.c_protocol == b[12]
            &&& v.c_id_subtype == b[13]
            &&& v.c_id == number_at(b, 16, 4)
            &&& v.c_id_len == signed_32(number_at(b, 20, 4))
            &&& v.c_name == number_at(b, 24, 4)
            &&& v.c_descr == number_at(b, 28, 4)
            &&& v.c_cap_available == number_at(b, 32, 2)
            &&& v.c_cap_enabled == number_at(b, 34, 2)
            &&& v.c_mgmt_tqh_first == number_at(b, 36, 4)
            &&& v.c_mgmt_tqh_last == number_at(b, 40, 4)
            &&& v.c_med_cap_available == number_at(b, 44, 2)
            &&& v.c_med_type == b[46]
            &&& v.c_med_hw == number_at(b, 48, 4)
            &&& v.c_med_fw == number_at(b, 52, 4)
            &&& v.c_med_sw == number_at(b, 56, 4)
            &&& v.c_med_sn == number_at(b, 60, 4)
            &&& v.c_med_manuf == number_at(b, 64, 4)
            &&& v.c_med_model == number_at(b, 68, 4)
            &&& v.c_med_asset == number_at(b, 72, 4)
        }),
{
    lemma_chassis_part_1_32(b);
    lemma_chassis_part_2_32(b);
    lemma_chassis_part_3_32(b);
    lemma_chassis_part_4_32(b);
    lemma_pair::<
        (usize, (usize, (u16, (u8, (usize, usize))))),
        (usize, (usize, (usize, (usize, usize)))),
    >(b, 36);
    lemma_pair::<
        (usize, (i32, (usize, (usize, (u16, u16))))),
        (
            (usize, (usize, (u16, (u8, (usize, usize))))),
            (usize, (usize, (usize, (usize, usize)))),
        ),
    >(b, 14);
    lemma_pair::<
        (usize, (usize, (u16, (u16, (u8, u8))))),
        (
            (usize, (i32, (usize, (usize, (u16, u16))))),
            (
                (usize, (usize, (u16, (u8, (usize, usize))))),
                (usize, (usize, (usize, (usize, usize)))),
            ),
        ),
    >(b, 0);
    lemma_record::<RawChassis>(b, 76, 4, 76);
}

proof fn lemma_port_part_1_64(b: Seq<u8>)
    requires
        is_64(),
        b.len() == 368,
    ensures
        end_of::<(usize, (usize, (usize, (isize, (isize, isize)))))>(0) == 48,
        widest::<(usize, (usize, (usize, (isize, (isize, isize)))))>() == 8,
        ({
            let g = fields_at::<(usize, (usize, (usize, (isize, (isize, isize)))))>(b, 0);
            &&& g.0 == number_at(b, 0, 8)
            &&& g.1.0 == number_at(b, 8, 8)
            &&& g.1.1.0 == number_at(b, 16, 8)
            &&& g.1.1.1.0 == isize::decode(b.subrange(24, 32))
            &&& g.1.1.1.1.0 == isize::decode(b.subrange(32, 40))
            &&& g.1.1.1.1.1 == isize::decode(b.subrange(40, 48))
        }),
{
    lemma_usize_field(b, 0, 8, 0);
    lemma_usize_field(b, 8, 8, 8);
    lemma_usize_field(b, 16, 8, 16);
    lemma_isize_field(b, 24, 8, 24);
    lemma_isize_field(b, 32, 8, 32);
    lemma_isize_field(b, 40, 8, 40);
    lemma_pair::<isize, isize>(b, 32);
    lemma_pair::<isize, (isize, isize)>(b, 24);
    lemma_pair::<usize, (isize, (isize, isize))>(b, 16);
    lemma_pair::<usize, (usize, (isize, (isize, isize)))>(b, 8);
    lemma_pair::<usize, (usize, (usize, (isize, (isize, isize))))>(b, 0);
}

proof fn lemma_port_part_2_64(b: Seq<u8>)
    requires
        is_64(),
        b.len() == 368,
    ensures
        end_of::<(usize, (u8, (u8, (i32, (u8, usize)))))>(48) == 80,
        widest::<(usize, (u8, (u8, (i32, (u8, usize)))))>() == 8,
        ({
            let g = fields_at::<(usize, (u8, (u8, (i32, (u8, usize)))))>(b, 48);
            &&& g.0 == number_at(b, 48, 8)
            &&& g.1.0 == b[56]
            &&& g.1.1.0 == b[57]
            &&& g.1.1.1.0 == signed_32(number_at(b, 60, 4))
            &&& g.1.1.1.1.0 == b[64]
            &&& g.1.1.1.1.1 == number_at(b, 72, 8)
        }),
{
    lemma_usize_field(b, 48, 8, 48);
    lemma_u8_field(b, 56);
    lemma_u8_field(b, 57);
    lemma_i32_field(b, 58, 60);
    lemma_u8_field(b, 64);
    lemma_usize_field(b, 65, 8, 72);
    lemma_pair::<u8, usize>(b, 64);
    lemma_pair::<i32, (u8, usize)>(b, 58);
    lemma_pair::<u8, (i32, (u8, usize))>(b, 57);
    lemma_pair::<u8, (u8, (i32, (u8, usize)))>(b, 56);
    lemma_pair::<usize, (u8, (u8, (i32, (u8, usize))))>(b, 48);
}

proof fn lemma_port_part_3_64(b: Seq<u8>)
    requires
        is_64(),
        b.len() == 368,
    ensures
        end_of::<(i32, (usize, (i32, (u16, (u16, i32)))))>(80) == 108,
        widest::<(i32, (usize, (i32, (u16, (u16, i32)))))>() == 8,
        ({
            let g = fields_at::<(i32, (usize, (i32, (u16, (u16, i32)))))>(b, 80);
            &&& g.0 == signed_32(number_at(b, 80, 4))
            &&& g.1.0 == number_at(b, 88, 8)
            &&& g.1.1.0 == signed_32(number_at(b, 96, 4))
            &&& g.1.1.1.0 == number_at(b, 100, 2)
            &&& g.1.1.1.1.0 == number_at(b, 102, 2)
            &&& g.1.1.1.1.1 == signed_32(number_at(b, 104, 4))
        }),
{
    lemma_i32_field(b, 80, 80);
    lemma_usize_field(b, 84, 8, 88);
    lemma_i32_field(b, 96, 96);
    lemma_u16_field(b, 100, 100);
    lemma_u16_field(b, 102, 102);
    lemma_i32_field(b, 104, 104);
    lemma_pair::<u16, i32>(b, 102);
    lemma_pair::<u16, (u16, i32)>(b, 100);
    lemma_pair::<i32, (u16, (u16, i32))>(b, 96);
    lemma_pair::<usize, (i32, (u16, (u16, i32)))>(b, 84);
    lemma_pair::<i32, (usize, (i32, (u16, (u16, i32))))>(b, 80);
}

proof fn lemma_port_part_4_64(b: Seq<u8>)
    requires
        is_64(),
        b.len() == 368,
    ensures
        end_of::<(i32, (usize, (u32, (RawDot3MacPhy, (RawDot3Power, u16)))))>(108) == 168,
        widest::<(i32, (usize, (u32, (RawDot3MacPhy, (RawDot3Power, u16)))))>() == 8,
        ({
            let g = fields_at::<
                (i32, (usize, (u32, (RawDot3MacPhy, (RawDot3Power, u16))))),
            >(b, 108);
            &&& g.0 == signed_32(number_at(b, 108, 4))
            &&& g.1.0 == number_at(b, 112, 8)
            &&& g.1.1.0 == number_at(b, 120, 4)
            &&& g.1.1.1.0 == structure::<RawDot3MacPhy>(b.subrange(124, 130))
            &&& g.1.1.1.1.0 == structure::<RawDot3Power>(b.subrange(130, 166))
            &&& g.1.1.1.1.1 == number_at(b, 166, 2)
        }),
{
    lemma_i32_field(b, 108, 108);
    lemma_usize_field(b, 112, 8, 112);
    lemma_u32_field(b, 120, 120);
    lemma_dot3_macphy_size();
    lemma_field::<RawDot3MacPhy>(b, 124, 2, 6, 124);
    lemma_dot3_power_size();
    lemma_field::<RawDot3Power>(b, 130, 2, 36, 130);
    lemma_u16_field(b, 166, 166);
    lemma_pair::<RawDot3Power, u16>(b, 130);
    lemma_pair::<RawDot3MacPhy, (RawDot3Power, u16)>(b, 124);
    lemma_pair::<u32, (RawDot3MacPhy, (RawDot3Power, u16))>(b, 120);
    lemma_pair::<usize, (u32, (RawDot3MacPhy, (RawDot3Power, u16)))>(b, 112);
    lemma_pair::<i32, (usize, (u32, (RawDot3MacPhy, (RawDot3Power, u16))))>(b, 108);
}

proof fn lemma_port_part_5_64(b: Seq<u8>)
    requires
        is_64(),
        b.len() == 368,
    ensures
        end_of::<
            (
                [RawMedPolicy; MED_APPTYPE_LAST],
                ([RawMedLoc; MED_LOCFORMAT_LAST], (RawMedPower, (RawCdpPower, (u16, usize)))),
            ),
        >(168) == 328,
        widest::<
            (
                [RawMedPolicy; MED_APPTYPE_LAST],
                ([RawMedLoc; MED_LOCFORMAT_LAST], (RawMedPower, (RawCdpPower, (u16, usize)))),
            ),
        >() == 8,
        ({
            let g = fields_at::<
                (
                    [RawMedPolicy; MED_APPTYPE_LAST],
                    (
                        [RawMedLoc; MED_LOCFORMAT_LAST],
                        (RawMedPower, (RawCdpPower, (u16, usize))),
                    ),
                ),
            >(b, 168);
            &&& g.0 == structure::<[RawMedPolicy; MED_APPTYPE_LAST]>(b.subrange(168, 232))
            &&& g.1.0 == structure::<[RawMedLoc; MED_LOCFORMAT_LAST]>(b.subrange(232, 304))
            &&& g.1.1.0 == structure::<RawMedPower>(b.subrange(304, 310))
            &&& g.1.1.1.0 == structure::<RawCdpPower>(b.subrange(310, 314))
            &&& g.1.1.1.1.0 == number_at(b, 314, 2)
            &&& g.1.1.1.1.1 == number_at(b, 320, 8)
        }),
{
    lemma_med_policy_array_size();
    lemma_field::<[RawMedPolicy; MED_APPTYPE_LAST]>(b, 168, 2, 64, 168);
    lemma_med_loc_array_size_64();
    lemma_field::<[RawMedLoc; MED_LOCFORMAT_LAST]>(b, 232, 8, 72, 232);
    lemma_med_power_size();
    lemma_field::<RawMedPower>(b, 304, 2, 6, 304);
    lemma_cdp_power_size();
    lemma_field::<RawCdpPower>(b, 310, 2, 4, 310);
    lemma_u16_field(b, 314, 314);
    lemma_usize_field(b, 316, 8, 320);
    lemma_pair::<u16, usize>(b, 314);
    lemma_pair::<RawCdpPower, (u16, usize)>(b, 310);
    lemma_pair::<RawMedPower, (RawCdpPower, (u16, usize))>(b, 304);
    lemma_pair::<
        [RawMedLoc; MED_LOCFORMAT_LAST],
        (RawMedPower, (RawCdpPower, (u16, usize))),
    >(b, 232);
    lemma_pair::<
        [RawMedPolicy; MED_APPTYPE_LAST],
        ([RawMedLoc; MED_LOCFORMAT_LAST], (RawMedPower, (RawCdpPower, (u16, usize)))),
    >(b, 168);
}

proof fn lemma_port_part_6_64(b: Seq<u8>)
    requires
        is_64(),
        b.len() == 368,
    ensures
        end_of::<(usize, (usize, (usize, (usize, usize))))>(328) == 368,
        widest::<(usize, (usize, (usize, (usize, usize))))>() == 8,
        ({
            let g = fields_at::<(usize, (usize, (usize, (usize, usize))))>(b, 328);
            &&& g.0 == number_at(b, 328, 8)
            &&& g.1.0 == number_at(b, 336, 8)
            &&& g.1.1.0 == number_at(b, 344, 8)
            &&& g.1.1.1.0 == number_at(b, 352, 8)
            &&& g.1.1.1.1 == number_at(b, 360, 8)
        }),
{
    lemma_usize_field(b, 328, 8, 328);
    lemma_usize_field(b, 336, 8, 336);
    lemma_usize_field(b, 344, 8, 344);
    lemma_usize_field(b, 352, 8, 352);
    lemma_usize_field(b, 360, 8, 360);
    lemma_pair::<usize, usize>(b, 352);
    lemma_pair::<usize, (usize, usize)>(b, 344);
    lemma_pair::<usize, (usize, (usize, usize))>(b, 336);
    lemma_pair::<usize, (usize, (usize, (usize, usize)))>(b, 328);
}

/// `struct lldpd_port` on a 64-bit machine.
pub proof fn port_in_place_64(b: Seq<u8>)
    requires
        is_64(),
        b.len() == 368,
    ensures
        extent::<RawPort>() == 368,
        alignment::<RawPort>() == 8,
        ({
            let v = structure::<RawPort>(b);
            &&& v.tqe_next == number_at(b, 0, 8)
            &&& v.tqe_prev == number_at(b, 8, 8)
            &&& v.p_chassis == number_at(b, 16, 8)
            &&& v.p_lastchange == isize::decode(b.subrange(24, 32))
            &&& v.p_lastupdate == isize::decode(b.subrange(32, 40))
            &&& v.p_lastremove == isize::decode(b.subrange(40, 48))
            &&& v.p_lastframe == number_at(b, 48, 8)
            &&& v.p_protocol == b[56]
            &&& v.p_bitfield_flags == b[57]
            &&& v.p_hardware_flags == signed_32(number_at(b, 60, 4))
            &&& v.p_id_subtype == b[64]
            &&& v.p_id == number_at(b, 72, 8)
            &&& v.p_id_len == signed_32(number_at(b, 80, 4))
            &&& v.p_descr == number_at(b, 88, 8)
            &&& v.p_descr_force == signed_32(number_at(b, 96, 4))
            &&& v.p_mfs == number_at(b, 100, 2)
            &&& v.p_ttl == number_at(b, 102, 2)
            &&& v.p_vlan_tx_tag == signed_32(number_at(b, 104, 4))
            &&& v.p_vlan_tx_enabled == signed_32(number_at(b, 108, 4))
            &&& v.p_vlan_advertise_pattern == number_at(b, 112, 8)
            &&& v.p_aggregid == number_at(b, 120, 4)
            &&& v.p_macphy == structure::<RawDot3MacPhy>(b.subrange(124, 130))
            &&& v.p_power == structure::<RawDot3Power>(b.subrange(130, 166))
            &&& v.p_med_cap_enabled == number_at(b, 166, 2)
            &&& v.p_med_policy == structure::<[RawMedPolicy; MED_APPTYPE_LAST]>(
                b.subrange(168, 232),
            )
            &&& v.p_med_location == structure::<[RawMedLoc; MED_LOCFORMAT_LAST]>(
                b.subrange(232, 304),
            )
            &&& v.p_med_power == structure::<RawMedPower>(b.subrange(304, 310))
            &&& v.p_cdp_power == structure::<RawCdpPower>(b.subrange(310, 314))
            &&& v.p_pvid == number_at(b, 314, 2)
            &&& v.p_vlans_tqh_first == number_at(b, 320, 8)
            &&& v.p_vlans_tqh_last == number_at(b, 328, 8)
            &&& v.p_ppvids_tqh_first == number_at(b, 336, 8)
            &&& v.p_ppvids_tqh_last == number_at(b, 344, 8)
            &&& v.p_pids_tqh_first == number_at(b, 352, 8)
            &&& v.p_pids_tqh_last == number_at(b, 360, 8)
        }),
{
    lemma_port_part_1_64(b);
    lemma_port_part_2_64(b);
    lemma_port_part_3_64(b);
    lemma_port_part_4_64(b);
    lemma_port_part_5_64(b);
    lemma_port_part_6_64(b);
    lemma_pair::<
        (
            [RawMedPolicy; MED_APPTYPE_LAST],
            ([RawMedLoc; MED_LOCFORMAT_LAST], (RawMedPower, (RawCdpPower, (u16, usize)))),
        ),
        (usize, (usize, (usize, (usize, usize)))),
    >(b, 168);
    lemma_pair::<
        (i32, (usize, (u32, (RawDot3MacPhy, (RawDot3Power, u16))))),
        (
            (
                [RawMedPolicy; MED_APPTYPE_LAST],
                ([RawMedLoc; MED_LOCFORMAT_LAST], (RawMedPower, (RawCdpPower, (u16, usize)))),
            ),
            (usize, (usize, (usize, (usize, usize)))),
        ),
    >(b, 108);
    lemma_pair::<
        (i32, (usize, (i32, (u16, (u16, i32))))),
        (
            (i32, (usize, (u32, (RawDot3MacPhy, (RawDot3Power, u16))))),
            (
                (
                    [RawMedPolicy; MED_APPTYPE_LAST],
                    (
                        [RawMedLoc; MED_LOCFORMAT_LAST],
                        (RawMedPower, (RawCdpPower, (u16, usize))),
                    ),
                ),
                (usize, (usize, (usize, (usize, usize)))),
            ),
        ),
    >(b, 80);
    lemma_pair::<
        (usize, (u8, (u8, (i32, (u8, usize))))),
        (
            (i32, (usize, (i32, (u16, (u16, i32))))),
            (
                (i32, (usize, (u32, (RawDot3MacPhy, (RawDot3Power, u16))))),
                (
                    (
                        [RawMedPolicy; MED_APPTYPE_LAST],
                        (
                            [RawMedLoc; MED_LOCFORMAT_LAST],
                            (RawMedPower, (RawCdpPower, (u16, usize))),
                        ),
                    ),
                    (usize, (usize, (usize, (usize, usize)))),
                ),
            ),
        ),
    >(b, 48);
    lemma_pair::<
        (usize, (usize, (usize, (isize, (isize, isize))))),
        (
            (usize, (u8, (u8, (i32, (u8, usize))))),
            (
                (i32, (usize, (i32, (u16, (u16, i32))))),
                (
                    (i32, (usize, (u32, (RawDot3MacPhy, (RawDot3Power, u16))))),
                    (
                        (
                            [RawMedPolicy; MED_APPTYPE_LAST],
                            (
                                [RawMedLoc; MED_LOCFORMAT_LAST],
                                (RawMedPower, (RawCdpPower, (u16, usize))),
                            ),
                        ),
                        (usize, (usize, (usize, (usize, usize)))),
                    ),
                ),
            ),
        ),
    >(b, 0);
    lemma_record::<RawPort>(b, 368, 8, 368);
}

proof fn lemma_port_size_64()
    requires
        is_64(),
    ensures
        extent::<RawPort>() == 368,
        alignment::<RawPort>() == 8,
{
    port_in_place_64(Seq::new(368, |i: int| 0u8));
}

proof fn lemma_port_part_1_32(b: Seq<u8>)
    requires
        is_32(),
        b.len() == 256,
    ensures
        end_of::<(usize, (usize, (usize, (isize, (isize, isize)))))>(0) == 24,
        widest::<(usize, (usize, (usize, (isize, (isize, isize)))))>() == 4,
        ({
            let g = fields_at::<(usize, (usize, (usize, (isize, (isize, isize)))))>(b, 0);
            &&& g.0 == number_at(b, 0, 4)
            &&& g.1.0 == number_at(b, 4, 4)
            &&& g.1.1.0 == number_at(b, 8, 4)
            &&& g.1.1.1.0 == isize::decode(b.subrange(12, 16))
            &&& g.1.1.1.1.0 == isize::decode(b.subrange(16, 20))
            &&& g.1.1.1.1.1 == isize::decode(b.subrange(20, 24))
        }),
{
    lemma_usize_field(b, 0, 4, 0);
    lemma_usize_field(b, 4, 4, 4);
    lemma_usize_field(b, 8, 4, 8);
    lemma_isize_field(b, 12, 4, 12);
    lemma_isize_field(b, 16, 4, 16);
    lemma_isize_field(b, 20, 4, 20);
    lemma_pair::<isize, isize>(b, 16);
    lemma_pair::<isize, (isize, isize)>(b, 12);
    lemma_pair::<usize, (isize, (isize, isize))>(b, 8);
    lemma_pair::<usize, (usize, (isize, (isize, isize)))>(b, 4);
    lemma_pair::<usize, (usize, (usize, (isize, (isize, isize))))>(b, 0);
}

proof fn lemma_port_part_2_32(b: Seq<u8>)
    requires
        is_32(),
        b.len() == 256,
    ensures
        end_of::<(usize, (u8, (u8, (i32, (u8, usize)))))>(24) == 44,
        widest::<(usize, (u8, (u8, (i32, (u8, usize)))))>() == 4,
        ({
            let g = fields_at::<(usize, (u8, (u8, (i32, (u8, usize)))))>(b, 24);
            &&& g.0 == number_at(b, 24, 4)
            &&& g.1.0 == b[28]
            &&& g.1.1.0 == b[29]
            &&& g.1.1.1.0 == signed_32(number_at(b, 32, 4))
            &&& g.1.1.1.1.0 == b[36]
            &&& g.1.1.1.1.1 == number_at(b, 40, 4)
        }),
{
    lemma_usize_field(b, 24, 4, 24);
    lemma_u8_field(b, 28);
    lemma_u8_field(b, 29);
    lemma_i32_field(b, 30, 32);
    lemma_u8_field(b, 36);
    lemma_usize_field(b, 37, 4, 40);
    lemma_pair::<u8, usize>(b, 36);
    lemma_pair::<i32, (u8, usize)>(b, 30);
    lemma_pair::<u8, (i32, (u8, usize))>(b, 29);
    lemma_pair::<u8, (u8, (i32, (u8, usize)))>(b, 28);
    lemma_pair::<usize, (u8, (u8, (i32, (u8, usize))))>(b, 24);
}

proof fn lemma_port_part_3_32(b: Seq<u8>)
    requires
        is_32(),
        b.len() == 256,
    ensures
        end_of::<(i32, (usize, (i32, (u16, (u16, i32)))))>(44) == 64,
        widest::<(i32, (usize, (i32, (u16, (u16, i32)))))>() == 4,
        ({
            let g = fields_at::<(i32, (usize, (i32, (u16, (u16, i32)))))>(b, 44);
            &&& g.0 == signed_32(number_at(b, 44, 4))
            &&& g.1.0 == number_at(b, 48, 4)
            &&& g.1.1.0 == signed_32(number_at(b, 52, 4))
            &&& g.1.1.1.0 == number_at(b, 56, 2)
            &&& g.1.1.1.1.0 == number_at(b, 58, 2)
            &&& g.1.1.1.1.1 == signed_32(number_at(b, 60, 4))
        }),
{
    lemma_i32_field(b, 44, 44);
    lemma_usize_field(b, 48, 4, 48);
    lemma_i32_field(b, 52, 52);
    lemma_u16_field(b, 56, 56);
    lemma_u16_field(b, 58, 58);
    lemma_i32_field(b, 60, 60);
    lemma_pair::<u16, i32>(b, 58);
    lemma_pair::<u16, (u16, i32)>(b, 56);
    lemma_pair::<i32, (u16, (u16, i32))>(b, 52);
    lemma_pair::<usize, (i32, (u16, (u16, i32)))>(b, 48);
    lemma_pair::<i32, (usize, (i32, (u16, (u16, i32))))>(b, 44);
}

proof fn lemma_port_part_4_32(b: Seq<u8>)
    requires
        is_32(),
        b.len() == 256,
    ensures
        end_of::<(i32, (usize, (u32, (RawDot3MacPhy, (RawDot3Power, u16)))))>(64) == 120,
        widest::<(i32, (usize, (u32, (RawDot3MacPhy, (RawDot3Power, u16)))))>() == 4,
        ({
            let g = fields_at::<(i32, (usize, (u32, (RawDot3MacPhy, (RawDot3Power, u16)))))>(b, 64);
            &&& g.0 == signed_32(number_at(b, 64, 4))
            &&& g.1.0 == number_at(b, 68, 4)
            &&& g.1.1.0 == number_at(b, 72, 4)
            &&& g.1.1.1.0 == structure::<RawDot3MacPhy>(b.subrange(76, 82))
            &&& g.1.1.1.1.0 == structure::<RawDot3Power>(b.subrange(82, 118))
            &&& g.1.1.1.1.1 == number_at(b, 118, 2)
        }),
{
    lemma_i32_field(b, 64, 64);
    lemma_usize_field(b, 68, 4, 68);
    lemma_u32_field(b, 72, 72);
    lemma_dot3_macphy_size();
    lemma_field::<RawDot3MacPhy>(b, 76, 2, 6, 76);
    lemma_dot3_power_size();
    lemma_field::<RawDot3Power>(b, 82, 2, 36, 82);
    lemma_u16_field(b, 118, 118);
    lemma_pair::<RawDot3Power, u16>(b, 82);
    lemma_pair::<RawDot3MacPhy, (RawDot3Power, u16)>(b, 76);
    lemma_pair::<u32, (RawDot3MacPhy, (RawDot3Power, u16))>(b, 72);
    lemma_pair::<usize, (u32, (RawDot3MacPhy, (RawDot3Power, u16)))>(b, 68);
    lemma_pair::<i32, (usize, (u32, (RawDot3MacPhy, (RawDot3Power, u16))))>(b, 64);
}

proof fn lemma_port_part_5_32(b: Seq<u8>)
    requires
        is_32(),
        b.len() == 256,
    ensures
        end_of::<
            (
                [RawMedPolicy; MED_APPTYPE_LAST],
                ([RawMedLoc; MED_LOCFORMAT_LAST], (RawMedPower, (RawCdpPower, (u16, usize)))),
            ),
        >(120) == 236,
        widest::<
            (
                [RawMedPolicy; MED_APPTYPE_LAST],
                ([RawMedLoc; MED_LOCFORMAT_LAST], (RawMedPower, (RawCdpPower, (u16, usize)))),
            ),
        >() == 4,
        ({
            let g = fields_at::<
                (
                    [RawMedPolicy; MED_APPTYPE_LAST],
                    (
                        [RawMedLoc; MED_LOCFORMAT_LAST],
                        (RawMedPower, (RawCdpPower, (u16, usize))),
                    ),
                ),
            >(b, 120);
            &&& g.0 == structure::<[RawMedPolicy; MED_APPTYPE_LAST]>(b.subrange(120, 184))
            &&& g.1.0 == structure::<[RawMedLoc; MED_LOCFORMAT_LAST]>(b.subrange(184, 220))
            &&& g.1.1.0 == structure::<RawMedPower>(b.subrange(220, 226))
            &&& g.1.1.1.0 == structure::<RawCdpPower>(b.subrange(226, 230))
            &&& g.1.1.1.1.0 == number_at(b, 230, 2)
            &&& g.1.1.1.1.1 == number_at(b, 232, 4)
        }),
{
    lemma_med_policy_array_size();
    lemma_field::<[RawMedPolicy; MED_APPTYPE_LAST]>(b, 120, 2, 64, 120);
    lemma_med_loc_array_size_32();
    lemma_field::<[RawMedLoc; MED_LOCFORMAT_LAST]>(b, 184, 4, 36, 184);
    lemma_med_power_size();
    lemma_field::<RawMedPower>(b, 220, 2, 6, 220);
    lemma_cdp_power_size();
    lemma_field::<RawCdpPower>(b, 226, 2, 4, 226);
    lemma_u16_field(b, 230, 230);
    lemma_usize_field(b, 232, 4, 232);
    lemma_pair::<u16, usize>(b, 230);
    lemma_pair::<RawCdpPower, (u16, usize)>(b, 226);
    lemma_pair::<RawMedPower, (RawCdpPower, (u16, usize))>(b, 220);
    lemma_pair::<
        [RawMedLoc; MED_LOCFORMAT_LAST],
        (RawMedPower, (RawCdpPower, (u16, usize))),
    >(b, 184);
    lemma_pair::<
        [RawMedPolicy; MED_APPTYPE_LAST],
        ([RawMedLoc; MED_LOCFORMAT_LAST], (RawMedPower, (RawCdpPower, (u16, usize)))),
    >(b, 120);
}

proof fn lemma_port_part_6_32(b: Seq<u8>)
    requires
        is_32(),
        b.len() == 256,
    ensures
        end_of::<(usize, (usize, (usize, (usize, usize))))>(236) == 256,
        widest::<(usize, (usize, (usize, (usize, usize))))>() == 4,
        ({
            let g = fields_at::<(usize, (usize, (usize, (usize, usize))))>(b, 236);
            &&& g.0 == number_at(b, 236, 4)
            &&& g.1.0 == number_at(b, 240, 4)
            &&& g.1.1.0 == number_at(b, 244, 4)
            &&& g.1.1.1.0 == number_at(b, 248, 4)
            &&& g.1.1.1.1 == number_at(b, 252, 4)
        }),
{
    lemma_usize_field(b, 236, 4, 236);
    lemma_usize_field(b, 240, 4, 240);
    lemma_usize_field(b, 244, 4, 244);
    lemma_usize_field(b, 248, 4, 248);
    lemma_usize_field(b, 252, 4, 252);
    lemma_pair::<usize, usize>(b, 248);
    lemma_pair::<usize, (usize, usize)>(b, 244);
    lemma_pair::<usize, (usize, (usize, usize))>(b, 240);
    lemma_pair::<usize, (usize, (usize, (usize, usize)))>(b, 236);
}

/// `struct lldpd_port` on a 32-bit machine.
pub proof fn port_in_place_32(b: Seq<u8>)
    requires
        is_32(),
        b.len() == 256,
    ensures
        extent::<RawPort>() == 256,
        alignment::<RawPort>() == 4,
        ({
            let v = structure::<RawPort>(b);
            &&& v.tqe_next == number_at(b, 0, 4)
            &&& v.tqe_prev == number_at(b, 4, 4)
            &&& v.p_chassis == number_at(b, 8, 4)
            &&& v.p_lastchange == isize::decode(b.subrange(12, 16))
            &&& v.p_lastupdate == isize::decode(b.subrange(16, 20))
            &&& v.p_lastremove == isize::decode(b.subrange(20, 24))
            &&& v.p_lastframe == number_at(b, 24, 4)
            &&& v.p_protocol == b[28]
            &&& v.p_bitfield_flags == b[29]
            &&& v.p_hardware_flags == signed_32(number_at(b, 32, 4))
            &&& v.p_id_subtype == b[36]
            &&& v.p_id == number_at(b, 40, 4)
            &&& v.p_id_len == signed_32(number_at(b, 44, 4))
            &&& v.p_descr == number_at(b, 48, 4)
            &&& v.p_descr_force == signed_32(number_at(b, 52, 4))
            &&& v.p_mfs == number_at(b, 56, 2)
            &&& v.p_ttl == number_at(b, 58, 2)
            &&& v.p_vlan_tx_tag == signed_32(number_at(b, 60, 4))
            &&& v.p_vlan_tx_enabled == signed_32(number_at(b, 64, 4))
            &&& v.p_vlan_advertise_pattern == number_at(b, 68, 4)
            &&& v.p_aggregid == number_at(b, 72, 4)
            &&& v.p_macphy == structure::<RawDot3MacPhy>(b.subrange(76, 82))
            &&& v.p_power == structure::<RawDot3Power>(b.subrange(82, 118))
            &&& v.p_med_cap_enabled == number_at(b, 118, 2)
            &&& v.p_med_policy == structure::<[RawMedPolicy; MED_APPTYPE_LAST]>(
                b.subrange(120, 184),
            )
            &&& v.p_med_location == structure::<[RawMedLoc; MED_LOCFORMAT_LAST]>(
                b.subrange(184, 220),
            )
            &&& v.p_med_power == structure::<RawMedPower>(b.subrange(220, 226))
            &&& v.p_cdp_power == structure::<RawCdpPower>(b.subrange(226, 230))
            &&& v.p_pvid == number_at(b, 230, 2)
            &&& v.p_vlans_tqh_first == number_at(b, 232, 4)
            &&& v.p_vlans_tqh_last == number_at(b, 236, 4)
            &&& v.p_ppvids_tqh_first == number_at(b, 240, 4)
            &&& v.p_ppvids_tqh_last == number_at(b, 244, 4)
            &&& v.p_pids_tqh_first == number_at(b, 248, 4)
            &&& v.p_pids_tqh_last == number_at(b, 252, 4)
        }),
{
    lemma_port_part_1_32(b);
    lemma_port_part_2_32(b);
    lemma_port_part_3_32(b);
    lemma_port_part_4_32(b);
    lemma_port_part_5_32(b);
    lemma_port_part_6_32(b);
    lemma_pair::<
        (
            [RawMedPolicy; MED_APPTYPE_LAST],
            ([RawMedLoc; MED_LOCFORMAT_LAST], (RawMedPower, (RawCdpPower, (u16, usize)))),
        ),
        (usize, (usize, (usize, (usize, usize)))),
    >(b, 120);
    lemma_pair::<
        (i32, (usize, (u32, (RawDot3MacPhy, (RawDot3Power, u16))))),
        (
            (
                [RawMedPolicy; MED_APPTYPE_LAST],
                ([RawMedLoc; MED_LOCFORMAT_LAST], (RawMedPower, (RawCdpPower, (u16, usize)))),
            ),
            (usize, (usize, (usize, (usize, usize)))),
        ),
    >(b, 64);
    lemma_pair::<
        (i32, (usize, (i32, (u16, (u16, i32))))),
        (
            (i32, (usize, (u32, (RawDot3MacPhy, (RawDot3Power, u16))))),
            (
                (
                    [RawMedPolicy; MED_APPTYPE_LAST],
                    (
                        [RawMedLoc; MED_LOCFORMAT_LAST],
                        (RawMedPower, (RawCdpPower, (u16, usize))),
                    ),
                ),
                (usize, (usize, (usize, (usize, usize)))),
            ),
        ),
    >(b, 44);
    lemma_pair::<
        (usize, (u8, (u8, (i32, (u8, usize))))),
        (
            (i32, (usize, (i32, (u16, (u16, i32))))),
            (
                (i32, (usize, (u32, (RawDot3MacPhy, (RawDot3Power, u16))))),
                (
                    (
                        [RawMedPolicy; MED_APPTYPE_LAST],
                        (
                            [RawMedLoc; MED_LOCFORMAT_LAST],
                            (RawMedPower, (RawCdpPower, (u16, usize))),
                        ),
                    ),
                    (usize, (usize, (usize, (usize, usize)))),
                ),
            ),
        ),
    >(b, 24);
    lemma_pair::<
        (usize, (usize, (usize, (isize, (isize, isize))))),
        (
            (usize, (u8, (u8, (i32, (u8, usize))))),
            (
                (i32, (usize, (i32, (u16, (u16, i32))))),
                (
                    (i32, (usize, (u32, (RawDot3MacPhy, (RawDot3Power, u16))))),
                    (
                        (
                            [RawMedPolicy; MED_APPTYPE_LAST],
                            (
                                [RawMedLoc; MED_LOCFORMAT_LAST],
                                (RawMedPower, (RawCdpPower, (u16, usize))),
                            ),
                        ),
                        (usize, (usize, (usize, (usize, usize)))),
                    ),
                ),
            ),
        ),
    >(b, 0);
    lemma_record::<RawPort>(b, 256, 4, 256);
}

proof fn lemma_port_size_32()
    requires
        is_32(),
    ensures
        extent::<RawPort>() == 256,
        alignment::<RawPort>() == 4,
{
    port_in_place_32(Seq::new(256, |i: int| 0u8));
}

/// `struct lldpd_interface` on a 64-bit machine.
pub proof fn interface_in_place_64(b: Seq<u8>)
    requires
        is_64(),
        b.len() == 32,
    ensures
        extent::<RawInterface>() == 32,
        alignment::<RawInterface>() == 8,
        ({
            let v = structure::<RawInterface>(b);
            &&& v.next_tqe_next == number_at(b, 0, 8)
            &&& v.next_tqe_prev == number_at(b, 8, 8)
            &&& v.name == number_at(b, 16, 8)
            &&& v.alias == number_at(b, 24, 8)
        }),
{
    lemma_usize_field(b, 0, 8, 0);
    lemma_usize_field(b, 8, 8, 8);
    lemma_usize_field(b, 16, 8, 16);
    lemma_usize_field(b, 24, 8, 24);
    lemma_pair::<usize, usize>(b, 16);
    lemma_pair::<usize, (usize, usize)>(b, 8);
    lemma_pair::<usize, (usize, (usize, usize))>(b, 0);
    lemma_record::<RawInterface>(b, 32, 8, 32);
}

/// `struct lldpd_interface` on a 32-bit machine.
pub proof fn interface_in_place_32(b: Seq<u8>)
    requires
        is_32(),
        b.len() == 16,
    ensures
        extent::<RawInterface>() == 16,
        alignment::<RawInterface>() == 4,
        ({
            let v = structure::<RawInterface>(b);
            &&& v.next_tqe_next == number_at(b, 0, 4)
            &&& v.next_tqe_prev == number_at(b, 4, 4)
            &&& v.name == number_at(b, 8, 4)
            &&& v.alias == number_at(b, 12, 4)
        }),
{
    lemma_usize_field(b, 0, 4, 0);
    lemma_usize_field(b, 4, 4, 4);
    lemma_usize_field(b, 8, 4, 8);
    lemma_usize_field(b, 12, 4, 12);
    lemma_pair::<usize, usize>(b, 8);
    lemma_pair::<usize, (usize, usize)>(b, 4);
    lemma_pair::<usize, (usize, (usize, usize))>(b, 0);
    lemma_record::<RawInterface>(b, 16, 4, 16);
}

/// `struct lldpd_interface_list` on a 64-bit machine.
pub proof fn interface_list_in_place_64(b: Seq<u8>)
    requires
        is_64(),
        b.len() == 16,
    ensures
        extent::<RawInterfaceList>() == 16,
        alignment::<RawInterfaceList>() == 8,
        ({
            let v = structure::<RawInterfaceList>(b);
            &&& v.tqh_first == number_at(b, 0, 8)
            &&& v.tqh_last == number_at(b, 8, 8)
        }),
{
    lemma_usize_field(b, 0, 8, 0);
    lemma_usize_field(b, 8, 8, 8);
    lemma_pair::<usize, usize>(b, 0);
    lemma_record::<RawInterfaceList>(b, 16, 8, 16);
}

/// `struct lldpd_interface_list` on a 32-bit machine.
pub proof fn interface_list_in_place_32(b: Seq<u8>)
    requires
        is_32(),
        b.len() == 8,
    ensures
        extent::<RawInterfaceList>() == 8,
        alignment::<RawInterfaceList>() == 4,
        ({
            let v = structure::<RawInterfaceList>(b);
            &&& v.tqh_first == number_at(b, 0, 4)
            &&& v.tqh_last == number_at(b, 4, 4)
        }),
{
    lemma_usize_field(b, 0, 4, 0);
    lemma_usize_field(b, 4, 4, 4);
    lemma_pair::<usize, usize>(b, 0);
    lemma_record::<RawInterfaceList>(b, 8, 4, 8);
}

proof fn lemma_hardware_part_1_64(b: Seq<u8>)
    requires
        is_64(),
        b.len() == 632,
    ensures
        end_of::<(usize, (usize, (usize, (usize, (i32, i32)))))>(0) == 40,
        widest::<(usize, (usize, (usize, (usize, (i32, i32)))))>() == 8,
        ({
            let g = fields_at::<(usize, (usize, (usize, (usize, (i32, i32)))))>(b, 0);
            &&& g.0 == number_at(b, 0, 8)
            &&& g.1.0 == number_at(b, 8, 8)
            &&& g.1.1.0 == number_at(b, 16, 8)
            &&& g.1.1.1.0 == number_at(b, 24, 8)
            &&& g.1.1.1.1.0 == signed_32(number_at(b, 32, 4))
            &&& g.1.1.1.1.1 == signed_32(number_at(b, 36, 4))
        }),
{
    lemma_usize_field(b, 0, 8, 0);
    lemma_usize_field(b, 8, 8, 8);
    lemma_usize_field(b, 16, 8, 16);
    lemma_usize_field(b, 24, 8, 24);
    lemma_i32_field(b, 32, 32);
    lemma_i32_field(b, 36, 36);
    lemma_pair::<i32, i32>(b, 32);
    lemma_pair::<usize, (i32, i32)>(b, 24);
    lemma_pair::<usize, (usize, (i32, i32))>(b, 16);
    lemma_pair::<usize, (usize, (usize, (i32, i32)))>(b, 8);
    lemma_pair::<usize, (usize, (usize, (usize, (i32, i32))))>(b, 0);
}

proof fn lemma_hardware_part_2_64(b: Seq<u8>)
    requires
        is_64(),
        b.len() == 632,
    ensures
        end_of::<(usize, (usize, (usize, (i32, (i32, i32)))))>(40) == 76,
        widest::<(usize, (usize, (usize, (i32, (i32, i32)))))>() == 8,
        ({
            let g = fields_at::<(usize, (usize, (usize, (i32, (i32, i32)))))>(b, 40);
            &&& g.0 == number_at(b, 40, 8)
            &&& g.1.0 == number_at(b, 48, 8)
            &&& g.1.1.0 == number_at(b, 56, 8)
            &&& g.1.1.1.0 == signed_32(number_at(b, 64, 4))
            &&& g.1.1.1.1.0 == signed_32(number_at(b, 68, 4))
            &&& g.1.1.1.1.1 == signed_32(number_at(b, 72, 4))
        }),
{
    lemma_usize_field(b, 40, 8, 40);
    lemma_usize_field(b, 48, 8, 48);
    lemma_usize_field(b, 56, 8, 56);
    lemma_i32_field(b, 64, 64);
    lemma_i32_field(b, 68, 68);
    lemma_i32_field(b, 72, 72);
    lemma_pair::<i32, i32>(b, 68);
    lemma_pair::<i32, (i32, i32)>(b, 64);
    lemma_pair::<usize, (i32, (i32, i32))>(b, 56);
    lemma_pair::<usize, (usize, (i32, (i32, i32)))>(b, 48);
    lemma_pair::<usize, (usize, (usize, (i32, (i32, i32))))>(b, 40);
}

proof fn lemma_hardware_part_3_64(b: Seq<u8>)
    requires
        is_64(),
        b.len() == 632,
    ensures
        end_of::<(i32, ([u8; 16], (usize, ([u8; 6], (u64, u64)))))>(76) == 128,
        widest::<(i32, ([u8; 16], (usize, ([u8; 6], (u64, u64)))))>() == 8,
        ({
            let g = fields_at::<(i32, ([u8; 16], (usize, ([u8; 6], (u64, u64)))))>(b, 76);
            &&& g.0 == signed_32(number_at(b, 76, 4))
            &&& g.1.0@ == b.subrange(80, 96)
            &&& g.1.1.0 == number_at(b, 96, 8)
            &&& g.1.1.1.0@ == b.subrange(104, 110)
            &&& g.1.1.1.1.0 == number_at(b, 112, 8)
            &&& g.1.1.1.1.1 == number_at(b, 120, 8)
        }),
{
    lemma_i32_field(b, 76, 76);
    sixteen_octets_are_their_bytes(b.subrange(80, 96));
    lemma_field::<[u8; 16]>(b, 80, 1, 16, 80);
    lemma_usize_field(b, 96, 8, 96);
    six_octets_are_their_bytes(b.subrange(104, 110));
    lemma_field::<[u8; 6]>(b, 104, 1, 6, 104);
    lemma_u64_field(b, 110, 8, 112);
    lemma_u64_field(b, 120, 8, 120);
    lemma_pair::<u64, u64>(b, 110);
    lemma_pair::<[u8; 6], (u64, u64)>(b, 104);
    lemma_pair::<usize, ([u8; 6], (u64, u64))>(b, 96);
    lemma_pair::<[u8; 16], (usize, ([u8; 6], (u64, u64)))>(b, 80);
    lemma_pair::<i32, ([u8; 16], (usize, ([u8; 6], (u64, u64))))>(b, 76);
}

proof fn lemma_hardware_part_4_64(b: Seq<u8>)
    requires
        is_64(),
        b.len() == 632,
    ensures
        end_of::<(u64, (u64, (u64, (u64, (u64, u64)))))>(128) == 176,
        widest::<(u64, (u64, (u64, (u64, (u64, u64)))))>() == 8,
        ({
            let g = fields_at::<(u64, (u64, (u64, (u64, (u64, u64)))))>(b, 128);
            &&& g.0 == number_at(b, 128, 8)
            &&& g.1.0 == number_at(b, 136, 8)
            &&& g.1.1.0 == number_at(b, 144, 8)
            &&& g.1.1.1.0 == number_at(b, 152, 8)
            &&& g.1.1.1.1.0 == number_at(b, 160, 8)
            &&& g.1.1.1.1.1 == number_at(b, 168, 8)
        }),
{
    lemma_u64_field(b, 128, 8, 128);
    lemma_u64_field(b, 136, 8, 136);
    lemma_u64_field(b, 144, 8, 144);
    lemma_u64_field(b, 152, 8, 152);
    lemma_u64_field(b, 160, 8, 160);
    lemma_u64_field(b, 168, 8, 168);
    lemma_pair::<u64, u64>(b, 160);
    lemma_pair::<u64, (u64, u64)>(b, 152);
    lemma_pair::<u64, (u64, (u64, u64))>(b, 144);
    lemma_pair::<u64, (u64, (u64, (u64, u64)))>(b, 136);
    lemma_pair::<u64, (u64, (u64, (u64, (u64, u64))))>(b, 128);
}

proof fn lemma_hardware_part_5_64(b: Seq<u8>)
    requires
        is_64(),
        b.len() == 632,
    ensures
        end_of::<(usize, (isize, (u8, (usize, (i32, u8)))))>(176) == 213,
        widest::<(usize, (isize, (u8, (usize, (i32, u8)))))>() == 8,
        ({
            let g = fields_at::<(usize, (isize, (u8, (usize, (i32, u8)))))>(b, 176);
            &&& g.0 == number_at(b, 176, 8)
            &&& g.1.0 == isize::decode(b.subrange(184, 192))
            &&& g.1.1.0 == b[192]
            &&& g.1.1.1.0 == number_at(b, 200, 8)
            &&& g.1.1.1.1.0 == signed_32(number_at(b, 208, 4))
            &&& g.1.1.1.1.1 == b[212]
        }),
{
    lemma_usize_field(b, 176, 8, 176);
    lemma_isize_field(b, 184, 8, 184);
    lemma_u8_field(b, 192);
    lemma_usize_field(b, 193, 8, 200);
    lemma_i32_field(b, 208, 208);
    lemma_u8_field(b, 212);
    lemma_pair::<i32, u8>(b, 208);
    lemma_pair::<usize, (i32, u8)>(b, 193);
    lemma_pair::<u8, (usize, (i32, u8))>(b, 192);
    lemma_pair::<isize, (u8, (usize, (i32, u8)))>(b, 184);
    lemma_pair::<usize, (isize, (u8, (usize, (i32, u8))))>(b, 176);
}

proof fn lemma_hardware_part_6_64(b: Seq<u8>)
    requires
        is_64(),
        b.len() == 632,
    ensures
        end_of::<(usize, (i32, (usize, (RawPort, (usize, usize)))))>(213) == 624,
        widest::<(usize, (i32, (usize, (RawPort, (usize, usize)))))>() == 8,
        ({
            let g = fields_at::<(usize, (i32, (usize, (RawPort, (usize, usize)))))>(b, 213);
            &&& g.0 == number_at(b, 216, 8)
            &&& g.1.0 == signed_32(number_at(b, 224, 4))
            &&& g.1.1.0 == number_at(b, 232, 8)
            &&& g.1.1.1.0 == structure::<RawPort>(b.subrange(240, 608))
            &&& g.1.1.1.1.0 == number_at(b, 608, 8)
            &&& g.1.1.1.1.1 == number_at(b, 616, 8)
        }),
{
    lemma_usize_field(b, 213, 8, 216);
    lemma_i32_field(b, 224, 224);
    lemma_usize_field(b, 228, 8, 232);
    lemma_port_size_64();
    lemma_field::<RawPort>(b, 240, 8, 368, 240);
    lemma_usize_field(b, 608, 8, 608);
    lemma_usize_field(b, 616, 8, 616);
    lemma_pair::<usize, usize>(b, 608);
    lemma_pair::<RawPort, (usize, usize)>(b, 240);
    lemma_pair::<usize, (RawPort, (usize, usize))>(b, 228);
    lemma_pair::<i32, (usize, (RawPort, (usize, usize)))>(b, 224);
    lemma_pair::<usize, (i32, (usize, (RawPort, (usize, usize))))>(b, 213);
}

proof fn lemma_hardware_part_7_64(b: Seq<u8>)
    requires
        is_64(),
        b.len() == 632,
    ensures
        end_of::<i32>(624) == 628,
        widest::<i32>() == 4,
        ({
            let g = fields_at::<i32>(b, 624);
            &&& g == signed_32(number_at(b, 624, 4))
        }),
{
    lemma_i32_field(b, 624, 624);
}

/// `struct lldpd_hardware` on a 64-bit machine.
pub proof fn hardware_in_place_64(b: Seq<u8>)
    requires
        is_64(),
        b.len() == 632,
    ensures
        extent::<RawHardware>() == 632,
        alignment::<RawHardware>() == 8,
        ({
            let v = structure::<RawHardware>(b);
            &&& v.h_entries_tqe_next == number_at(b, 0, 8)
            &&& v.h_entries_tqe_prev == number_at(b, 8, 8)
            &&& v.h_cfg == number_at(b, 16, 8)
            &&& v.h_recv == number_at(b, 24, 8)
            &&& v.h_sendfd == signed_32(number_at(b, 32, 4))
            &&& v.h_mangle == signed_32(number_at(b, 36, 4))
            &&& v.h_ops == number_at(b, 40, 8)
            &&& v.h_data == number_at(b, 48, 8)
            &&& v.h_timer == number_at(b, 56, 8)
            &&& v.h_mtu == signed_32(number_at(b, 64, 4))
            &&& v.h_flags == signed_32(number_at(b, 68, 4))
            &&& v.h_ifindex == signed_32(number_at(b, 72, 4))
            &&& v.h_ifindex_changed == signed_32(number_at(b, 76, 4))
            &&& v.h_ifname@ == b.subrange(80, 96)
            &&& v.h_ifalias == number_at(b, 96, 8)
            &&& v.h_lladdr@ == b.subrange(104, 110)
            &&& v.h_tx_cnt == number_at(b, 112, 8)
            &&& v.h_rx_cnt == number_at(b, 120, 8)
            &&& v.h_rx_discarded_cnt == number_at(b, 128, 8)
            &&& v.h_rx_unrecognized_cnt == number_at(b, 136, 8)
            &&& v.h_ageout_cnt == number_at(b, 144, 8)
            &&& v.h_insert_cnt == number_at(b, 152, 8)
            &&& v.h_delete_cnt == number_at(b, 160, 8)
            &&& v.h_drop_cnt == number_at(b, 168, 8)
            &&& v.h_lport_previous == number_at(b, 176, 8)
            &&& v.h_lport_previous_len == isize::decode(b.subrange(184, 192))
            &&& v.h_lchassis_previous_id_subtype == b[192]
            &&& v.h_lchassis_previous_id == number_at(b, 200, 8)
            &&& v.h_lchassis_previous_id_len == signed_32(number_at(b, 208, 4))
            &&& v.h_lport_previous_id_subtype == b[212]
            &&& v.h_lport_previous_id == number_at(b, 216, 8)
            &&& v.h_lport_previous_id_len == signed_32(number_at(b, 224, 4))
            &&& v.h_ifdescr_previous == number_at(b, 232, 8)
            &&& v.h_lport == structure::<RawPort>(b.subrange(240, 608))
            &&& v.h_rports_tqh_first == number_at(b, 608, 8)
            &&& v.h_rports_tqh_last == number_at(b, 616, 8)
            &&& v.h_tx_fast == signed_32(number_at(b, 624, 4))
        }),
{
    lemma_hardware_part_1_64(b);
    lemma_hardware_part_2_64(b);
    lemma_hardware_part_3_64(b);
    lemma_hardware_part_4_64(b);
    lemma_hardware_part_5_64(b);
    lemma_hardware_part_6_64(b);
    lemma_hardware_part_7_64(b);
    lemma_pair::<(usize, (i32, (usize, (RawPort, (usize, usize))))), i32>(b, 213);
    lemma_pair::<
        (usize, (isize, (u8, (usize, (i32, u8))))),
        ((usize, (i32, (usize, (RawPort, (usize, usize))))), i32),
    >(b, 176);
    lemma_pair::<
        (u64, (u64, (u64, (u64, (u64, u64))))),
        (
            (usize, (isize, (u8, (usize, (i32, u8))))),
            ((usize, (i32, (usize, (RawPort, (usize, usize))))), i32),
        ),
    >(b, 128);
    lemma_pair::<
        (i32, ([u8; 16], (usize, ([u8; 6], (u64, u64))))),
        (
            (u64, (u64, (u64, (u64, (u64, u64))))),
            (
                (usize, (isize, (u8, (usize, (i32, u8))))),
                ((usize, (i32, (usize, (RawPort, (usize, usize))))), i32),
            ),
        ),
    >(b, 76);
    lemma_pair::<
        (usize, (usize, (usize, (i32, (i32, i32))))),
        (
            (i32, ([u8; 16], (usize, ([u8; 6], (u64, u64))))),
            (
                (u64, (u64, (u64, (u64, (u64, u64))))),
                (
                    (usize, (isize, (u8, (usize, (i32, u8))))),
                    ((usize, (i32, (usize, (RawPort, (usize, usize))))), i32),
                ),
            ),
        ),
    >(b, 40);
    lemma_pair::<
        (usize, (usize, (usize, (usize, (i32, i32))))),
        (
            (usize, (usize, (usize, (i32, (i32, i32))))),
            (
                (i32, ([u8; 16], (usize, ([u8; 6], (u64, u64))))),
                (
                    (u64, (u64, (u64, (u64, (u64, u64))))),
                    (
                        (usize, (isize, (u8, (usize, (i32, u8))))),
                        ((usize, (i32, (usize, (RawPort, (usize, usize))))), i32),
                    ),
                ),
            ),
        ),
    >(b, 0);
    lemma_record::<RawHardware>(b, 628, 8, 632);
}

proof fn lemma_hardware_part_1_32(b: Seq<u8>)
    requires
        is_32(),
        u64::align() == 8,
        b.len() == 448,
    ensures
        end_of::<(usize, (usize, (usize, (usize, (i32, i32)))))>(0) == 24,
        widest::<(usize, (usize, (usize, (usize, (i32, i32)))))>() == 4,
        ({
            let g = fields_at::<(usize, (usize, (usize, (usize, (i32, i32)))))>(b, 0);
            &&& g.0 == number_at(b, 0, 4)
            &&& g.1.0 == number_at(b, 4, 4)
            &&& g.1.1.0 == number_at(b, 8, 4)
            &&& g.1.1.1.0 == number_at(b, 12, 4)
            &&& g.1.1.1.1.0 == signed_32(number_at(b, 16, 4))
            &&& g.1.1.1.1.1 == signed_32(number_at(b, 20, 4))
        }),
{
    lemma_usize_field(b, 0, 4, 0);
    lemma_usize_field(b, 4, 4, 4);
    lemma_usize_field(b, 8, 4, 8);
    lemma_usize_field(b, 12, 4, 12);
    lemma_i32_field(b, 16, 16);
    lemma_i32_field(b, 20, 20);
    lemma_pair::<i32, i32>(b, 16);
    lemma_pair::<usize, (i32, i32)>(b, 12);
    lemma_pair::<usize, (usize, (i32, i32))>(b, 8);
    lemma_pair::<usize, (usize, (usize, (i32, i32)))>(b, 4);
    lemma_pair::<usize, (usize, (usize, (usize, (i32, i32))))>(b, 0);
}

proof fn lemma_hardware_part_2_32(b: Seq<u8>)
    requires
        is_32(),
        u64::align() == 8,
        b.len() == 448,
    ensures
        end_of::<(usize, (usize, (usize, (i32, (i32, i32)))))>(24) == 48,
        widest::<(usize, (usize, (usize, (i32, (i32, i32)))))>() == 4,
        ({
            let g = fields_at::<(usize, (usize, (usize, (i32, (i32, i32)))))>(b, 24);
            &&& g.0 == number_at(b, 24, 4)
            &&& g.1.0 == number_at(b, 28, 4)
            &&& g.1.1.0 == number_at(b, 32, 4)
            &&& g.1.1.1.0 == signed_32(number_at(b, 36, 4))
            &&& g.1.1.1.1.0 == signed_32(number_at(b, 40, 4))
            &&& g.1.1.1.1.1 == signed_32(number_at(b, 44, 4))
        }),
{
    lemma_usize_field(b, 24, 4, 24);
    lemma_usize_field(b, 28, 4, 28);
    lemma_usize_field(b, 32, 4, 32);
    lemma_i32_field(b, 36, 36);
    lemma_i32_field(b, 40, 40);
    lemma_i32_field(b, 44, 44);
    lemma_pair::<i32, i32>(b, 40);
    lemma_pair::<i32, (i32, i32)>(b, 36);
    lemma_pair::<usize, (i32, (i32, i32))>(b, 32);
    lemma_pair::<usize, (usize, (i32, (i32, i32)))>(b, 28);
    lemma_pair::<usize, (usize, (usize, (i32, (i32, i32))))>(b, 24);
}

proof fn lemma_hardware_part_3_32(b: Seq<u8>)
    requires
        is_32(),
        u64::align() == 8,
        b.len() == 448,
    ensures
        end_of::<(i32, ([u8; 16], (usize, ([u8; 6], (u64, u64)))))>(48) == 96,
        widest::<(i32, ([u8; 16], (usize, ([u8; 6], (u64, u64)))))>() == 8,
        ({
            let g = fields_at::<(i32, ([u8; 16], (usize, ([u8; 6], (u64, u64)))))>(b, 48);
            &&& g.0 == signed_32(number_at(b, 48, 4))
            &&& g.1.0@ == b.subrange(52, 68)
            &&& g.1.1.0 == number_at(b, 68, 4)
            &&& g.1.1.1.0@ == b.subrange(72, 78)
            &&& g.1.1.1.1.0 == number_at(b, 80, 8)
            &&& g.1.1.1.1.1 == number_at(b, 88, 8)
        }),
{
    lemma_i32_field(b, 48, 48);
    sixteen_octets_are_their_bytes(b.subrange(52, 68));
    lemma_field::<[u8; 16]>(b, 52, 1, 16, 52);
    lemma_usize_field(b, 68, 4, 68);
    six_octets_are_their_bytes(b.subrange(72, 78));
    lemma_field::<[u8; 6]>(b, 72, 1, 6, 72);
    lemma_u64_field(b, 78, 8, 80);
    lemma_u64_field(b, 88, 8, 88);
    lemma_pair::<u64, u64>(b, 78);
    lemma_pair::<[u8; 6], (u64, u64)>(b, 72);
    lemma_pair::<usize, ([u8; 6], (u64, u64))>(b, 68);
    lemma_pair::<[u8; 16], (usize, ([u8; 6], (u64, u64)))>(b, 52);
    lemma_pair::<i32, ([u8; 16], (usize, ([u8; 6], (u64, u64))))>(b, 48);
}

proof fn lemma_hardware_part_4_32(b: Seq<u8>)
    requires
        is_32(),
        u64::align() == 8,
        b.len() == 448,
    ensures
        end_of::<(u64, (u64, (u64, (u64, (u64, u64)))))>(96) == 144,
        widest::<(u64, (u64, (u64, (u64, (u64, u64)))))>() == 8,
        ({
            let g = fields_at::<(u64, (u64, (u64, (u64, (u64, u64)))))>(b, 96);
            &&& g.0 == number_at(b, 96, 8)
            &&& g.1.0 == number_at(b, 104, 8)
            &&& g.1.1.0 == number_at(b, 112, 8)
            &&& g.1.1.1.0 == number_at(b, 120, 8)
            &&& g.1.1.1.1.0 == number_at(b, 128, 8)
            &&& g.1.1.1.1.1 == number_at(b, 136, 8)
        }),
{
    lemma_u64_field(b, 96, 8, 96);
    lemma_u64_field(b, 104, 8, 104);
    lemma_u64_field(b, 112, 8, 112);
    lemma_u64_field(b, 120, 8, 120);
    lemma_u64_field(b, 128, 8, 128);
    lemma_u64_field(b, 136, 8, 136);
    lemma_pair::<u64, u64>(b, 128);
    lemma_pair::<u64, (u64, u64)>(b, 120);
    lemma_pair::<u64, (u64, (u64, u64))>(b, 112);
    lemma_pair::<u64, (u64, (u64, (u64, u64)))>(b, 104);
    lemma_pair::<u64, (u64, (u64, (u64, (u64, u64))))>(b, 96);
}

proof fn lemma_hardware_part_5_32(b: Seq<u8>)
    requires
        is_32(),
        u64::align() == 8,
        b.len() == 448,
    ensures
        end_of::<(usize, (isize, (u8, (usize, (i32, u8)))))>(144) == 165,
        widest::<(usize, (isize, (u8, (usize, (i32, u8)))))>() == 4,
        ({
            let g = fields_at::<(usize, (isize, (u8, (usize, (i32, u8)))))>(b, 144);
            &&& g.0 == number_at(b, 144, 4)
            &&& g.1.0 == isize::decode(b.subrange(148, 152))
            &&& g.1.1.0 == b[152]
            &&& g.1.1.1.0 == number_at(b, 156, 4)
            &&& g.1.1.1.1.0 == signed_32(number_at(b, 160, 4))
            &&& g.1.1.1.1.1 == b[164]
        }),
{
    lemma_usize_field(b, 144, 4, 144);
    lemma_isize_field(b, 148, 4, 148);
    lemma_u8_field(b, 152);
    lemma_usize_field(b, 153, 4, 156);
    lemma_i32_field(b, 160, 160);
    lemma_u8_field(b, 164);
    lemma_pair::<i32, u8>(b, 160);
    lemma_pair::<usize, (i32, u8)>(b, 153);
    lemma_pair::<u8, (usize, (i32, u8))>(b, 152);
    lemma_pair::<isize, (u8, (usize, (i32, u8)))>(b, 148);
    lemma_pair::<usize, (isize, (u8, (usize, (i32, u8))))>(b, 144);
}

proof fn lemma_hardware_part_6_32(b: Seq<u8>)
    requires
        is_32(),
        u64::align() == 8,
        b.len() == 448,
    ensures
        end_of::<(usize, (i32, (usize, (RawPort, (usize, usize)))))>(165) == 444,
        widest::<(usize, (i32, (usize, (RawPort, (usize, usize)))))>() == 4,
        ({
            let g = fields_at::<(usize, (i32, (usize, (RawPort, (usize, usize)))))>(b, 165);
            &&& g.0 == number_at(b, 168, 4)
            &&& g.1.0 == signed_32(number_at(b, 172, 4))
            &&& g.1.1.0 == number_at(b, 176, 4)
            &&& g.1.1.1.0 == structure::<RawPort>(b.subrange(180, 436))
            &&& g.1.1.1.1.0 == number_at(b, 436, 4)
            &&& g.1.1.1.1.1 == number_at(b, 440, 4)
        }),
{
    lemma_usize_field(b, 165, 4, 168);
    lemma_i32_field(b, 172, 172);
    lemma_usize_field(b, 176, 4, 176);
    lemma_port_size_32();
    lemma_field::<RawPort>(b, 180, 4, 256, 180);
    lemma_usize_field(b, 436, 4, 436);
    lemma_usize_field(b, 440, 4, 440);
    lemma_pair::<usize, usize>(b, 436);
    lemma_pair::<RawPort, (usize, usize)>(b, 180);
    lemma_pair::<usize, (RawPort, (usize, usize))>(b, 176);
    lemma_pair::<i32, (usize, (RawPort, (usize, usize)))>(b, 172);
    lemma_pair::<usize, (i32, (usize, (RawPort, (usize, usize))))>(b, 165);
}

proof fn lemma_hardware_part_7_32(b: Seq<u8>)
    requires
        is_32(),
        u64::align() == 8,
        b.len() == 448,
    ensures
        end_of::<i32>(444) == 448,
        widest::<i32>() == 4,
        ({
            let g = fields_at::<i32>(b, 444);
            &&& g == signed_32(number_at(b, 444, 4))
        }),
{
    lemma_i32_field(b, 444, 444);
}

/// `struct lldpd_hardware` on a 32-bit machine.
pub proof fn hardware_in_place_32(b: Seq<u8>)
    requires
        is_32(),
        u64::align() == 8,
        b.len() == 448,
    ensures
        extent::<RawHardware>() == 448,
        alignment::<RawHardware>() == 8,
        ({
            let v = structure::<RawHardware>(b);
            &&& v.h_entries_tqe_next == number_at(b, 0, 4)
            &&& v.h_entries_tqe_prev == number_at(b, 4, 4)
            &&& v.h_cfg == number_at(b, 8, 4)
            &&& v.h_recv == number_at(b, 12, 4)
            &&& v.h_sendfd == signed_32(number_at(b, 16, 4))
            &&& v.h_mangle == signed_32(number_at(b, 20, 4))
            &&& v.h_ops == number_at(b, 24, 4)
            &&& v.h_data == number_at(b, 28, 4)
            &&& v.h_timer == number_at(b, 32, 4)
            &&& v.h_mtu == signed_32(number_at(b, 36, 4))
            &&& v.h_flags == signed_32(number_at(b, 40, 4))
            &&& v.h_ifindex == signed_32(number_at(b, 44, 4))
            &&& v.h_ifindex_changed == signed_32(number_at(b, 48, 4))
            &&& v.h_ifname@ == b.subrange(52, 68)
            &&& v.h_ifalias == number_at(b, 68, 4)
            &&& v.h_lladdr@ == b.subrange(72, 78)
            &&& v.h_tx_cnt == number_at(b, 80, 8)
            &&& v.h_rx_cnt == number_at(b, 88, 8)
            &&& v.h_rx_discarded_cnt == number_at(b, 96, 8)
            &&& v.h_rx_unrecognized_cnt == number_at(b, 104, 8)
            &&& v.h_ageout_cnt == number_at(b, 112, 8)
            &&& v.h_insert_cnt == number_at(b, 120, 8)
            &&& v.h_delete_cnt == number_at(b, 128, 8)
            &&& v.h_drop_cnt == number_at(b, 136, 8)
            &&& v.h_lport_previous == number_at(b, 144, 4)
            &&& v.h_lport_previous_len == isize::decode(b.subrange(148, 152))
            &&& v.h_lchassis_previous_id_subtype == b[152]
            &&& v.h_lchassis_previous_id == number_at(b, 156, 4)
            &&& v.h_lchassis_previous_id_len == signed_32(number_at(b, 160, 4))
            &&& v.h_lport_previous_id_subtype == b[164]
            &&& v.h_lport_previous_id == number_at(b, 168, 4)
            &&& v.h_lport_previous_id_len == signed_32(number_at(b, 172, 4))
            &&& v.h_ifdescr_previous == number_at(b, 176, 4)
            &&& v.h_lport == structure::<RawPort>(b.subrange(180, 436))
            &&& v.h_rports_tqh_first == number_at(b, 436, 4)
            &&& v.h_rports_tqh_last == number_at(b, 440, 4)
            &&& v.h_tx_fast == signed_32(number_at(b, 444, 4))
        }),
{
    lemma_hardware_part_1_32(b);
    lemma_hardware_part_2_32(b);
    lemma_hardware_part_3_32(b);
    lemma_hardware_part_4_32(b);
    lemma_hardware_part_5_32(b);
    lemma_hardware_part_6_32(b);
    lemma_hardware_part_7_32(b);
    lemma_pair::<(usize, (i32, (usize, (RawPort, (usize, usize))))), i32>(b, 165);
    lemma_pair::<
        (usize, (isize, (u8, (usize, (i32, u8))))),
        ((usize, (i32, (usize, (RawPort, (usize, usize))))), i32),
    >(b, 144);
    lemma_pair::<
        (u64, (u64, (u64, (u64, (u64, u64))))),
        (
            (usize, (isize, (u8, (usize, (i32, u8))))),
            ((usize, (i32, (usize, (RawPort, (usize, usize))))), i32),
        ),
    >(b, 96);
    lemma_pair::<
        (i32, ([u8; 16], (usize, ([u8; 6], (u64, u64))))),
        (
            (u64, (u64, (u64, (u64, (u64, u64))))),
            (
                (usize, (isize, (u8, (usize, (i32, u8))))),
                ((usize, (i32, (usize, (RawPort, (usize, usize))))), i32),
            ),
        ),
    >(b, 48);
    lemma_pair::<
        (usize, (usize, (usize, (i32, (i32, i32))))),
        (
            (i32, ([u8; 16], (usize, ([u8; 6], (u64, u64))))),
            (
                (u64, (u64, (u64, (u64, (u64, u64))))),
                (
                    (usize, (isize, (u8, (usize, (i32, u8))))),
                    ((usize, (i32, (usize, (RawPort, (usize, usize))))), i32),
                ),
            ),
        ),
    >(b, 24);
    lemma_pair::<
        (usize, (usize, (usize, (usize, (i32, i32))))),
        (
            (usize, (usize, (usize, (i32, (i32, i32))))),
            (
                (i32, ([u8; 16], (usize, ([u8; 6], (u64, u64))))),
                (
                    (u64, (u64, (u64, (u64, (u64, u64))))),
                    (
                        (usize, (isize, (u8, (usize, (i32, u8))))),
                        ((usize, (i32, (usize, (RawPort, (usize, usize))))), i32),
                    ),
                ),
            ),
        ),
    >(b, 0);
    lemma_record::<RawHardware>(b, 448, 8, 448);
}

proof fn lemma_hardware_part_1_32_packed(b: Seq<u8>)
    requires
        is_32(),
        u64::align() == 4,
        b.len() == 448,
    ensures
        end_of::<(usize, (usize, (usize, (usize, (i32, i32)))))>(0) == 24,
        widest::<(usize, (usize, (usize, (usize, (i32, i32)))))>() == 4,
        ({
            let g = fields_at::<(usize, (usize, (usize, (usize, (i32, i32)))))>(b, 0);
            &&& g.0 == number_at(b, 0, 4)
            &&& g.1.0 == number_at(b, 4, 4)
            &&& g.1.1.0 == number_at(b, 8, 4)
            &&& g.1.1.1.0 == number_at(b, 12, 4)
            &&& g.1.1.1.1.0 == signed_32(number_at(b, 16, 4))
            &&& g.1.1.1.1.1 == signed_32(number_at(b, 20, 4))
        }),
{
    lemma_usize_field(b, 0, 4, 0);
    lemma_usize_field(b, 4, 4, 4);
    lemma_usize_field(b, 8, 4, 8);
    lemma_usize_field(b, 12, 4, 12);
    lemma_i32_field(b, 16, 16);
    lemma_i32_field(b, 20, 20);
    lemma_pair::<i32, i32>(b, 16);
    lemma_pair::<usize, (i32, i32)>(b, 12);
    lemma_pair::<usize, (usize, (i32, i32))>(b, 8);
    lemma_pair::<usize, (usize, (usize, (i32, i32)))>(b, 4);
    lemma_pair::<usize, (usize, (usize, (usize, (i32, i32))))>(b, 0);
}

proof fn lemma_hardware_part_2_32_packed(b: Seq<u8>)
    requires
        is_32(),
        u64::align() == 4,
        b.len() == 448,
    ensures
        end_of::<(usize, (usize, (usize, (i32, (i32, i32)))))>(24) == 48,
        widest::<(usize, (usize, (usize, (i32, (i32, i32)))))>() == 4,
        ({
            let g = fields_at::<(usize, (usize, (usize, (i32, (i32, i32)))))>(b, 24);
            &&& g.0 == number_at(b, 24, 4)
            &&& g.1.0 == number_at(b, 28, 4)
            &&& g.1.1.0 == number_at(b, 32, 4)
            &&& g.1.1.1.0 == signed_32(number_at(b, 36, 4))
            &&& g.1.1.1.1.0 == signed_32(number_at(b, 40, 4))
            &&& g.1.1.1.1.1 == signed_32(number_at(b, 44, 4))
        }),
{
    lemma_usize_field(b, 24, 4, 24);
    lemma_usize_field(b, 28, 4, 28);
    lemma_usize_field(b, 32, 4, 32);
    lemma_i32_field(b, 36, 36);
    lemma_i32_field(b, 40, 40);
    lemma_i32_field(b, 44, 44);
    lemma_pair::<i32, i32>(b, 40);
    lemma_pair::<i32, (i32, i32)>(b, 36);
    lemma_pair::<usize, (i32, (i32, i32))>(b, 32);
    lemma_pair::<usize, (usize, (i32, (i32, i32)))>(b, 28);
    lemma_pair::<usize, (usize, (usize, (i32, (i32, i32))))>(b, 24);
}

proof fn lemma_hardware_part_3_32_packed(b: Seq<u8>)
    requires
        is_32(),
        u64::align() == 4,
        b.len() == 448,
    ensures
        end_of::<(i32, ([u8; 16], (usize, ([u8; 6], (u64, u64)))))>(48) == 96,
        widest::<(i32, ([u8; 16], (usize, ([u8; 6], (u64, u64)))))>() == 4,
        ({
            let g = fields_at::<(i32, ([u8; 16], (usize, ([u8; 6], (u64, u64)))))>(b, 48);
            &&& g.0 == signed_32(number_at(b, 48, 4))
            &&& g.1.0@ == b.subrange(52, 68)
            &&& g.1.1.0 == number_at(b, 68, 4)
            &&& g.1.1.1.0@ == b.subrange(72, 78)
            &&& g.1.1.1.1.0 == number_at(b, 80, 8)
            &&& g.1.1.1.1.1 == number_at(b, 88, 8)
        }),
{
    lemma_i32_field(b, 48, 48);
    sixteen_octets_are_their_bytes(b.subrange(52, 68));
    lemma_field::<[u8; 16]>(b, 52, 1, 16, 52);
    lemma_usize_field(b, 68, 4, 68);
    six_octets_are_their_bytes(b.subrange(72, 78));
    lemma_field::<[u8; 6]>(b, 72, 1, 6, 72);
    lemma_u64_field(b, 78, 4, 80);
    lemma_u64_field(b, 88, 4, 88);
    lemma_pair::<u64, u64>(b, 78);
    lemma_pair::<[u8; 6], (u64, u64)>(b, 72);
    lemma_pair::<usize, ([u8; 6], (u64, u64))>(b, 68);
    lemma_pair::<[u8; 16], (usize, ([u8; 6], (u64, u64)))>(b, 52);
    lemma_pair::<i32, ([u8; 16], (usize, ([u8; 6], (u64, u64))))>(b, 48);
}

proof fn lemma_hardware_part_4_32_packed(b: Seq<u8>)
    requires
        is_32(),
        u64::align() == 4,
        b.len() == 448,
    ensures
        end_of::<(u64, (u64, (u64, (u64, (u64, u64)))))>(96) == 144,
        widest::<(u64, (u64, (u64, (u64, (u64, u64)))))>() == 4,
        ({
            let g = fields_at::<(u64, (u64, (u64, (u64, (u64, u64)))))>(b, 96);
            &&& g.0 == number_at(b, 96, 8)
            &&& g.1.0 == number_at(b, 104, 8)
            &&& g.1.1.0 == number_at(b, 112, 8)
            &&& g.1.1.1.0 == number_at(b, 120, 8)
            &&& g.1.1.1.1.0 == number_at(b, 128, 8)
            &&& g.1.1.1.1.1 == number_at(b, 136, 8)
        }),
{
    lemma_u64_field(b, 96, 4, 96);
    lemma_u64_field(b, 104, 4, 104);
    lemma_u64_field(b, 112, 4, 112);
    lemma_u64_field(b, 120, 4, 120);
    lemma_u64_field(b, 128, 4, 128);
    lemma_u64_field(b, 136, 4, 136);
    lemma_pair::<u64, u64>(b, 128);
    lemma_pair::<u64, (u64, u64)>(b, 120);
    lemma_pair::<u64, (u64, (u64, u64))>(b, 112);
    lemma_pair::<u64, (u64, (u64, (u64, u64)))>(b, 104);
    lemma_pair::<u64, (u64, (u64, (u64, (u64, u64))))>(b, 96);
}

proof fn lemma_hardware_part_5_32_packed(b: Seq<u8>)
    requires
        is_32(),
        u64::align() == 4,
        b.len() == 448,
    ensures
        end_of::<(usize, (isize, (u8, (usize, (i32, u8)))))>(144) == 165,
        widest::<(usize, (isize, (u8, (usize, (i32, u8)))))>() == 4,
        ({
            let g = fields_at::<(usize, (isize, (u8, (usize, (i32, u8)))))>(b, 144);
            &&& g.0 == number_at(b, 144, 4)
            &&& g.1.0 == isize::decode(b.subrange(148, 152))
            &&& g.1.1.0 == b[152]
            &&& g.1.1.1.0 == number_at(b, 156, 4)
            &&& g.1.1.1.1.0 == signed_32(number_at(b, 160, 4))
            &&& g.1.1.1.1.1 == b[164]
        }),
{
    lemma_usize_field(b, 144, 4, 144);
    lemma_isize_field(b, 148, 4, 148);
    lemma_u8_field(b, 152);
    lemma_usize_field(b, 153, 4, 156);
    lemma_i32_field(b, 160, 160);
    lemma_u8_field(b, 164);
    lemma_pair::<i32, u8>(b, 160);
    lemma_pair::<usize, (i32, u8)>(b, 153);
    lemma_pair::<u8, (usize, (i32, u8))>(b, 152);
    lemma_pair::<isize, (u8, (usize, (i32, u8)))>(b, 148);
    lemma_pair::<usize, (isize, (u8, (usize, (i32, u8))))>(b, 144);
}

proof fn lemma_hardware_part_6_32_packed(b: Seq<u8>)
    requires
        is_32(),
        u64::align() == 4,
        b.len() == 448,
    ensures
        end_of::<(usize, (i32, (usize, (RawPort, (usize, usize)))))>(165) == 444,
        widest::<(usize, (i32, (usize, (RawPort, (usize, usize)))))>() == 4,
        ({
            let g = fields_at::<(usize, (i32, (usize, (RawPort, (usize, usize)))))>(b, 165);
            &&& g.0 == number_at(b, 168, 4)
            &&& g.1.0 == signed_32(number_at(b, 172, 4))
            &&& g.1.1.0 == number_at(b, 176, 4)
            &&& g.1.1.1.0 == structure::<RawPort>(b.subrange(180, 436))
            &&& g.1.1.1.1.0 == number_at(b, 436, 4)
            &&& g.1.1.1.1.1 == number_at(b, 440, 4)
        }),
{
    lemma_usize_field(b, 165, 4, 168);
    lemma_i32_field(b, 172, 172);
    lemma_usize_field(b, 176, 4, 176);
    lemma_port_size_32();
    lemma_field::<RawPort>(b, 180, 4, 256, 180);
    lemma_usize_field(b, 436, 4, 436);
    lemma_usize_field(b, 440, 4, 440);
    lemma_pair::<usize, usize>(b, 436);
    lemma_pair::<RawPort, (usize, usize)>(b, 180);
    lemma_pair::<usize, (RawPort, (usize, usize))>(b, 176);
    lemma_pair::<i32, (usize, (RawPort, (usize, usize)))>(b, 172);
    lemma_pair::<usize, (i32, (usize, (RawPort, (usize, usize))))>(b, 165);
}

proof fn lemma_hardware_part_7_32_packed(b: Seq<u8>)
    requires
        is_32(),
        u64::align() == 4,
        b.len() == 448,
    ensures
        end_of::<i32>(444) == 448,
        widest::<i32>() == 4,
        ({
            let g = fields_at::<i32>(b, 444);
            &&& g == signed_32(number_at(b, 444, 4))
        }),
{
    lemma_i32_field(b, 444, 444);
}

/// `struct lldpd_hardware` on a 32-bit machine that aligns 64-bit numbers to four.
pub proof fn hardware_in_place_32_packed(b: Seq<u8>)
    requires
        is_32(),
        u64::align() == 4,
        b.len() == 448,
    ensures
        extent::<RawHardware>() == 448,
        alignment::<RawHardware>() == 4,
        ({
            let v = structure::<RawHardware>(b);
            &&& v.h_entries_tqe_next == number_at(b, 0, 4)
            &&& v.h_entries_tqe_prev == number_at(b, 4, 4)
            &&& v.h_cfg == number_at(b, 8, 4)
            &&& v.h_recv == number_at(b, 12, 4)
            &&& v.h_sendfd == signed_32(number_at(b, 16, 4))
            &&& v.h_mangle == signed_32(number_at(b, 20, 4))
            &&& v.h_ops == number_at(b, 24, 4)
            &&& v.h_data == number_at(b, 28, 4)
            &&& v.h_timer == number_at(b, 32, 4)
            &&& v.h_mtu == signed_32(number_at(b, 36, 4))
            &&& v.h_flags == signed_32(number_at(b, 40, 4))
            &&& v.h_ifindex == signed_32(number_at(b, 44, 4))
            &&& v.h_ifindex_changed == signed_32(number_at(b, 48, 4))
            &&& v.h_ifname@ == b.subrange(52, 68)
            &&& v.h_ifalias == number_at(b, 68, 4)
            &&& v.h_lladdr@ == b.subrange(72, 78)
            &&& v.h_tx_cnt == number_at(b, 80, 8)
            &&& v.h_rx_cnt == number_at(b, 88, 8)
            &&& v.h_rx_discarded_cnt == number_at(b, 96, 8)
            &&& v.h_rx_unrecognized_cnt == number_at(b, 104, 8)
            &&& v.h_ageout_cnt == number_at(b, 112, 8)
            &&& v.h_insert_cnt == number_at(b, 120, 8)
            &&& v.h_delete_cnt == number_at(b, 128, 8)
            &&& v.h_drop_cnt == number_at(b, 136, 8)
            &&& v.h_lport_previous == number_at(b, 144, 4)
            &&& v.h_lport_previous_len == isize::decode(b.subrange(148, 152))
            &&& v.h_lchassis_previous_id_subtype == b[152]
            &&& v.h_lchassis_previous_id == number_at(b, 156, 4)
            &&& v.h_lchassis_previous_id_len == signed_32(number_at(b, 160, 4))
            &&& v.h_lport_previous_id_subtype == b[164]
            &&& v.h_lport_previous_id == number_at(b, 168, 4)
            &&& v.h_lport_previous_id_len == signed_32(number_at(b, 172, 4))
            &&& v.h_ifdescr_previous == number_at(b, 176, 4)
            &&& v.h_lport == structure::<RawPort>(b.subrange(180, 436))
            &&& v.h_rports_tqh_first == number_at(b, 436, 4)
            &&& v.h_rports_tqh_last == number_at(b, 440, 4)
            &&& v.h_tx_fast == signed_32(number_at(b, 444, 4))
        }),
{
    lemma_hardware_part_1_32_packed(b);
    lemma_hardware_part_2_32_packed(b);
    lemma_hardware_part_3_32_packed(b);
    lemma_hardware_part_4_32_packed(b);
    lemma_hardware_part_5_32_packed(b);
    lemma_hardware_part_6_32_packed(b);
    lemma_hardware_part_7_32_packed(b);
    lemma_pair::<(usize, (i32, (usize, (RawPort, (usize, usize))))), i32>(b, 165);
    lemma_pair::<
        (usize, (isize, (u8, (usize, (i32, u8))))),
        ((usize, (i32, (usize, (RawPort, (usize, usize))))), i32),
    >(b, 144);
    lemma_pair::<
        (u64, (u64, (u64, (u64, (u64, u64))))),
        (
            (usize, (isize, (u8, (usize, (i32, u8))))),
            ((usize, (i32, (usize, (RawPort, (usize, usize))))), i32),
        ),
    >(b, 96);
    lemma_pair::<
        (i32, ([u8; 16], (usize, ([u8; 6], (u64, u64))))),
        (
            (u64, (u64, (u64, (u64, (u64, u64))))),
            (
                (usize, (isize, (u8, (usize, (i32, u8))))),
                ((usize, (i32, (usize, (RawPort, (usize, usize))))), i32),
            ),
        ),
    >(b, 48);
    lemma_pair::<
        (usize, (usize, (usize, (i32, (i32, i32))))),
        (
            (i32, ([u8; 16], (usize, ([u8; 6], (u64, u64))))),
            (
                (u64, (u64, (u64, (u64, (u64, u64))))),
                (
                    (usize, (isize, (u8, (usize, (i32, u8))))),
                    ((usize, (i32, (usize, (RawPort, (usize, usize))))), i32),
                ),
            ),
        ),
    >(b, 24);
    lemma_pair::<
        (usize, (usize, (usize, (usize, (i32, i32))))),
        (
            (usize, (usize, (usize, (i32, (i32, i32))))),
            (
                (i32, ([u8; 16], (usize, ([u8; 6], (u64, u64))))),
                (
                    (u64, (u64, (u64, (u64, (u64, u64))))),
                    (
                        (usize, (isize, (u8, (usize, (i32, u8))))),
                        ((usize, (i32, (usize, (RawPort, (usize, usize))))), i32),
                    ),
                ),
            ),
        ),
    >(b, 0);
    lemma_record::<RawHardware>(b, 448, 4, 448);
}

/// `struct lldpd_neighbor_change` on a 64-bit machine.
pub proof fn neighbor_change_in_place_64(b: Seq<u8>)
    requires
        is_64(),
        b.len() == 32,
    ensures
        extent::<RawNeighborChange>() == 32,
        alignment::<RawNeighborChange>() == 8,
        ({
            let v = structure::<RawNeighborChange>(b);
            &&& v.ifname == number_at(b, 0, 8)
            &&& v.ifalias == number_at(b, 8, 8)
            &&& v.state == signed_32(number_at(b, 16, 4))
            &&& v.neighbor == number_at(b, 24, 8)
        }),
{
    lemma_usize_field(b, 0, 8, 0);
    lemma_usize_field(b, 8, 8, 8);
    lemma_i32_field(b, 16, 16);
    lemma_usize_field(b, 20, 8, 24);
    lemma_pair::<i32, usize>(b, 16);
    lemma_pair::<usize, (i32, usize)>(b, 8);
    lemma_pair::<usize, (usize, (i32, usize))>(b, 0);
    lemma_record::<RawNeighborChange>(b, 32, 8, 32);
}

/// `struct lldpd_neighbor_change` on a 32-bit machine.
pub proof fn neighbor_change_in_place_32(b: Seq<u8>)
    requires
        is_32(),
        b.len() == 16,
    ensures
        extent::<RawNeighborChange>() == 16,
        alignment::<RawNeighborChange>() == 4,
        ({
            let v = structure::<RawNeighborChange>(b);
            &&& v.ifname == number_at(b, 0, 4)
            &&& v.ifalias == number_at(b, 4, 4)
            &&& v.state == signed_32(number_at(b, 8, 4))
            &&& v.neighbor == number_at(b, 12, 4)
        }),
{
    lemma_usize_field(b, 0, 4, 0);
    lemma_usize_field(b, 4, 4, 4);
    lemma_i32_field(b, 8, 8);
    lemma_usize_field(b, 12, 4, 12);
    lemma_pair::<i32, usize>(b, 8);
    lemma_pair::<usize, (i32, usize)>(b, 4);
    lemma_pair::<usize, (usize, (i32, usize))>(b, 0);
    lemma_record::<RawNeighborChange>(b, 16, 4, 16);
}

proof fn lemma_port_set_part_1_64(b: Seq<u8>)
    requires
        is_64(),
        b.len() == 80,
    ensures
        end_of::<(usize, (usize, (usize, (usize, (i32, i32)))))>(0) == 40,
        widest::<(usize, (usize, (usize, (usize, (i32, i32)))))>() == 8,
        ({
            let g = fields_at::<(usize, (usize, (usize, (usize, (i32, i32)))))>(b, 0);
            &&& g.0 == number_at(b, 0, 8)
            &&& g.1.0 == number_at(b, 8, 8)
            &&& g.1.1.0 == number_at(b, 16, 8)
            &&& g.1.1.1.0 == number_at(b, 24, 8)
            &&& g.1.1.1.1.0 == signed_32(number_at(b, 32, 4))
            &&& g.1.1.1.1.1 == signed_32(number_at(b, 36, 4))
        }),
{
    lemma_usize_field(b, 0, 8, 0);
    lemma_usize_field(b, 8, 8, 8);
    lemma_usize_field(b, 16, 8, 16);
    lemma_usize_field(b, 24, 8, 24);
    lemma_i32_field(b, 32, 32);
    lemma_i32_field(b, 36, 36);
    lemma_pair::<i32, i32>(b, 32);
    lemma_pair::<usize, (i32, i32)>(b, 24);
    lemma_pair::<usize, (usize, (i32, i32))>(b, 16);
    lemma_pair::<usize, (usize, (usize, (i32, i32)))>(b, 8);
    lemma_pair::<usize, (usize, (usize, (usize, (i32, i32))))>(b, 0);
}

proof fn lemma_port_set_part_2_64(b: Seq<u8>)
    requires
        is_64(),
        b.len() == 80,
    ensures
        end_of::<(i32, (usize, (usize, (usize, usize))))>(40) == 80,
        widest::<(i32, (usize, (usize, (usize, usize))))>() == 8,
        ({
            let g = fields_at::<(i32, (usize, (usize, (usize, usize))))>(b, 40);
            &&& g.0 == signed_32(number_at(b, 40, 4))
            &&& g.1.0 == number_at(b, 48, 8)
            &&& g.1.1.0 == number_at(b, 56, 8)
            &&& g.1.1.1.0 == number_at(b, 64, 8)
            &&& g.1.1.1.1 == number_at(b, 72, 8)
        }),
{
    lemma_i32_field(b, 40, 40);
    lemma_usize_field(b, 44, 8, 48);
    lemma_usize_field(b, 56, 8, 56);
    lemma_usize_field(b, 64, 8, 64);
    lemma_usize_field(b, 72, 8, 72);
    lemma_pair::<usize, usize>(b, 64);
    lemma_pair::<usize, (usize, usize)>(b, 56);
    lemma_pair::<usize, (usize, (usize, usize))>(b, 44);
    lemma_pair::<i32, (usize, (usize, (usize, usize)))>(b, 40);
}

/// `struct lldpd_port_set` on a 64-bit machine.
pub proof fn port_set_in_place_64(b: Seq<u8>)
    requires
        is_64(),
        b.len() == 80,
    ensures
        extent::<RawPortSet>() == 80,
        alignment::<RawPortSet>() == 8,
        ({
            let v = structure::<RawPortSet>(b);
            &&& v.ifname == number_at(b, 0, 8)
            &&& v.local_id == number_at(b, 8, 8)
            &&& v.local_descr == number_at(b, 16, 8)
            &&& v.vlan_advertise_pattern == number_at(b, 24, 8)
            &&& v.rxtx == signed_32(number_at(b, 32, 4))
            &&& v.vlan_tx_tag == signed_32(number_at(b, 36, 4))
            &&& v.vlan_tx_enabled == signed_32(number_at(b, 40, 4))
            &&& v.med_policy == number_at(b, 48, 8)
            &&& v.med_location == number_at(b, 56, 8)
            &&& v.med_power == number_at(b, 64, 8)
            &&& v.dot3_power == number_at(b, 72, 8)
        }),
{
    lemma_port_set_part_1_64(b);
    lemma_port_set_part_2_64(b);
    lemma_pair::<
        (usize, (usize, (usize, (usize, (i32, i32))))),
        (i32, (usize, (usize, (usize, usize)))),
    >(b, 0);
    lemma_record::<RawPortSet>(b, 80, 8, 80);
}

proof fn lemma_port_set_part_1_32(b: Seq<u8>)
    requires
        is_32(),
        b.len() == 44,
    ensures
        end_of::<(usize, (usize, (usize, (usize, (i32, i32)))))>(0) == 24,
        widest::<(usize, (usize, (usize, (usize, (i32, i32)))))>() == 4,
        ({
            let g = fields_at::<(usize, (usize, (usize, (usize, (i32, i32)))))>(b, 0);
            &&& g.0 == number_at(b, 0, 4)
            &&& g.1.0 == number_at(b, 4, 4)
            &&& g.1.1.0 == number_at(b, 8, 4)
            &&& g.1.1.1.0 == number_at(b, 12, 4)
            &&& g.1.1.1.1.0 == signed_32(number_at(b, 16, 4))
            &&& g.1.1.1.1.1 == signed_32(number_at(b, 20, 4))
        }),
{
    lemma_usize_field(b, 0, 4, 0);
    lemma_usize_field(b, 4, 4, 4);
    lemma_usize_field(b, 8, 4, 8);
    lemma_usize_field(b, 12, 4, 12);
    lemma_i32_field(b, 16, 16);
    lemma_i32_field(b, 20, 20);
    lemma_pair::<i32, i32>(b, 16);
    lemma_pair::<usize, (i32, i32)>(b, 12);
    lemma_pair::<usize, (usize, (i32, i32))>(b, 8);
    lemma_pair::<usize, (usize, (usize, (i32, i32)))>(b, 4);
    lemma_pair::<usize, (usize, (usize, (usize, (i32, i32))))>(b, 0);
}

proof fn lemma_port_set_part_2_32(b: Seq<u8>)
    requires
        is_32(),
        b.len() == 44,
    ensures
        end_of::<(i32, (usize, (usize, (usize, usize))))>(24) == 44,
        widest::<(i32, (usize, (usize, (usize, usize))))>() == 4,
        ({
            let g = fields_at::<(i32, (usize, (usize, (usize, usize))))>(b, 24);
            &&& g.0 == signed_32(number_at(b, 24, 4))
            &&& g.1.0 == number_at(b, 28, 4)
            &&& g.1.1.0 == number_at(b, 32, 4)
            &&& g.1.1.1.0 == number_at(b, 36, 4)
            &&& g.1.1.1.1 == number_at(b, 40, 4)
        }),
{
    lemma_i32_field(b, 24, 24);
    lemma_usize_field(b, 28, 4, 28);
    lemma_usize_field(b, 32, 4, 32);
    lemma_usize_field(b, 36, 4, 36);
    lemma_usize_field(b, 40, 4, 40);
    lemma_pair::<usize, usize>(b, 36);
    lemma_pair::<usize, (usize, usize)>(b, 32);
    lemma_pair::<usize, (usize, (usize, usize))>(b, 28);
    lemma_pair::<i32, (usize, (usize, (usize, usize)))>(b, 24);
}

/// `struct lldpd_port_set` on a 32-bit machine.
pub proof fn port_set_in_place_32(b: Seq<u8>)
    requires
        is_32(),
        b.len() == 44,
    ensures
        extent::<RawPortSet>() == 44,
        alignment::<RawPortSet>() == 4,
        ({
            let v = structure::<RawPortSet>(b);
            &&& v.ifname == number_at(b, 0, 4)
            &&& v.local_id == number_at(b, 4, 4)
            &&& v.local_descr == number_at(b, 8, 4)
            &&& v.vlan_advertise_pattern == number_at(b, 12, 4)
            &&& v.rxtx == signed_32(number_at(b, 16, 4))
            &&& v.vlan_tx_tag == signed_32(number_at(b, 20, 4))
            &&& v.vlan_tx_enabled == signed_32(number_at(b, 24, 4))
            &&& v.med_policy == number_at(b, 28, 4)
            &&& v.med_location == number_at(b, 32, 4)
            &&& v.med_power == number_at(b, 36, 4)
            &&& v.dot3_power == number_at(b, 40, 4)
        }),
{
    lemma_port_set_part_1_32(b);
    lemma_port_set_part_2_32(b);
    lemma_pair::<
        (usize, (usize, (usize, (usize, (i32, i32))))),
        (i32, (usize, (usize, (usize, usize)))),
    >(b, 0);
    lemma_record::<RawPortSet>(b, 44, 4, 44);
}

/// What stands between two fields of a structure is written as zeros.
proof fn lemma_gap<A: Fields, B: Pod, C: Pod, D: Fields, R: Record<Fs = (A, (B, (C, D)))>>(
    v: R,
    from: nat,
    to: nat,
)
    requires
        layout::align_up_to(end_of::<A>(0), B::align()) + B::size() == from,
        layout::align_up_to(from, C::align()) == to,
        from <= to,
    ensures
        v.encode().len() >= to,
        forall|i: int| from <= i < to ==> v.encode()[i] == 0,
{
    reveal(end_of);
    let (a, (x, (y, d))) = v.fields();
    let none: Seq<u8> = Seq::empty();
    let first = a.put(none);
    let second = x.put(first);
    let third = y.put(second);
    let whole = d.put(third);
    a.lemma_put(none, first);
    x.lemma_put(first, second);
    y.lemma_put(second, third);
    d.lemma_put(third, whole);
    C::lemma_layout();
    y.lemma_round_trip();
    R::Fs::lemma_bounds(0);
    layout::lemma_align_up_to(whole.len(), R::Fs::max_align());
    assert(v.fields().put(none) == whole);
    assert forall|i: int| from <= i < to implies v.encode()[i] == 0 by {
        assert(third[i] == 0);
        assert(whole[i] == whole.subrange(0, third.len() as int)[i]);
        assert(v.encode()[i] == whole[i]);
    }
}

pub(crate) proof fn lemma_port_set_gap_64(v: RawPortSet)
    requires
        is_64(),
    ensures
        forall|i: int| 44 <= i < 48 ==> v.encode()[i] == 0,
{
    lemma_port_set_part_1_64(Seq::new(80, |i: int| 0u8));
    assert(layout::align_up_to(40, 4) == 40);
    assert(layout::align_up_to(44, 8) == 48);
    lemma_gap::<
        (usize, (usize, (usize, (usize, (i32, i32))))),
        i32,
        usize,
        (usize, (usize, usize)),
        RawPortSet,
    >(v, 44, 48);
}

} // verus!
