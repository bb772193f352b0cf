//! What reading gives, said of the bytes that are read.
//!
//! The laws here fix each step of reading by the numbers and the bytes at the
//! places where they stand, and by what the result has to satisfy.

use vstd::prelude::*;

use super::abi;
use super::cursor;
use super::cursor::{Place, Step};
use super::decode;
use super::layout;
use super::pod;
use super::pod::Pod;
use super::raw::{RawHardware, RawMgmt, RawNeighborChange, RawPort};
use crate::error::{Error, Malformed};
use crate::model::ManagementAddressModel;
use crate::text;

verus! {

/// The chunk that a reader at `pos` comes to starts at `start`: at the next
/// multiple of the pointer width.
pub open spec fn comes_to(pos: nat, start: nat) -> bool {
    pos <= start < pos + pod::ptr_width() && start % pod::ptr_width() == 0 && start <= usize::MAX
}

pub(crate) proof fn lemma_comes_to(pos: nat, start: nat)
    requires
        comes_to(pos, start),
    ensures
        cursor::chunk_start(pos) == start,
        pod::ptr_width() == 4 || pod::ptr_width() == 8,
{
    pod::lemma_ptr_width();
    let w = pod::ptr_width() as int;
    layout::lemma_align_up_to(pos, pod::ptr_width());
    let up = layout::align_up_to(pos, pod::ptr_width()) as int;
    let low = if up < start { up } else { start as int };
    let high = if up < start { start as int } else { up };
    assert(high == low) by {
        if high > low {
            vstd::arithmetic::div_mod::lemma_mod_equivalence(high, low, w);
            assert((high - low) % w == 0);
            vstd::arithmetic::div_mod::lemma_small_mod((high - low) as nat, w as nat);
        }
    }
}

/// A chunk's header is two pointer-wide numbers at the chunk's start: the
/// reference and the declared size. If the message stops short of them, that
/// is a fault.
pub proof fn headers_are_two_numbers(b: Seq<u8>, s: Place, start: nat)
    requires
        s.fault is None,
        comes_to(s.pos, start),
        b.len() <= usize::MAX,
    ensures
        ({
            let w = pod::ptr_width();
            let step = cursor::header_step(b, s);
            if start + 2 * w > b.len() {
                step.at == (Place {
                    pos: start,
                    fault: Some(
                        Malformed::Truncated {
                            need: (2 * w) as usize,
                            offset: start as usize,
                            have: b.len() as usize,
                        },
                    ),
                })
            } else {
                &&& step.at == (Place { pos: start + 2 * w, fault: None })
                &&& step.value.0 == abi::number_at(b, start as int, w)
                &&& step.value.1 == abi::number_at(b, (start + w) as int, w)
            }
        }),
{
    reveal(cursor::header_step);
    lemma_comes_to(s.pos, start);
    let w = pod::ptr_width() as int;
    let at = start as int;
    if at + 2 * w <= b.len() {
        let head = b.subrange(at, at + 2 * w);
        assert(head.subrange(0, w) =~= b.subrange(at, at + w));
        assert(head.subrange(w, 2 * w) =~= b.subrange(at + w, at + 2 * w));
        abi::usize_in_place(b, at);
        abi::usize_in_place(b, at + w);
    }
}

/// A chunk without nested chunks holds what it declares beyond its header. To
/// declare less than the header, or more than there is, is a fault.
pub proof fn leaves_hold_what_they_declare(b: Seq<u8>, s: Place, start: nat)
    requires
        s.fault is None,
        comes_to(s.pos, start),
        start + 2 * pod::ptr_width() <= b.len() <= usize::MAX,
    ensures
        ({
            let w = pod::ptr_width();
            let declared = abi::number_at(b, (start + w) as int, w);
            let step = cursor::leaf_step(b, s);
            if declared < 2 * w {
                step.at == (Place {
                    pos: start + 2 * w,
                    fault: Some(
                        Malformed::ShortLeaf {
                            declared: declared as usize,
                            header: (2 * w) as usize,
                        },
                    ),
                })
            } else if start + declared > b.len() {
                step.at == (Place {
                    pos: start + 2 * w,
                    fault: Some(
                        Malformed::Truncated {
                            need: (declared - 2 * w) as usize,
                            offset: (start + 2 * w) as usize,
                            have: b.len() as usize,
                        },
                    ),
                })
            } else {
                &&& step.at == (Place { pos: start + declared, fault: None })
                &&& step.value.0 == abi::number_at(b, start as int, w)
                &&& step.value.1 == b.subrange((start + 2 * w) as int, (start + declared) as int)
            }
        }),
{
    reveal(cursor::leaf_step);
    lemma_comes_to(s.pos, start);
    headers_are_two_numbers(b, s, start);
}

/// A chunk that opens with a structure holds it behind its header. To declare
/// less than both, or for the message to stop short of them, is a fault.
pub proof fn structures_stand_behind_headers<T: Pod>(b: Seq<u8>, s: Place, start: nat)
    requires
        s.fault is None,
        comes_to(s.pos, start),
        start + 2 * pod::ptr_width() <= b.len() <= usize::MAX,
    ensures
        ({
            let w = pod::ptr_width();
            let declared = abi::number_at(b, (start + w) as int, w);
            let end = start + 2 * w + T::size();
            let step = cursor::pod_step::<T>(b, s);
            if declared < 2 * w + T::size() {
                step.at == (Place {
                    pos: start + 2 * w,
                    fault: Some(
                        Malformed::ShortChunk {
                            declared: declared as usize,
                            header: (2 * w) as usize,
                            content: T::size() as usize,
                        },
                    ),
                })
            } else if end > b.len() {
                step.at == (Place {
                    pos: start + 2 * w,
                    fault: Some(
                        Malformed::Truncated {
                            need: T::size() as usize,
                            offset: (start + 2 * w) as usize,
                            have: b.len() as usize,
                        },
                    ),
                })
            } else {
                &&& step.at == (Place { pos: end, fault: None })
                &&& step.value == T::decode(b.subrange((start + 2 * w) as int, end as int))
            }
        }),
{
    reveal(cursor::pod_step);
    lemma_comes_to(s.pos, start);
    headers_are_two_numbers(b, s, start);
}

/// What a pointer refers to is there unless the pointer is null, and is the
/// next leaf: all of it where it is bytes, and all but one trailing NUL where
/// it is text. A null pointer moves the reader nowhere.
pub proof fn pointers_refer_to_leaves(b: Seq<u8>, s: Place, ptr: usize)
    ensures
        ({
            let leaf = cursor::leaf_step(b, s);
            let content = leaf.value.1;
            let bytes = cursor::bytes_step(b, s, ptr);
            let chars = cursor::text_step(b, s, ptr);
            if ptr == 0 {
                &&& bytes.value is None && bytes.at == s
                &&& chars.value is None && chars.at == s
            } else {
                &&& bytes.value == Some(content) && bytes.at == leaf.at
                &&& chars.value is Some && chars.at == leaf.at
                &&& content.len() > 0 && content.last() == 0 ==> chars.value == Some(
                    text::text_of(content.drop_last()),
                )
                &&& content.len() == 0 || content.last() != 0 ==> chars.value == Some(
                    text::text_of(content),
                )
            }
        }),
{
}

/// The header that stands for an embedded structure is passed over.
pub proof fn markers_are_headers(b: Seq<u8>, s: Place)
    ensures
        cursor::marker_step(b, s) == cursor::header_step(b, s).at,
{
}

/// A structure that was read stands, as bytes, behind the header of the chunk
/// that the reader came to.
proof fn lemma_structure_read<T: Pod>(b: Seq<u8>, s: Place, start: nat)
    requires
        cursor::pod_step::<T>(b, s).at.fault is None,
        comes_to(s.pos, start),
        b.len() <= usize::MAX,
    ensures
        s.fault is None,
        start + 2 * pod::ptr_width() + abi::extent::<T>() <= b.len(),
        cursor::pod_step::<T>(b, s).value == abi::structure::<T>(
            b.subrange(
                (start + 2 * pod::ptr_width()) as int,
                (start + 2 * pod::ptr_width() + abi::extent::<T>()) as int,
            ),
        ),
        cursor::pod_step::<T>(b, s).at.pos == start + 2 * pod::ptr_width() + abi::extent::<T>(),
{
    broadcast use cursor::group_stuck;

    cursor::reading_moves_on::<T>(b, s);
    abi::structures_are_decoded::<T>(Seq::empty());
    if start + 2 * pod::ptr_width() > b.len() {
        reveal(cursor::pod_step);
        headers_are_two_numbers(b, s, start);
    } else {
        structures_stand_behind_headers::<T>(b, s, start);
        abi::structures_are_decoded::<T>(
            b.subrange(
                (start + 2 * pod::ptr_width()) as int,
                (start + 2 * pod::ptr_width() + T::size()) as int,
            ),
        );
    }
}

/// A number within a part of the bytes is that number in the whole.
proof fn lemma_number_within(b: Seq<u8>, from: int, to: int, at: int, n: nat)
    requires
        0 <= from,
        0 <= at,
        from + at + n <= to <= b.len(),
    ensures
        abi::number_at(b.subrange(from, to), at, n) == abi::number_at(b, from + at, n),
{
    abi::numbers_are_read_in_place(b.subrange(from, to), at, n);
    abi::numbers_are_read_in_place(b, from + at, n);
    assert(b.subrange(from, to).subrange(at, at + n) =~= b.subrange(from + at, from + at + n));
}

/// An address has as many octets as it says, and at most all sixteen, and
/// they are the first ones that are stored. Its family is the stored number
/// as an unsigned one, and its interface is the stored one.
pub proof fn addresses_are_as_long_as_they_say(raw: RawMgmt)
    ensures
        ({
            let a = decode::mgmt_address(raw);
            &&& raw.m_addrsize <= 16 ==> a.octets.len() == raw.m_addrsize
            &&& raw.m_addrsize > 16 ==> a.octets.len() == 16
            &&& forall|i: int| 0 <= i < a.octets.len() ==> a.octets[i] == raw.m_addr@[i]
            &&& raw.m_family >= 0 ==> a.family == raw.m_family
            &&& raw.m_family < 0 ==> a.family == raw.m_family + 0x1_0000_0000
            &&& a.interface_index == raw.m_iface
        }),
{
    let f = raw.m_family;
    assert(f >= 0 ==> (f as u32) == f) by (bit_vector);
    assert(f < 0 ==> (f as u32) == f + 0x1_0000_0000) by (bit_vector);
}

/// The name that is kept of an array is what comes before the first NUL: it
/// has no NUL in it, and is followed by one or ends the array.
pub proof fn names_end_at_the_first_nul(b: Seq<u8>)
    ensures
        ({
            let kept = decode::until_nul(b);
            &&& kept.len() <= b.len()
            &&& forall|i: int| 0 <= i < kept.len() ==> kept[i] == b[i] && b[i] != 0
            &&& kept.len() < b.len() ==> b[kept.len() as int] == 0
        }),
{
    b.index_of_first_ensures(0u8);
    if b.index_of_first(0u8) is None {
        assert forall|i: int| 0 <= i < b.len() implies b[i] != 0 by {
            assert(b.contains(b[i]));
        }
    }
}

/// A name that was stored with NULs behind it reads back, for every name
/// without a NUL in it.
pub proof fn stored_names_read_back(name: Seq<char>, b: Seq<u8>)
    requires
        vstd::utf8::encode_utf8(name).is_prefix_of(b),
        forall|i: int|
            0 <= i < vstd::utf8::encode_utf8(name).len() ==> vstd::utf8::encode_utf8(name)[i] != 0,
        forall|i: int| vstd::utf8::encode_utf8(name).len() <= i < b.len() ==> b[i] == 0,
    ensures
        text::text_of(decode::until_nul(b)) == name,
{
    let bytes = vstd::utf8::encode_utf8(name);
    let kept = decode::until_nul(b);
    names_end_at_the_first_nul(b);
    assert forall|i: int| 0 <= i < bytes.len() implies b[i] == bytes[i] by {
        assert(b.subrange(0, bytes.len() as int)[i] == b[i]);
    }
    if kept.len() < bytes.len() {
        assert(b[kept.len() as int] == bytes[kept.len() as int]);
    }
    if kept.len() > bytes.len() {
        assert(b[bytes.len() as int] != 0);
    }
    assert(kept =~= bytes);
    text::text_of_encoded_text(name);
}

/// What an optional text or an optional run of bytes stands for when it is
/// not there.
pub proof fn nothing_is_empty<T>(s: Seq<T>)
    ensures
        decode::or_empty(Some(s)) == s,
        decode::or_empty(None::<Seq<T>>).len() == 0,
{
}

/// On a 64-bit machine, an interface's name, its address, and whether it has
/// an alias and a chassis are read where `struct lldpd_hardware` has them.
pub proof fn details_are_read_in_place_64(b: Seq<u8>, n: int)
    requires
        abi::is_64(),
        b.len() <= usize::MAX,
        decode::hardware_step(b).at.fault is None,
        0 <= n <= 16,
        forall|i: int| 96 <= i < 96 + n ==> b[i] != 0,
        n < 16 ==> b[96 + n] == 0,
    ensures
        ({
            let v = decode::hardware_step(b).value;
            &&& b.len() >= 648
            &&& v.name == text::text_of(b.subrange(96, 96 + n))
            &&& v.mac_address@ == b.subrange(120, 126)
            &&& v.alias is Some <==> abi::number_at(b, 112, 8) != 0
            &&& v.local_chassis is Some <==> abi::number_at(b, 272, 8) != 0
            &&& abi::number_at(b, 624, 8) == 0 ==> v.neighbors.len() == 0
            &&& abi::number_at(b, 256, 8) == 0
        }),
{
    broadcast use {cursor::group_stuck, decode::stuck_at_port};

    let s = decode::message_start();
    let body = b.subrange(16, 648);
    abi::hardware_in_place_64(Seq::new(632, |i: int| 0u8));
    lemma_structure_read::<RawHardware>(b, s, 0);
    abi::hardware_in_place_64(body);
    let raw = cursor::pod_step::<RawHardware>(b, s).value;
    assert(raw == abi::structure::<RawHardware>(body));
    let port = body.subrange(240, 608);
    abi::port_in_place_64(port);
    assert(raw.h_ifname@ =~= b.subrange(96, 112));
    assert(raw.h_lladdr@ =~= b.subrange(120, 126));
    lemma_number_within(b, 16, 648, 96, 8);
    lemma_number_within(b, 16, 648, 608, 8);
    assert(port =~= b.subrange(256, 624));
    lemma_number_within(b, 256, 624, 16, 8);
    lemma_number_within(b, 256, 624, 0, 8);
    names_end_at_the_first_nul(raw.h_ifname@);
    let kept = decode::until_nul(raw.h_ifname@);
    assert(kept.len() == n) by {
        if kept.len() < n {
            assert(b[96 + kept.len() as int] != 0);
        }
        if n < kept.len() {
            assert(raw.h_ifname@[n] == b[96 + n]);
        }
    }
    assert(kept =~= b.subrange(96, 96 + n));
    reveal(decode::port_step);
}

/// On a 64-bit machine, what a neighbor says of its port is read where
/// `struct lldpd_port` has it, and the rest of the chain is read from behind
/// that structure.
pub proof fn neighbors_are_read_in_place_64(
    b: Seq<u8>,
    s: Place,
    start: nat,
    seen: decode::Seen,
)
    requires
        abi::is_64(),
        b.len() <= usize::MAX,
        comes_to(s.pos, start),
        decode::neighbor_chain_step(b, s, seen).at.fault is None,
    ensures
        ({
            let at = start as int + 16;
            let all = decode::neighbor_chain_step(b, s, seen).value.0;
            let rest = decode::neighbor_chain_step(
                b,
                Place { pos: start + 384, fault: None },
                seen,
            ).value.0;
            &&& start + 384 <= b.len()
            &&& all.len() > 0
            &&& all[0].ttl == abi::number_at(b, at + 102, 2)
            &&& all[0].port_id_subtype == crate::model::PortIdSubtype::of_code(b[at + 64])
            &&& abi::number_at(b, at + 72, 8) == 0 ==> all[0].port_id.len() == 0
            &&& all[0].port_description is Some <==> abi::number_at(b, at + 88, 8) != 0
            &&& abi::number_at(b, at + 16, 8) != 0
            &&& abi::number_at(b, at, 8) == 0 ==> all.len() == 1
            &&& abi::number_at(b, at, 8) != 0 ==> all.drop_first() == rest
        }),
{
    broadcast use {cursor::group_stuck, decode::stuck_at_port};

    let at = start as int + 16;
    abi::port_in_place_64(Seq::new(368, |i: int| 0u8));
    let raw = cursor::pod_step::<RawPort>(b, s);
    assert(raw.at.fault is None);
    lemma_structure_read::<RawPort>(b, s, start);
    abi::port_in_place_64(b.subrange(at, at + 368));
    lemma_number_within(b, at, at + 368, 102, 2);
    lemma_number_within(b, at, at + 368, 72, 8);
    lemma_number_within(b, at, at + 368, 88, 8);
    lemma_number_within(b, at, at + 368, 16, 8);
    lemma_number_within(b, at, at + 368, 0, 8);
    reveal(decode::port_step);
    let all = decode::neighbor_chain_step(b, s, seen).value.0;
    let rest = decode::neighbor_chain_step(b, raw.at, seen).value.0;
    if raw.value.tqe_next != 0 {
        assert(all.drop_first() =~= rest);
    }
}

/// On a 64-bit machine, what a chassis says of itself is read where
/// `struct lldpd_chassis` has it.
pub proof fn chassis_are_read_in_place_64(b: Seq<u8>, s: Place, start: nat)
    requires
        abi::is_64(),
        b.len() <= usize::MAX,
        comes_to(s.pos, start),
        decode::chassis_step(b, s).at.fault is None,
    ensures
        ({
            let at = start as int + 16;
            let v = decode::chassis_step(b, s).value;
            &&& start + 160 <= b.len()
            &&& v.id_subtype == crate::model::ChassisIdSubtype::of_code(b[at + 21])
            &&& abi::number_at(b, at + 24, 8) == 0 ==> v.id.len() == 0
            &&& v.name is Some <==> abi::number_at(b, at + 40, 8) != 0
            &&& v.description is Some <==> abi::number_at(b, at + 48, 8) != 0
            &&& v.capabilities_available.0 == abi::number_at(b, at + 56, 2)
            &&& v.capabilities_enabled.0 == abi::number_at(b, at + 58, 2)
            &&& v.management_addresses.len() > 0 <==> abi::number_at(b, at + 64, 8) != 0
            &&& v.med.hardware_revision is Some <==> abi::number_at(b, at + 88, 8) != 0
            &&& v.med.firmware_revision is Some <==> abi::number_at(b, at + 96, 8) != 0
            &&& v.med.software_revision is Some <==> abi::number_at(b, at + 104, 8) != 0
            &&& v.med.serial_number is Some <==> abi::number_at(b, at + 112, 8) != 0
            &&& v.med.manufacturer is Some <==> abi::number_at(b, at + 120, 8) != 0
            &&& v.med.model is Some <==> abi::number_at(b, at + 128, 8) != 0
            &&& v.med.asset_id is Some <==> abi::number_at(b, at + 136, 8) != 0
        }),
{
    broadcast use {cursor::group_stuck, decode::stuck_at_med};

    reveal(decode::chassis_step);
    let at = start as int + 16;
    abi::chassis_in_place_64(Seq::new(144, |i: int| 0u8));
    let raw = cursor::pod_step::<super::raw::RawChassis>(b, s);
    assert(raw.at.fault is None);
    lemma_structure_read::<super::raw::RawChassis>(b, s, start);
    abi::chassis_in_place_64(b.subrange(at, at + 144));
    lemma_number_within(b, at, at + 144, 24, 8);
    lemma_number_within(b, at, at + 144, 40, 8);
    lemma_number_within(b, at, at + 144, 48, 8);
    lemma_number_within(b, at, at + 144, 56, 2);
    lemma_number_within(b, at, at + 144, 58, 2);
    lemma_number_within(b, at, at + 144, 64, 8);
    lemma_number_within(b, at, at + 144, 88, 8);
    lemma_number_within(b, at, at + 144, 96, 8);
    lemma_number_within(b, at, at + 144, 104, 8);
    lemma_number_within(b, at, at + 144, 112, 8);
    lemma_number_within(b, at, at + 144, 120, 8);
    lemma_number_within(b, at, at + 144, 128, 8);
    lemma_number_within(b, at, at + 144, 136, 8);
    reveal(decode::med_step);
}

/// On a 64-bit machine, what happened is read where
/// `struct lldpd_neighbor_change` has it.
pub proof fn changes_are_read_in_place_64(b: Seq<u8>)
    requires
        abi::is_64(),
        b.len() <= usize::MAX,
        decode::neighbor_change_step(b).at.fault is None,
    ensures
        ({
            let v = decode::neighbor_change_step(b).value;
            let state = abi::signed_32(abi::number_at(b, 32, 4));
            &&& b.len() >= 48
            &&& v.kind == crate::model::NeighborChangeKind::of_code(state as i32)
            &&& abi::number_at(b, 16, 8) == 0 ==> v.interface.len() == 0
            &&& v.interface_alias is Some <==> abi::number_at(b, 24, 8) != 0
            &&& v.neighbor is Some <==> abi::number_at(b, 40, 8) != 0
        }),
{
    broadcast use {cursor::group_stuck, decode::stuck_at_port};

    let s = decode::message_start();
    abi::neighbor_change_in_place_64(Seq::new(32, |i: int| 0u8));
    let raw = cursor::pod_step::<RawNeighborChange>(b, s);
    assert(raw.at.fault is None);
    lemma_structure_read::<RawNeighborChange>(b, s, 0);
    abi::neighbor_change_in_place_64(b.subrange(16, 48));
    lemma_number_within(b, 16, 48, 16, 4);
    lemma_number_within(b, 16, 48, 0, 8);
    lemma_number_within(b, 16, 48, 8, 8);
    lemma_number_within(b, 16, 48, 24, 8);
}

/// A reader that is not stuck has a value, and one that is stuck has a fault.
pub proof fn outcomes_are_values_or_faults<T>(step: Step<T>)
    ensures
        step.at.fault is None ==> step.outcome() == Ok::<T, Malformed>(step.value),
        step.at.fault matches Some(fault) ==> step.outcome() == Err::<T, Malformed>(fault),
{
}

/// A decoder succeeds just where the reader gets through, with the value that
/// was read. Otherwise it gives an error that puts the reader's fault into
/// words.
pub proof fn decoders_succeed_where_reading_does<T: DeepView>(
    r: Result<T, Error>,
    step: Step<T::V>,
)
    requires
        decode::decoded(r, step),
    ensures
        r is Ok <==> step.at.fault is None,
        r matches Ok(v) ==> v.deep_view() == step.value,
        r matches Err(e) ==> e is Protocol && e->Protocol_0@ == step.at.fault->Some_0.text(),
{
}

/// A port without a chassis is no neighbor, and a port with one is.
pub proof fn neighbors_have_a_chassis(b: Seq<u8>, s: Place, raw: RawPort, seen: decode::Seen)
    requires
        decode::port_step(b, s, raw, seen).at.fault is None,
    ensures
        ({
            let port = decode::port_step(b, s, raw, seen);
            let neighbor = decode::neighbor_step(b, s, raw, seen);
            &&& raw.p_chassis != 0 ==> neighbor.at == port.at
            &&& raw.p_chassis == 0 ==> neighbor.at == (Place {
                pos: port.at.pos,
                fault: Some(Malformed::NoChassis),
            })
        }),
{
    reveal(decode::port_step);
}

/// A chassis comes once: a reference that stands for one already takes no
/// chunk and leaves the others as they are, and a null one stands for none.
pub proof fn known_chassis_take_no_chunk(b: Seq<u8>, s: Place, r: usize, seen: decode::Seen)
    requires
        r == 0 || seen.contains_key(r),
    ensures
        decode::port_chassis_step(b, s, r, seen).at == s,
        decode::seen_after(b, s, r, seen) == seen,
        r == 0 ==> decode::port_chassis_step(b, s, r, seen).value is None,
        r != 0 ==> decode::port_chassis_step(b, s, r, seen).value == Some(seen[r]),
{
}

/// In a chain that can be read there are as many neighbors as references, and
/// no reference is null.
pub proof fn chains_have_no_null_reference(b: Seq<u8>, s: Place, seen: decode::Seen)
    requires
        decode::neighbor_chain_step(b, s, seen).at.fault is None,
    ensures
        decode::neighbor_chain_step(b, s, seen).value.0.len() == decode::neighbor_references(
            b,
            s,
        ).len(),
        forall|i: int|
            0 <= i < decode::neighbor_references(b, s).len() ==> decode::neighbor_references(
                b,
                s,
            )[i] != 0,
    decreases b.len() - s.pos,
{
    broadcast use {cursor::group_stuck, decode::stuck_at_port};

    cursor::reading_moves_on::<RawPort>(b, s);
    reveal(decode::port_step);
    let raw = cursor::pod_step::<RawPort>(b, s);
    if raw.value.tqe_next != 0 {
        let rest = decode::neighbor_chain_step(b, raw.at, seen);
        chains_have_no_null_reference(b, raw.at, seen);
    }
}

/// A local port with a successor is a fault, behind the header that stands
/// for the port.
pub proof fn local_ports_have_no_successor(b: Seq<u8>)
    requires
        ({
            let raw = cursor::pod_step::<RawHardware>(b, decode::message_start());
            cursor::header_step(b, raw.at).at.fault is None && raw.value.h_lport.tqe_next != 0
        }),
    ensures
        ({
            let raw = cursor::pod_step::<RawHardware>(b, decode::message_start());
            decode::hardware_step(b).at == (Place {
                pos: cursor::header_step(b, raw.at).at.pos,
                fault: Some(Malformed::ChainedLocalPort),
            })
        }),
{
    broadcast use {cursor::group_stuck, decode::stuck_at_port};

}

/// A notified port with a successor is a fault, behind the port.
pub proof fn notified_ports_have_no_successor(b: Seq<u8>, s: Place, ptr: usize)
    requires
        ptr != 0,
        cursor::pod_step::<RawPort>(b, s).at.fault is None,
        cursor::pod_step::<RawPort>(b, s).value.tqe_next != 0,
    ensures
        decode::notified_neighbor_step(b, s, ptr).at == (Place {
            pos: cursor::pod_step::<RawPort>(b, s).at.pos,
            fault: Some(Malformed::ChainedNeighbor),
        }),
{
    broadcast use {cursor::group_stuck, decode::stuck_at_port};

}

/// Reading an optional text or run of bytes succeeds just where the reader
/// gets through, ends where the reader stands, and fails with its fault.
pub proof fn reads_follow_the_reader<T: DeepView>(
    r: Result<T, Malformed>,
    pos: usize,
    step: Step<T::V>,
)
    requires
        cursor::gives(r, pos, step),
    ensures
        pos == step.at.pos,
        r is Ok <==> step.at.fault is None,
        r matches Ok(v) ==> v.deep_view() == step.value,
        r matches Err(fault) ==> step.at.fault == Some(fault),
{
}

/// Passing over a header succeeds just where the reader gets through, ends
/// where the reader stands, and fails with its fault.
pub proof fn skips_follow_the_reader(r: Result<(), Malformed>, pos: usize, place: Place)
    requires
        cursor::reaches(r, pos, place),
    ensures
        pos == place.pos,
        r is Ok <==> place.fault is None,
        r matches Err(fault) ==> place.fault == Some(fault),
{
}

} // verus!
