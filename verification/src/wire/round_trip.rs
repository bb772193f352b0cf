//! What was written reads back.

use vstd::prelude::*;

use super::abi;
use super::cursor;
use super::decode;
use super::encode;
use super::layout;
use super::pod;
use super::pod::Pod;
use super::raw::{RawInterface, RawInterfaceList, RawPortSet};
use super::sent;
use super::sent::{SentInterface, SentInterfaces, SentLeaf, SentStruct};
use crate::error::Malformed;
use crate::model::InterfaceModel;
use crate::text;

verus! {

/// A text reads back from its C string.
pub proof fn c_string_reads_back(s: Seq<char>)
    ensures
        text::text_of(cursor::without_nul(encode::c_string(s))) == s,
{
    text::text_of_encoded_text(s);
    assert(cursor::without_nul(encode::c_string(s)) =~= vstd::utf8::encode_utf8(s));
}

proof fn lemma_nothing_to_pad()
    ensures
        layout::zero_pad(Seq::empty(), pod::ptr_width()) == Seq::<u8>::empty(),
{
    pod::lemma_ptr_width();
    assert(layout::zero_pad(Seq::empty(), pod::ptr_width()) =~= Seq::<u8>::empty()) by {
        if pod::ptr_width() == 4 {
            assert(layout::align_up_to(0, 4) == 0);
        } else {
            assert(layout::align_up_to(0, 8) == 0);
        }
    }
}

/// A C string is the text's encoding with one NUL behind it.
pub proof fn c_strings_end_in_nul(s: Seq<char>)
    ensures
        encode::c_string(s).len() == vstd::utf8::encode_utf8(s).len() + 1,
        encode::c_string(s).last() == 0,
        encode::c_string(s).drop_last() == vstd::utf8::encode_utf8(s),
{
    assert(encode::c_string(s).drop_last() =~= vstd::utf8::encode_utf8(s));
}

/// A leaf that is put behind other bytes stands at the next multiple of the
/// pointer width, with zeros before it: its reference, the length of its
/// header and its content, and its content.
pub proof fn a_leaf_follows(buf: Seq<u8>, orig: usize, content: Seq<u8>, start: nat)
    requires
        super::meaning::comes_to(buf.len(), start),
        start + 2 * pod::ptr_width() + content.len() <= usize::MAX,
    ensures
        ({
            let w = pod::ptr_width();
            let b = encode::with_leaf(buf, orig, content);
            &&& b.len() == start + 2 * w + content.len()
            &&& b.take(buf.len() as int) == buf
            &&& forall|i: int| buf.len() <= i < start ==> b[i] == 0
            &&& abi::number_at(b, start as int, w) == orig
            &&& abi::number_at(b, (start + w) as int, w) == 2 * w + content.len()
            &&& b.skip((start + 2 * w) as int) == content
        }),
{
    super::meaning::lemma_comes_to(buf.len(), start);
    let w = pod::ptr_width();
    let b = encode::with_leaf(buf, orig, content);
    let declared = (2 * w + content.len()) as usize;
    layout::lemma_align_up_to(buf.len(), w);
    orig.lemma_round_trip();
    declared.lemma_round_trip();
    assert(b.take(buf.len() as int) =~= buf);
    assert(b.subrange(start as int, (start + w) as int) =~= orig.encode());
    assert(b.subrange((start + w) as int, (start + 2 * w) as int) =~= declared.encode());
    abi::usize_in_place(b, start as int);
    abi::usize_in_place(b, (start + w) as int);
    assert(b.skip((start + 2 * w) as int) =~= content);
}

/// The name in a `GET_INTERFACE` request reads back, for every name. Its chunk
/// has the reference 1 and declares the whole payload.
pub proof fn interface_name_request_reads_back(name: Seq<char>, ptr: usize)
    requires
        ptr != 0,
        encode::leaf_chunk(1, encode::c_string(name)).len() <= usize::MAX,
    ensures
        cursor::text_step(
            encode::leaf_chunk(1, encode::c_string(name)),
            decode::message_start(),
            ptr,
        ).outcome() == Ok::<Option<Seq<char>>, Malformed>(Some(name)),
        cursor::text_step(
            encode::leaf_chunk(1, encode::c_string(name)),
            decode::message_start(),
            ptr,
        ).at.pos == encode::leaf_chunk(1, encode::c_string(name)).len(),
        cursor::header_step(
            encode::leaf_chunk(1, encode::c_string(name)),
            decode::message_start(),
        ).value == (1usize, encode::leaf_chunk(1, encode::c_string(name)).len() as usize),
{
    let b = encode::leaf_chunk(1, encode::c_string(name));
    let none: Seq<u8> = Seq::empty();
    let leaf = SentLeaf { orig: 1, content: encode::c_string(name) };
    lemma_nothing_to_pad();
    assert(sent::put_leaf(none, ptr, leaf) =~= b);
    assert(b =~= b.subrange(0, b.len() as int));
    sent::lemma_leaf(b, none, ptr, leaf);
    c_string_reads_back(name);
    pod::lemma_ptr_width();
    1usize.lemma_round_trip();
    ((cursor::header_width() + leaf.content.len()) as usize).lemma_round_trip();
    a_leaf_follows(none, 1, leaf.content, 0);
    super::meaning::headers_are_two_numbers(b, decode::message_start(), 0);
    assert(sent::at(none) == decode::message_start());
}

/// Padding stays the same behind a prefix that needs none.
proof fn lemma_pad_behind(head: Seq<u8>, buf: Seq<u8>)
    requires
        head.len() == cursor::header_width(),
    ensures
        layout::zero_pad(head + buf, pod::ptr_width()) == head + layout::zero_pad(
            buf,
            pod::ptr_width(),
        ),
{
    pod::lemma_ptr_width();
    let w = pod::ptr_width();
    let n = buf.len();
    assert((2 * w + n) % w == n % w) by {
        vstd::arithmetic::div_mod::lemma_mod_multiples_vanish(2, n as int, w as int);
        assert(w as int * 2 == 2 * w);
    }
    assert(layout::align_up_to((head + buf).len(), w) == 2 * w + layout::align_up_to(n, w));
    assert(layout::zero_pad(head + buf, w) =~= head + layout::zero_pad(buf, w));
}

/// A chunk around a structure and two leaves is the structure's chunk with
/// the leaves behind it.
proof fn lemma_two_leaves(chunk: SentStruct, first: SentLeaf, second: SentLeaf)
    requires
        ({
            let content = encode::with_leaf(
                encode::with_leaf(chunk.body, first.orig, first.content),
                second.orig,
                second.content,
            );
            chunk.declared == (cursor::header_width() + content.len()) as usize
        }),
    ensures
        ({
            let content = encode::with_leaf(
                encode::with_leaf(chunk.body, first.orig, first.content),
                second.orig,
                second.content,
            );
            let own = sent::put_struct(Seq::empty(), chunk);
            &&& encode::leaf_chunk(chunk.orig, content) == sent::put_leaf(
                sent::put_leaf(own, 2, first),
                3,
                second,
            )
            &&& encode::leaf_chunk(chunk.orig, content).len() == cursor::header_width()
                + content.len()
            &&& chunk.body.len() <= content.len()
        }),
{
    let inner = encode::with_leaf(chunk.body, first.orig, first.content);
    let content = encode::with_leaf(inner, second.orig, second.content);
    let own = sent::put_struct(Seq::empty(), chunk);
    let named = sent::put_leaf(own, 2, first);
    let whole = sent::put_leaf(named, 3, second);
    let head = chunk.orig.encode() + chunk.declared.encode();
    chunk.orig.lemma_round_trip();
    chunk.declared.lemma_round_trip();
    pod::lemma_ptr_width();
    lemma_nothing_to_pad();
    assert(own =~= head + chunk.body);
    lemma_pad_behind(head, chunk.body);
    assert(named =~= head + inner);
    lemma_pad_behind(head, inner);
    assert(whole =~= head + content);
    layout::lemma_align_up_to(chunk.body.len(), pod::ptr_width());
    layout::lemma_align_up_to(inner.len(), pod::ptr_width());
}

proof fn lemma_header_of_struct(b: Seq<u8>, chunk: SentStruct)
    requires
        sent::starts(b, sent::put_struct(Seq::empty(), chunk)),
    ensures
        cursor::header_step(b, decode::message_start()).value == (chunk.orig, chunk.declared),
{
    let none: Seq<u8> = Seq::empty();
    let head = sent::put_header(none, chunk.orig, chunk.declared);
    sent::lemma_starts(b, head, chunk.body);
    sent::lemma_header(b, none, chunk.orig, chunk.declared);
    assert(sent::at(none) == decode::message_start());
}

/// On a 64-bit machine, a `SET_PORT` structure is written with each number in
/// its place, and with zeros in its gap.
pub proof fn port_sets_are_written_in_place_64(v: RawPortSet)
    requires
        abi::is_64(),
    ensures
        ({
            let b = v.encode();
            &&& b.len() == 80
            &&& abi::number_at(b, 0, 8) == v.ifname
            &&& abi::number_at(b, 8, 8) == v.local_id
            &&& abi::number_at(b, 16, 8) == v.local_descr
            &&& abi::number_at(b, 24, 8) == v.vlan_advertise_pattern
            &&& abi::signed_32(abi::number_at(b, 32, 4)) == v.rxtx
            &&& abi::signed_32(abi::number_at(b, 36, 4)) == v.vlan_tx_tag
            &&& abi::signed_32(abi::number_at(b, 40, 4)) == v.vlan_tx_enabled
            &&& forall|i: int| 44 <= i < 48 ==> b[i] == 0
            &&& abi::number_at(b, 48, 8) == v.med_policy
            &&& abi::number_at(b, 56, 8) == v.med_location
            &&& abi::number_at(b, 64, 8) == v.med_power
            &&& abi::number_at(b, 72, 8) == v.dot3_power
        }),
{
    let b = v.encode();
    v.lemma_round_trip();
    abi::port_set_in_place_64(Seq::new(80, |i: int| 0u8));
    abi::structures_are_decoded::<RawPortSet>(b);
    abi::port_set_in_place_64(b);
    abi::lemma_port_set_gap_64(v);
}

/// A `SET_PORT` request reads back: the structure, the interface's name and
/// the description, for every name and every description.
pub proof fn set_port_description_request_reads_back(ifname: Seq<char>, description: Seq<char>)
    requires
        encode::leaf_chunk(1, encode::port_set_content(ifname, description)).len() <= usize::MAX,
    ensures
        ({
            let b = encode::leaf_chunk(1, encode::port_set_content(ifname, description));
            let set = cursor::pod_step::<RawPortSet>(b, decode::message_start());
            let name = cursor::text_step(b, set.at, set.value.ifname);
            let descr = cursor::text_step(b, name.at, set.value.local_descr);
            &&& set.outcome() == Ok::<RawPortSet, Malformed>(encode::port_set())
            &&& set.value.ifname == 2 && set.value.local_descr == 3
            &&& set.value.vlan_tx_enabled == -1
            &&& set.value.local_id == 0 && set.value.vlan_advertise_pattern == 0
            &&& set.value.rxtx == 0 && set.value.vlan_tx_tag == 0
            &&& set.value.med_policy == 0 && set.value.med_location == 0
            &&& set.value.med_power == 0 && set.value.dot3_power == 0
            &&& cursor::header_step(b, decode::message_start()).value == (
                1usize,
                b.len() as usize,
            )
            &&& cursor::leaf_step(b, set.at).value.0 == 2
            &&& cursor::leaf_step(b, name.at).value.0 == 3
            &&& name.outcome() == Ok::<Option<Seq<char>>, Malformed>(Some(ifname))
            &&& descr.outcome() == Ok::<Option<Seq<char>>, Malformed>(Some(description))
            &&& descr.at.pos == b.len()
        }),
{
    let content = encode::port_set_content(ifname, description);
    let b = encode::leaf_chunk(1, content);
    let none: Seq<u8> = Seq::empty();
    let set = encode::port_set();
    set.lemma_round_trip();
    let chunk = SentStruct {
        orig: 1,
        declared: (cursor::header_width() + content.len()) as usize,
        body: set.encode(),
    };
    let first = SentLeaf { orig: 2, content: encode::c_string(ifname) };
    let second = SentLeaf { orig: 3, content: encode::c_string(description) };
    lemma_two_leaves(chunk, first, second);
    let own = sent::put_struct(none, chunk);
    let named = sent::put_leaf(own, 2, first);
    assert(b =~= b.subrange(0, b.len() as int));
    sent::lemma_leaf(b, named, 3, second);
    sent::lemma_leaf(b, own, 2, first);
    sent::lemma_struct::<RawPortSet>(b, none, chunk);
    lemma_header_of_struct(b, chunk);
    sent::lemma_leaf_reference(b, named, 3, second);
    sent::lemma_leaf_reference(b, own, 2, first);
    c_string_reads_back(ifname);
    c_string_reads_back(description);
    assert(sent::at(none) == decode::message_start());
}

/// The interface `x` as lldpd holds it, with a successor if `more` follow.
pub open spec fn stored_interface(x: InterfaceModel, more: bool) -> SentInterface {
    SentInterface {
        chunk: SentStruct {
            orig: 1,
            declared: (cursor::header_width() + RawInterface::size()) as usize,
            body: (RawInterface {
                next_tqe_next: if more {
                    1
                } else {
                    0
                },
                next_tqe_prev: 0,
                name: 1,
                alias: if x.alias is Some {
                    1
                } else {
                    0
                },
            }).encode(),
        },
        name: SentLeaf { orig: 1, content: encode::c_string(x.name) },
        alias: SentLeaf { orig: 1, content: encode::c_string(decode::or_empty(x.alias)) },
    }
}

/// A list of interfaces as lldpd holds it.
pub open spec fn stored_interfaces(list: Seq<InterfaceModel>) -> SentInterfaces {
    SentInterfaces {
        chunk: SentStruct {
            orig: 1,
            declared: (cursor::header_width() + RawInterfaceList::size()) as usize,
            body: (RawInterfaceList {
                tqh_first: if list.len() > 0 {
                    1
                } else {
                    0
                },
                tqh_last: 0,
            }).encode(),
        },
        list: Seq::new(list.len(), |i: int| stored_interface(list[i], i + 1 < list.len())),
    }
}

proof fn lemma_stored_interface(x: InterfaceModel, more: bool)
    ensures
        stored_interface(x, more).chunk.holds::<RawInterface>(),
        stored_interface(x, more).raw().next_tqe_next != 0 <==> more,
        stored_interface(x, more).value() == x,
{
    pod::lemma_ptr_width();
    RawInterface::lemma_layout();
    (RawInterface {
        next_tqe_next: if more {
            1
        } else {
            0
        },
        next_tqe_prev: 0,
        name: 1,
        alias: if x.alias is Some {
            1
        } else {
            0
        },
    }).lemma_round_trip();
    c_string_reads_back(x.name);
    c_string_reads_back(decode::or_empty(x.alias));
}

proof fn lemma_stored_interfaces(list: Seq<InterfaceModel>)
    ensures
        stored_interfaces(list).valid(),
        sent::interface_values(stored_interfaces(list).list) == list,
{
    let stored = stored_interfaces(list);
    pod::lemma_ptr_width();
    RawInterfaceList::lemma_layout();
    (RawInterfaceList {
        tqh_first: if list.len() > 0 {
            1
        } else {
            0
        },
        tqh_last: 0,
    }).lemma_round_trip();
    assert(sent::are_interfaces(stored.list)) by {
        reveal(sent::is_chain);
        assert forall|i: int| 0 <= i < list.len() implies (
        #[trigger] stored.list[i]).chunk.holds::<RawInterface>() && (
        stored.list[i].raw().next_tqe_next != 0 <==> i + 1 < list.len()) by {
            lemma_stored_interface(list[i], i + 1 < list.len());
        }
    }
    assert forall|i: int| 0 <= i < list.len() implies (#[trigger] stored.list[i]).value()
        == list[i] by {
        lemma_stored_interface(list[i], i + 1 < list.len());
    }
    assert(sent::interface_values(stored.list) =~= list);
}

/// Every list of interfaces can be sent, and reads back as itself.
pub proof fn interface_lists_round_trip(list: Seq<InterfaceModel>)
    requires
        stored_interfaces(list).message().len() <= usize::MAX,
    ensures
        decode::interfaces_step(stored_interfaces(list).message()).outcome() == Ok::<
            Seq<InterfaceModel>,
            Malformed,
        >(list),
        decode::interfaces_step(stored_interfaces(list).message()).at.pos == stored_interfaces(
            list,
        ).message().len(),
{
    let b = stored_interfaces(list).message();
    lemma_stored_interfaces(list);
    assert(b =~= b.subrange(0, b.len() as int));
    sent::interfaces_read_back(stored_interfaces(list), b);
}

/// A message that has no room for a chunk header is malformed, whichever
/// message it was meant to be.
pub proof fn short_messages_are_malformed(b: Seq<u8>)
    requires
        b.len() < cursor::header_width(),
    ensures
        ({
            let fault = Malformed::Truncated {
                need: cursor::header_width() as usize,
                offset: 0,
                have: b.len() as usize,
            };
            &&& decode::interfaces_step(b).at.fault == Some(fault)
            &&& decode::hardware_step(b).at.fault == Some(fault)
            &&& decode::neighbor_change_step(b).at.fault == Some(fault)
        }),
{
    broadcast use {cursor::group_stuck, decode::stuck_at_port};

    reveal(cursor::header_step);
    reveal(cursor::pod_step);
    pod::lemma_ptr_width();
    lemma_nothing_to_pad();
    cursor::lemma_chunk_start(0);
    assert(layout::align_up_to(0, pod::ptr_width()) == 0) by {
        let none: Seq<u8> = Seq::empty();
        assert(layout::zero_pad(none, pod::ptr_width()).len() == 0);
        layout::lemma_align_up_to(0, pod::ptr_width());
    }
}

} // verus!
