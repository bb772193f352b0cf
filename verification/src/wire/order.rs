//! The order in which what a structure points to follows it.
//!
//! The leaves of several pointers follow one another, each null pointer left
//! out. The laws here say of each structure which pointers those are, and
//! what stands between and behind their leaves.

use vstd::prelude::*;

use super::cursor;
use super::cursor::{Place, Step};
use super::decode;
use super::raw::{RawChassis, RawHardware, RawInterface, RawNeighborChange, RawPort};
use crate::text;

verus! {

/// The contents of the leaves that `pointers` refer to, from `s` on: none for
/// a null pointer, and for any other that of the next leaf.
pub open spec fn leaf_contents(b: Seq<u8>, s: Place, pointers: Seq<usize>) -> Seq<Option<Seq<u8>>>
    decreases pointers.len(),
{
    if pointers.len() == 0 {
        Seq::empty()
    } else if pointers[0] == 0 {
        seq![None] + leaf_contents(b, s, pointers.drop_first())
    } else {
        let leaf = cursor::leaf_step(b, s);
        seq![Some(leaf.value.1)] + leaf_contents(b, leaf.at, pointers.drop_first())
    }
}

/// Where those leaves end.
pub open spec fn leaves_end(b: Seq<u8>, s: Place, pointers: Seq<usize>) -> Place
    decreases pointers.len(),
{
    if pointers.len() == 0 {
        s
    } else if pointers[0] == 0 {
        leaves_end(b, s, pointers.drop_first())
    } else {
        leaves_end(b, cursor::leaf_step(b, s).at, pointers.drop_first())
    }
}

/// A leaf's content as text: all but one trailing NUL.
pub open spec fn as_text(content: Option<Seq<u8>>) -> Option<Seq<char>> {
    match content {
        Some(b) => Some(
            text::text_of(
                if b.len() > 0 && b.last() == 0 {
                    b.drop_last()
                } else {
                    b
                },
            ),
        ),
        None => None,
    }
}

proof fn lemma_no_leaf(b: Seq<u8>, s: Place)
    ensures
        leaf_contents(b, s, Seq::empty()) == Seq::<Option<Seq<u8>>>::empty(),
        leaves_end(b, s, Seq::empty()) == s,
{
}

/// The first leaf, and those behind it.
proof fn lemma_first_leaf(b: Seq<u8>, s: Place, first: usize, rest: Seq<usize>)
    ensures
        ({
            let bytes = cursor::bytes_step(b, s, first);
            let chars = cursor::text_step(b, s, first);
            &&& leaf_contents(b, s, seq![first] + rest) == seq![bytes.value] + leaf_contents(
                b,
                bytes.at,
                rest,
            )
            &&& leaves_end(b, s, seq![first] + rest) == leaves_end(b, bytes.at, rest)
            &&& chars.at == bytes.at
            &&& chars.value == as_text(bytes.value)
        }),
{
    assert((seq![first] + rest).drop_first() =~= rest);
}

proof fn lemma_two_leaves(b: Seq<u8>, s: Place, first: usize, second: usize)
    ensures
        ({
            let one = cursor::bytes_step(b, s, first);
            let two = cursor::bytes_step(b, one.at, second);
            &&& leaf_contents(b, s, seq![first, second]) == seq![one.value, two.value]
            &&& leaves_end(b, s, seq![first, second]) == two.at
            &&& cursor::text_step(b, s, first).at == one.at
            &&& cursor::text_step(b, s, first).value == as_text(one.value)
            &&& cursor::text_step(b, one.at, second).at == two.at
            &&& cursor::text_step(b, one.at, second).value == as_text(two.value)
        }),
{
    let one = cursor::bytes_step(b, s, first);
    let two = cursor::bytes_step(b, one.at, second);
    lemma_first_leaf(b, s, first, seq![second]);
    lemma_first_leaf(b, one.at, second, Seq::empty());
    lemma_no_leaf(b, two.at);
    assert(seq![first, second] =~= seq![first] + seq![second]);
    assert(seq![second] =~= seq![second] + Seq::<usize>::empty());
    assert(seq![one.value, two.value] =~= seq![one.value] + (seq![two.value] + Seq::empty()));
}

/// Behind a chassis come its identifier, its name and its description, then
/// its addresses, and then its inventory: the hardware, firmware and software
/// revisions, the serial number, the manufacturer, the model and the asset.
pub proof fn chassis_chunks_come_in_order(b: Seq<u8>, s: Place)
    ensures
        ({
            let raw = cursor::pod_step::<RawChassis>(b, s);
            let c = raw.value;
            let v = decode::chassis_step(b, s);
            let own = seq![c.c_id, c.c_name, c.c_descr];
            let inventory = seq![
                c.c_med_hw,
                c.c_med_fw,
                c.c_med_sw,
                c.c_med_sn,
                c.c_med_manuf,
                c.c_med_model,
                c.c_med_asset,
            ];
            let addresses = if c.c_mgmt_tqh_first != 0 {
                decode::mgmt_chain_step(b, leaves_end(b, raw.at, own))
            } else {
                Step { value: Seq::empty(), at: leaves_end(b, raw.at, own) }
            };
            let texts = leaf_contents(b, raw.at, own);
            let med = leaf_contents(b, addresses.at, inventory);
            &&& texts.len() == 3
            &&& v.value.id == decode::or_empty(texts[0])
            &&& v.value.name == as_text(texts[1])
            &&& v.value.description == as_text(texts[2])
            &&& v.value.management_addresses == addresses.value
            &&& med.len() == 7
            &&& v.value.med.hardware_revision == as_text(med[0])
            &&& v.value.med.firmware_revision == as_text(med[1])
            &&& v.value.med.software_revision == as_text(med[2])
            &&& v.value.med.serial_number == as_text(med[3])
            &&& v.value.med.manufacturer == as_text(med[4])
            &&& v.value.med.model == as_text(med[5])
            &&& v.value.med.asset_id == as_text(med[6])
            &&& v.at == leaves_end(b, addresses.at, inventory)
        }),
{
    reveal(decode::chassis_step);
    let raw = cursor::pod_step::<RawChassis>(b, s);
    let c = raw.value;
    let own = seq![c.c_id, c.c_name, c.c_descr];
    let id = cursor::bytes_step(b, raw.at, c.c_id);
    lemma_first_leaf(b, raw.at, c.c_id, seq![c.c_name, c.c_descr]);
    lemma_two_leaves(b, id.at, c.c_name, c.c_descr);
    assert(own =~= seq![c.c_id] + seq![c.c_name, c.c_descr]);
    let at = if c.c_mgmt_tqh_first != 0 {
        decode::mgmt_chain_step(b, leaves_end(b, raw.at, own)).at
    } else {
        leaves_end(b, raw.at, own)
    };
    lemma_inventory(b, at, c);
}

proof fn lemma_inventory(b: Seq<u8>, s: Place, c: RawChassis)
    ensures
        ({
            let inventory = seq![
                c.c_med_hw,
                c.c_med_fw,
                c.c_med_sw,
                c.c_med_sn,
                c.c_med_manuf,
                c.c_med_model,
                c.c_med_asset,
            ];
            let med = leaf_contents(b, s, inventory);
            let v = decode::med_step(b, s, c);
            &&& med.len() == 7
            &&& v.value.hardware_revision == as_text(med[0])
            &&& v.value.firmware_revision == as_text(med[1])
            &&& v.value.software_revision == as_text(med[2])
            &&& v.value.serial_number == as_text(med[3])
            &&& v.value.manufacturer == as_text(med[4])
            &&& v.value.model == as_text(med[5])
            &&& v.value.asset_id == as_text(med[6])
            &&& v.at == leaves_end(b, s, inventory)
        }),
{
    reveal(decode::med_step);
    let inventory = seq![
        c.c_med_hw,
        c.c_med_fw,
        c.c_med_sw,
        c.c_med_sn,
        c.c_med_manuf,
        c.c_med_model,
        c.c_med_asset,
    ];
    let last = seq![c.c_med_model, c.c_med_asset];
    let from_manuf = seq![c.c_med_manuf] + last;
    let from_sn = seq![c.c_med_sn] + from_manuf;
    let from_sw = seq![c.c_med_sw] + from_sn;
    let from_fw = seq![c.c_med_fw] + from_sw;
    let hw = cursor::bytes_step(b, s, c.c_med_hw);
    let fw = cursor::bytes_step(b, hw.at, c.c_med_fw);
    let sw = cursor::bytes_step(b, fw.at, c.c_med_sw);
    let sn = cursor::bytes_step(b, sw.at, c.c_med_sn);
    let manuf = cursor::bytes_step(b, sn.at, c.c_med_manuf);
    lemma_first_leaf(b, s, c.c_med_hw, from_fw);
    lemma_first_leaf(b, hw.at, c.c_med_fw, from_sw);
    lemma_first_leaf(b, fw.at, c.c_med_sw, from_sn);
    lemma_first_leaf(b, sw.at, c.c_med_sn, from_manuf);
    lemma_first_leaf(b, sn.at, c.c_med_manuf, last);
    lemma_two_leaves(b, manuf.at, c.c_med_model, c.c_med_asset);
    assert(inventory =~= seq![c.c_med_hw] + from_fw);
}

/// Behind a port come its chassis, then its identifier and its description,
/// and then what the model does not hold.
pub proof fn port_chunks_come_in_order(b: Seq<u8>, s: Place, raw: RawPort, seen: decode::Seen)
    ensures
        ({
            let chassis = decode::port_chassis_step(b, s, raw.p_chassis, seen);
            let own = seq![raw.p_id, raw.p_descr];
            let texts = leaf_contents(b, chassis.at, own);
            let v = decode::port_step(b, s, raw, seen);
            &&& texts.len() == 2
            &&& v.value.chassis == chassis.value
            &&& v.value.id == texts[0]
            &&& v.value.description == as_text(texts[1])
            &&& v.at == decode::port_tail_step(b, leaves_end(b, chassis.at, own), raw)
        }),
{
    reveal(decode::port_step);
    let chassis = decode::port_chassis_step(b, s, raw.p_chassis, seen);
    lemma_two_leaves(b, chassis.at, raw.p_id, raw.p_descr);
}

/// Behind an interface of the list come the interfaces after it, and then its
/// own name and alias.
pub proof fn interface_chunks_come_in_order(b: Seq<u8>, s: Place)
    requires
        cursor::pod_step::<RawInterface>(b, s).at.fault is None,
    ensures
        ({
            let raw = cursor::pod_step::<RawInterface>(b, s);
            let own = seq![raw.value.name, raw.value.alias];
            let rest = if raw.value.next_tqe_next != 0 {
                decode::interface_chain_step(b, raw.at)
            } else {
                Step { value: Seq::empty(), at: raw.at }
            };
            let texts = leaf_contents(b, rest.at, own);
            let v = decode::interface_chain_step(b, s);
            &&& texts.len() == 2
            &&& v.value.len() == rest.value.len() + 1
            &&& v.value[0].name == decode::or_empty(as_text(texts[0]))
            &&& v.value[0].alias == as_text(texts[1])
            &&& v.value.drop_first() == rest.value
            &&& v.at == leaves_end(b, rest.at, own)
        }),
{
    cursor::reading_moves_on::<RawInterface>(b, s);
    let raw = cursor::pod_step::<RawInterface>(b, s);
    let rest = if raw.value.next_tqe_next != 0 {
        decode::interface_chain_step(b, raw.at)
    } else {
        Step { value: Seq::empty(), at: raw.at }
    };
    lemma_two_leaves(b, rest.at, raw.value.name, raw.value.alias);
    assert(decode::interface_chain_step(b, s).value.drop_first() =~= rest.value);
}

/// Behind an interface's structure come the header that stands for the local
/// port, what the local port points to, the neighbors, and the alias.
pub proof fn details_chunks_come_in_order(b: Seq<u8>)
    requires
        cursor::pod_step::<RawHardware>(b, decode::message_start()).value.h_lport.tqe_next == 0,
    ensures
        ({
            let raw = cursor::pod_step::<RawHardware>(b, decode::message_start());
            let marker = cursor::header_step(b, raw.at).at;
            let local = decode::port_step(b, marker, raw.value.h_lport, Map::empty());
            let seen = decode::seen_after(b, marker, raw.value.h_lport.p_chassis, Map::empty());
            let neighbors = decode::neighbor_chain_step(b, local.at, seen);
            let last = if raw.value.h_rports_tqh_first != 0 {
                neighbors.at
            } else {
                local.at
            };
            let own = seq![raw.value.h_ifalias];
            let v = decode::hardware_step(b);
            &&& v.value.local_chassis == local.value.chassis
            &&& raw.value.h_rports_tqh_first != 0 ==> v.value.neighbors == neighbors.value.0
            &&& raw.value.h_rports_tqh_first == 0 ==> v.value.neighbors.len() == 0
            &&& leaf_contents(b, last, own).len() == 1
            &&& v.value.alias == as_text(leaf_contents(b, last, own)[0])
            &&& v.at == leaves_end(b, last, own)
        }),
{
    let raw = cursor::pod_step::<RawHardware>(b, decode::message_start());
    let marker = cursor::header_step(b, raw.at).at;
    let local = decode::port_step(b, marker, raw.value.h_lport, Map::empty());
    let seen = decode::seen_after(b, marker, raw.value.h_lport.p_chassis, Map::empty());
    let last = if raw.value.h_rports_tqh_first != 0 {
        decode::neighbor_chain_step(b, local.at, seen).at
    } else {
        local.at
    };
    let alias = raw.value.h_ifalias;
    lemma_first_leaf(b, last, alias, Seq::empty());
    lemma_no_leaf(b, cursor::bytes_step(b, last, alias).at);
    assert(seq![alias] =~= seq![alias] + Seq::<usize>::empty());
}

/// Behind a notification's structure come the interface's name and alias, and
/// then the neighbor.
pub proof fn change_chunks_come_in_order(b: Seq<u8>)
    ensures
        ({
            let raw = cursor::pod_step::<RawNeighborChange>(b, decode::message_start());
            let own = seq![raw.value.ifname, raw.value.ifalias];
            let texts = leaf_contents(b, raw.at, own);
            let neighbor = decode::notified_neighbor_step(
                b,
                leaves_end(b, raw.at, own),
                raw.value.neighbor,
            );
            let v = decode::neighbor_change_step(b);
            &&& texts.len() == 2
            &&& v.value.interface == decode::or_empty(as_text(texts[0]))
            &&& v.value.interface_alias == as_text(texts[1])
            &&& v.value.neighbor == neighbor.value
            &&& v.at == neighbor.at
        }),
{
    let raw = cursor::pod_step::<RawNeighborChange>(b, decode::message_start());
    lemma_two_leaves(b, raw.at, raw.value.ifname, raw.value.ifalias);
}

} // verus!
