//! Decoding depends on the bytes that it reads, and on nothing behind them.
//!
//! If reading something from `b` succeeds, reading it from `b + more` gives
//! the same value and ends in the same place. It follows that a message that
//! has been cut short is malformed, wherever it was cut.

use vstd::prelude::*;

use super::cursor;
use super::cursor::Place;
use super::decode;
use super::pod::Pod;
use super::raw::{
    RawChassis, RawHardware, RawInterface, RawInterfaceList, RawMedLoc, RawMgmt,
    RawNeighborChange, RawPi, RawPort, RawPpvid, RawVlan,
};
use super::sent;
use super::sent::{SentChange, SentHardware, SentInterfaces};

verus! {

broadcast use {
    cursor::group_stuck,
    decode::stuck_at_med,
    decode::stuck_at_port_tail,
    decode::stuck_at_port,
};

proof fn local_raw(b: Seq<u8>, more: Seq<u8>, s: Place, n: nat)
    ensures
        cursor::raw_step(b, s, n).at.fault is None ==> cursor::raw_step(b + more, s, n)
            == cursor::raw_step(b, s, n),
{
    if cursor::raw_step(b, s, n).at.fault is None {
        assert((b + more).subrange(s.pos as int, (s.pos + n) as int) =~= b.subrange(
            s.pos as int,
            (s.pos + n) as int,
        ));
    }
}

broadcast proof fn local_header(b: Seq<u8>, more: Seq<u8>, s: Place)
    ensures
        cursor::header_step(b, s).at.fault is None ==> #[trigger] cursor::header_step(
            b + more,
            s,
        ) == cursor::header_step(b, s),
{
    reveal(cursor::header_step);
    let start = if s.fault is Some {
        s
    } else {
        Place { pos: cursor::chunk_start(s.pos), fault: None }
    };
    local_raw(b, more, start, cursor::header_width());
}

broadcast proof fn local_leaf(b: Seq<u8>, more: Seq<u8>, s: Place)
    ensures
        cursor::leaf_step(b, s).at.fault is None ==> #[trigger] cursor::leaf_step(b + more, s)
            == cursor::leaf_step(b, s),
{
    reveal(cursor::leaf_step);
    let header = cursor::header_step(b, s);
    local_raw(b, more, header.at, (header.value.1 - cursor::header_width()) as nat);
    local_header(b, more, s);
}

broadcast proof fn local_pod<T: Pod>(b: Seq<u8>, more: Seq<u8>, s: Place)
    ensures
        cursor::pod_step::<T>(b, s).at.fault is None ==> #[trigger] cursor::pod_step::<T>(
            b + more,
            s,
        ) == cursor::pod_step::<T>(b, s),
{
    reveal(cursor::pod_step);
    local_raw(b, more, cursor::header_step(b, s).at, T::size());
    local_header(b, more, s);
}

broadcast group group_local {
    local_header,
    local_leaf,
    local_pod,
}

proof fn local_interface_chain(b: Seq<u8>, more: Seq<u8>, s: Place)
    ensures
        decode::interface_chain_step(b, s).at.fault is None ==> decode::interface_chain_step(
            b + more,
            s,
        ) == decode::interface_chain_step(b, s),
    decreases b.len() - s.pos,
{
    broadcast use group_local;

    cursor::reading_moves_on::<RawInterface>(b, s);
    let raw = cursor::pod_step::<RawInterface>(b, s);
    if raw.at.fault is None && raw.value.next_tqe_next != 0 {
        local_interface_chain(b, more, raw.at);
    }
}

/// What follows a list of interfaces does not matter.
pub proof fn interfaces_are_local(b: Seq<u8>, more: Seq<u8>)
    requires
        decode::interfaces_step(b).at.fault is None,
    ensures
        decode::interfaces_step(b + more) == decode::interfaces_step(b),
{
    broadcast use group_local;

    let list = cursor::pod_step::<RawInterfaceList>(b, decode::message_start());
    local_interface_chain(b, more, list.at);
}

proof fn local_mgmt_chain(b: Seq<u8>, more: Seq<u8>, s: Place)
    ensures
        decode::mgmt_chain_step(b, s).at.fault is None ==> decode::mgmt_chain_step(b + more, s)
            == decode::mgmt_chain_step(b, s),
    decreases b.len() - s.pos,
{
    broadcast use group_local;

    cursor::reading_moves_on::<RawMgmt>(b, s);
    let raw = cursor::pod_step::<RawMgmt>(b, s);
    if raw.at.fault is None && raw.value.tqe_next != 0 {
        local_mgmt_chain(b, more, raw.at);
    }
}

proof fn local_med(b: Seq<u8>, more: Seq<u8>, s: Place, raw: RawChassis)
    ensures
        decode::med_step(b, s, raw).at.fault is None ==> decode::med_step(b + more, s, raw)
            == decode::med_step(b, s, raw),
{
    broadcast use group_local;

    reveal(decode::med_step);
}

proof fn local_chassis(b: Seq<u8>, more: Seq<u8>, s: Place)
    ensures
        decode::chassis_step(b, s).at.fault is None ==> decode::chassis_step(b + more, s)
            == decode::chassis_step(b, s),
{
    broadcast use group_local;

    reveal(decode::chassis_step);
    let raw = cursor::pod_step::<RawChassis>(b, s);
    let id = cursor::bytes_step(b, raw.at, raw.value.c_id);
    let name = cursor::text_step(b, id.at, raw.value.c_name);
    let descr = cursor::text_step(b, name.at, raw.value.c_descr);
    let mgmt = if raw.value.c_mgmt_tqh_first != 0 {
        decode::mgmt_chain_step(b, descr.at).at
    } else {
        descr.at
    };
    local_mgmt_chain(b, more, descr.at);
    local_med(b, more, mgmt, raw.value);
}

proof fn local_locations(b: Seq<u8>, more: Seq<u8>, s: Place, locs: Seq<RawMedLoc>, i: int)
    ensures
        decode::locations_step(b, s, locs, i).fault is None ==> s.fault is None
            && decode::locations_step(b + more, s, locs, i) == decode::locations_step(
            b,
            s,
            locs,
            i,
        ),
    decreases locs.len() - i,
{
    broadcast use group_local;

    if i < locs.len() {
        local_locations(b, more, decode::location_step(b, s, locs[i]), locs, i + 1);
    }
}

proof fn local_vlan_chain(b: Seq<u8>, more: Seq<u8>, s: Place)
    ensures
        decode::vlan_chain_step(b, s).fault is None ==> decode::vlan_chain_step(b + more, s)
            == decode::vlan_chain_step(b, s),
    decreases b.len() - s.pos,
{
    broadcast use group_local;

    cursor::reading_moves_on::<RawVlan>(b, s);
    let raw = cursor::pod_step::<RawVlan>(b, s);
    if raw.at.fault is None && raw.value.tqe_next != 0 {
        local_vlan_chain(b, more, raw.at);
    }
}

proof fn local_ppvid_chain(b: Seq<u8>, more: Seq<u8>, s: Place)
    ensures
        decode::ppvid_chain_step(b, s).fault is None ==> decode::ppvid_chain_step(b + more, s)
            == decode::ppvid_chain_step(b, s),
    decreases b.len() - s.pos,
{
    broadcast use group_local;

    cursor::reading_moves_on::<RawPpvid>(b, s);
    let raw = cursor::pod_step::<RawPpvid>(b, s);
    if raw.at.fault is None && raw.value.tqe_next != 0 {
        local_ppvid_chain(b, more, raw.at);
    }
}

proof fn local_pi_chain(b: Seq<u8>, more: Seq<u8>, s: Place)
    ensures
        decode::pi_chain_step(b, s).fault is None ==> decode::pi_chain_step(b + more, s)
            == decode::pi_chain_step(b, s),
    decreases b.len() - s.pos,
{
    broadcast use group_local;

    cursor::reading_moves_on::<RawPi>(b, s);
    let raw = cursor::pod_step::<RawPi>(b, s);
    if raw.at.fault is None && raw.value.tqe_next != 0 {
        local_pi_chain(b, more, raw.at);
    }
}

proof fn local_port_tail(b: Seq<u8>, more: Seq<u8>, s: Place, raw: RawPort)
    ensures
        decode::port_tail_step(b, s, raw).fault is None ==> decode::port_tail_step(
            b + more,
            s,
            raw,
        ) == decode::port_tail_step(b, s, raw),
{
    broadcast use group_local;

    reveal(decode::port_tail_step);
    let pattern = cursor::text_step(b, s, raw.p_vlan_advertise_pattern).at;
    let locations = decode::locations_step(b, pattern, raw.p_med_location@, 0);
    let vlans = if raw.p_vlans_tqh_first != 0 {
        decode::vlan_chain_step(b, locations)
    } else {
        locations
    };
    let ppvids = if raw.p_ppvids_tqh_first != 0 {
        decode::ppvid_chain_step(b, vlans)
    } else {
        vlans
    };
    local_locations(b, more, pattern, raw.p_med_location@, 0);
    local_vlan_chain(b, more, locations);
    local_ppvid_chain(b, more, vlans);
    local_pi_chain(b, more, ppvids);
}

proof fn local_port(b: Seq<u8>, more: Seq<u8>, s: Place, raw: RawPort, seen: decode::Seen)
    ensures
        decode::port_step(b, s, raw, seen).at.fault is None ==> decode::port_step(
            b + more,
            s,
            raw,
            seen,
        ) == decode::port_step(b, s, raw, seen) && decode::seen_after(
            b + more,
            s,
            raw.p_chassis,
            seen,
        ) == decode::seen_after(b, s, raw.p_chassis, seen),
{
    broadcast use group_local;

    reveal(decode::port_step);
    let chassis = decode::port_chassis_step(b, s, raw.p_chassis, seen);
    let id = cursor::bytes_step(b, chassis.at, raw.p_id);
    let description = cursor::text_step(b, id.at, raw.p_descr);
    local_port_tail(b, more, description.at, raw);
    local_chassis(b, more, s);
}

proof fn local_neighbor_chain(b: Seq<u8>, more: Seq<u8>, s: Place, seen: decode::Seen)
    ensures
        decode::neighbor_chain_step(b, s, seen).at.fault is None ==> decode::neighbor_chain_step(
            b + more,
            s,
            seen,
        ) == decode::neighbor_chain_step(b, s, seen),
    decreases b.len() - s.pos,
{
    broadcast use group_local;

    cursor::reading_moves_on::<RawPort>(b, s);
    let raw = cursor::pod_step::<RawPort>(b, s);
    if raw.at.fault is None {
        if raw.value.tqe_next != 0 {
            let rest = decode::neighbor_chain_step(b, raw.at, seen);
            local_neighbor_chain(b, more, raw.at, seen);
            local_port(b, more, rest.at, raw.value, rest.value.1);
        } else {
            local_port(b, more, raw.at, raw.value, seen);
        }
    }
}

/// What follows an interface with its neighbors does not matter.
pub proof fn hardware_is_local(b: Seq<u8>, more: Seq<u8>)
    requires
        decode::hardware_step(b).at.fault is None,
    ensures
        decode::hardware_step(b + more) == decode::hardware_step(b),
{
    broadcast use group_local;

    let raw = cursor::pod_step::<RawHardware>(b, decode::message_start());
    let start = cursor::marker_step(b, raw.at);
    let nothing: decode::Seen = Map::empty();
    let local = decode::port_step(b, start, raw.value.h_lport, nothing);
    let seen = decode::seen_after(b, start, raw.value.h_lport.p_chassis, nothing);
    local_port(b, more, start, raw.value.h_lport, nothing);
    local_neighbor_chain(b, more, local.at, seen);
}

/// What follows a notification does not matter.
pub proof fn neighbor_change_is_local(b: Seq<u8>, more: Seq<u8>)
    requires
        decode::neighbor_change_step(b).at.fault is None,
    ensures
        decode::neighbor_change_step(b + more) == decode::neighbor_change_step(b),
{
    broadcast use group_local;

    let raw = cursor::pod_step::<RawNeighborChange>(b, decode::message_start());
    let interface = cursor::text_step(b, raw.at, raw.value.ifname);
    let alias = cursor::text_step(b, interface.at, raw.value.ifalias);
    let port = cursor::pod_step::<RawPort>(b, alias.at);
    local_port(b, more, port.at, port.value, Map::empty());
}

/// A reader that is not stuck is within the message.
pub open spec fn within(b: Seq<u8>, s: Place) -> bool {
    s.fault is None ==> s.pos <= b.len()
}

broadcast proof fn within_header(b: Seq<u8>, s: Place)
    ensures
        within(b, (#[trigger] cursor::header_step(b, s)).at),
{
    reveal(cursor::header_step);
}

broadcast proof fn within_leaf(b: Seq<u8>, s: Place)
    ensures
        within(b, (#[trigger] cursor::leaf_step(b, s)).at),
{
    reveal(cursor::leaf_step);
    within_header(b, s);
}

broadcast proof fn within_pod<T: Pod>(b: Seq<u8>, s: Place)
    ensures
        within(b, (#[trigger] cursor::pod_step::<T>(b, s)).at),
{
    reveal(cursor::pod_step);
    within_header(b, s);
}

broadcast group group_within {
    within_header,
    within_leaf,
    within_pod,
}

proof fn within_interface_chain(b: Seq<u8>, s: Place)
    ensures
        within(b, decode::interface_chain_step(b, s).at),
    decreases b.len() - s.pos,
{
    broadcast use group_within;

    cursor::reading_moves_on::<RawInterface>(b, s);
    let raw = cursor::pod_step::<RawInterface>(b, s);
    if raw.at.fault is None && raw.value.next_tqe_next != 0 {
        within_interface_chain(b, raw.at);
    }
}

proof fn within_mgmt_chain(b: Seq<u8>, s: Place)
    ensures
        within(b, decode::mgmt_chain_step(b, s).at),
    decreases b.len() - s.pos,
{
    broadcast use group_within;

    cursor::reading_moves_on::<RawMgmt>(b, s);
    let raw = cursor::pod_step::<RawMgmt>(b, s);
    if raw.at.fault is None && raw.value.tqe_next != 0 {
        within_mgmt_chain(b, raw.at);
    }
}

proof fn within_chassis(b: Seq<u8>, s: Place)
    ensures
        within(b, decode::chassis_step(b, s).at),
{
    broadcast use group_within;

    reveal(decode::chassis_step);
    reveal(decode::med_step);
    let raw = cursor::pod_step::<RawChassis>(b, s);
    let id = cursor::bytes_step(b, raw.at, raw.value.c_id);
    let name = cursor::text_step(b, id.at, raw.value.c_name);
    let descr = cursor::text_step(b, name.at, raw.value.c_descr);
    within_mgmt_chain(b, descr.at);
}

proof fn within_locations(b: Seq<u8>, s: Place, locs: Seq<RawMedLoc>, i: int)
    requires
        within(b, s),
    ensures
        within(b, decode::locations_step(b, s, locs, i)),
    decreases locs.len() - i,
{
    broadcast use group_within;

    if i < locs.len() {
        within_locations(b, decode::location_step(b, s, locs[i]), locs, i + 1);
    }
}

proof fn within_vlan_chain(b: Seq<u8>, s: Place)
    ensures
        within(b, decode::vlan_chain_step(b, s)),
    decreases b.len() - s.pos,
{
    broadcast use group_within;

    cursor::reading_moves_on::<RawVlan>(b, s);
    let raw = cursor::pod_step::<RawVlan>(b, s);
    if raw.at.fault is None && raw.value.tqe_next != 0 {
        within_vlan_chain(b, raw.at);
    }
}

proof fn within_ppvid_chain(b: Seq<u8>, s: Place)
    ensures
        within(b, decode::ppvid_chain_step(b, s)),
    decreases b.len() - s.pos,
{
    broadcast use group_within;

    cursor::reading_moves_on::<RawPpvid>(b, s);
    let raw = cursor::pod_step::<RawPpvid>(b, s);
    if raw.at.fault is None && raw.value.tqe_next != 0 {
        within_ppvid_chain(b, raw.at);
    }
}

proof fn within_pi_chain(b: Seq<u8>, s: Place)
    ensures
        within(b, decode::pi_chain_step(b, s)),
    decreases b.len() - s.pos,
{
    broadcast use group_within;

    cursor::reading_moves_on::<RawPi>(b, s);
    let raw = cursor::pod_step::<RawPi>(b, s);
    if raw.at.fault is None && raw.value.tqe_next != 0 {
        within_pi_chain(b, raw.at);
    }
}

proof fn within_port(b: Seq<u8>, s: Place, raw: RawPort, seen: decode::Seen)
    requires
        within(b, s),
    ensures
        within(b, decode::port_step(b, s, raw, seen).at),
{
    broadcast use group_within;

    reveal(decode::port_step);
    reveal(decode::port_tail_step);
    within_chassis(b, s);
    let chassis = decode::port_chassis_step(b, s, raw.p_chassis, seen);
    let id = cursor::bytes_step(b, chassis.at, raw.p_id);
    let description = cursor::text_step(b, id.at, raw.p_descr);
    let pattern = cursor::text_step(b, description.at, raw.p_vlan_advertise_pattern).at;
    within_locations(b, pattern, raw.p_med_location@, 0);
    let locations = decode::locations_step(b, pattern, raw.p_med_location@, 0);
    within_vlan_chain(b, locations);
    let vlans = if raw.p_vlans_tqh_first != 0 {
        decode::vlan_chain_step(b, locations)
    } else {
        locations
    };
    within_ppvid_chain(b, vlans);
    let ppvids = if raw.p_ppvids_tqh_first != 0 {
        decode::ppvid_chain_step(b, vlans)
    } else {
        vlans
    };
    within_pi_chain(b, ppvids);
}

proof fn within_neighbor_chain(b: Seq<u8>, s: Place, seen: decode::Seen)
    ensures
        within(b, decode::neighbor_chain_step(b, s, seen).at),
    decreases b.len() - s.pos,
{
    broadcast use group_within;

    cursor::reading_moves_on::<RawPort>(b, s);
    let raw = cursor::pod_step::<RawPort>(b, s);
    if raw.at.fault is None {
        if raw.value.tqe_next != 0 {
            let rest = decode::neighbor_chain_step(b, raw.at, seen);
            within_neighbor_chain(b, raw.at, seen);
            within_port(b, rest.at, raw.value, rest.value.1);
        } else {
            within_port(b, raw.at, raw.value, seen);
        }
    }
}

/// Reading a list of interfaces ends within the message.
pub proof fn interfaces_end_within(b: Seq<u8>)
    ensures
        within(b, decode::interfaces_step(b).at),
{
    broadcast use group_within;

    let list = cursor::pod_step::<RawInterfaceList>(b, decode::message_start());
    within_interface_chain(b, list.at);
}

/// Reading an interface with its neighbors ends within the message.
pub proof fn hardware_ends_within(b: Seq<u8>)
    ensures
        within(b, decode::hardware_step(b).at),
{
    broadcast use group_within;

    let raw = cursor::pod_step::<RawHardware>(b, decode::message_start());
    let start = cursor::marker_step(b, raw.at);
    let nothing: decode::Seen = Map::empty();
    let local = decode::port_step(b, start, raw.value.h_lport, nothing);
    let seen = decode::seen_after(b, start, raw.value.h_lport.p_chassis, nothing);
    within_port(b, start, raw.value.h_lport, nothing);
    within_neighbor_chain(b, local.at, seen);
}

/// Reading a notification ends within the message.
pub proof fn neighbor_change_ends_within(b: Seq<u8>)
    ensures
        within(b, decode::neighbor_change_step(b).at),
{
    broadcast use group_within;

    let raw = cursor::pod_step::<RawNeighborChange>(b, decode::message_start());
    let interface = cursor::text_step(b, raw.at, raw.value.ifname);
    let alias = cursor::text_step(b, interface.at, raw.value.ifalias);
    let port = cursor::pod_step::<RawPort>(b, alias.at);
    within_port(b, port.at, port.value, Map::empty());
}

/// A list of interfaces that has been cut short is malformed.
pub proof fn cut_interfaces_are_malformed(b: Seq<u8>, n: int)
    requires
        decode::interfaces_step(b).at.fault is None,
        0 <= n < decode::interfaces_step(b).at.pos,
    ensures
        decode::interfaces_step(b.take(n)).at.fault is Some,
{
    let cut = b.take(n);
    interfaces_end_within(b);
    if decode::interfaces_step(cut).at.fault is None {
        assert(cut + b.skip(n) =~= b);
        interfaces_are_local(cut, b.skip(n));
        interfaces_end_within(cut);
    }
}

/// An interface with its neighbors that has been cut short is malformed.
pub proof fn cut_hardware_is_malformed(b: Seq<u8>, n: int)
    requires
        decode::hardware_step(b).at.fault is None,
        0 <= n < decode::hardware_step(b).at.pos,
    ensures
        decode::hardware_step(b.take(n)).at.fault is Some,
{
    let cut = b.take(n);
    hardware_ends_within(b);
    if decode::hardware_step(cut).at.fault is None {
        assert(cut + b.skip(n) =~= b);
        hardware_is_local(cut, b.skip(n));
        hardware_ends_within(cut);
    }
}

/// A notification that has been cut short is malformed.
pub proof fn cut_neighbor_change_is_malformed(b: Seq<u8>, n: int)
    requires
        decode::neighbor_change_step(b).at.fault is None,
        0 <= n < decode::neighbor_change_step(b).at.pos,
    ensures
        decode::neighbor_change_step(b.take(n)).at.fault is Some,
{
    let cut = b.take(n);
    neighbor_change_ends_within(b);
    if decode::neighbor_change_step(cut).at.fault is None {
        assert(cut + b.skip(n) =~= b);
        neighbor_change_is_local(cut, b.skip(n));
        neighbor_change_ends_within(cut);
    }
}

/// No strict prefix of a list of interfaces as it was sent is a message.
pub proof fn cut_sent_interfaces_are_malformed(sent: SentInterfaces, n: int)
    requires
        sent.valid(),
        sent.message().len() <= usize::MAX,
        0 <= n < sent.message().len(),
    ensures
        decode::interfaces_step(sent.message().take(n)).at.fault is Some,
{
    let b = sent.message();
    assert(b =~= b.subrange(0, b.len() as int));
    sent::interfaces_read_back(sent, b);
    cut_interfaces_are_malformed(b, n);
}

/// No strict prefix of an interface with its neighbors as it was sent is a
/// message.
pub proof fn cut_sent_hardware_is_malformed(sent: SentHardware, n: int)
    requires
        sent.valid(),
        sent.message().len() <= usize::MAX,
        0 <= n < sent.message().len(),
    ensures
        decode::hardware_step(sent.message().take(n)).at.fault is Some,
{
    let b = sent.message();
    assert(b =~= b.subrange(0, b.len() as int));
    sent::hardware_reads_back(sent, b);
    cut_hardware_is_malformed(b, n);
}

/// No strict prefix of a notification as it was sent is a message.
pub proof fn cut_sent_change_is_malformed(sent: SentChange, n: int)
    requires
        sent.valid(),
        sent.message().len() <= usize::MAX,
        0 <= n < sent.message().len(),
    ensures
        decode::neighbor_change_step(sent.message().take(n)).at.fault is Some,
{
    let b = sent.message();
    assert(b =~= b.subrange(0, b.len() as int));
    sent::change_reads_back(sent, b);
    cut_neighbor_change_is_malformed(b, n);
}

} // verus!
