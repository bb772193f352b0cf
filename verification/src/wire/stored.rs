//! Every value can be sent, and reads back as itself.
//!
//! The functions here lay out a value as lldpd would hold it in its memory.

use vstd::prelude::*;

use super::cursor;
use super::decode;
use super::encode;
use super::meaning;
use super::pod;
use super::pod::Pod;
use super::raw::{
    RawCdpPower, RawChassis, RawDot3MacPhy, RawDot3Power, RawHardware, RawMedLoc, RawMedPolicy,
    RawMedPower, RawMgmt, RawNeighborChange, RawPort,
};
use super::round_trip;
use super::sent;
use super::sent::{
    Known, SentChange, SentChassis, SentHardware, SentLeaf, SentLocation, SentMarker,
    SentNeighbor, SentPort, SentStruct,
};
use crate::error::Malformed;
use crate::model::{
    ChassisIdSubtype, ChassisModel, InterfaceDetailsModel, ManagementAddressModel,
    NeighborChangeKind, NeighborChangeModel, NeighborModel, PortIdSubtype,
};

verus! {

/// A pointer to a text, if there is one.
pub open spec fn pointer(t: Option<Seq<char>>) -> usize {
    if t is Some {
        1
    } else {
        0
    }
}

/// The text that such a pointer refers to.
pub open spec fn stored_text(t: Option<Seq<char>>) -> SentLeaf {
    SentLeaf {
        orig: 1,
        content: encode::c_string(
            match t {
                Some(s) => s,
                None => Seq::empty(),
            },
        ),
    }
}

pub open spec fn stored_bytes(b: Seq<u8>) -> SentLeaf {
    SentLeaf { orig: 1, content: b }
}

#[verifier::opaque]
pub open spec fn stored_struct<T: Pod>(v: T) -> SentStruct {
    SentStruct {
        orig: 1,
        declared: (cursor::header_width() + T::size()) as usize,
        body: v.encode(),
    }
}

proof fn lemma_stored_struct<T: Pod>(v: T)
    ensures
        stored_struct(v).holds::<T>(),
        T::decode(stored_struct(v).body) == v,
{
    reveal(stored_struct);
    v.lemma_round_trip();
    T::lemma_layout();
    pod::lemma_ptr_width();
}

proof fn lemma_stored_text(t: Option<Seq<char>>)
    ensures
        sent::text_value(pointer(t), stored_text(t)) == t,
{
    if let Some(s) = t {
        round_trip::c_string_reads_back(s);
    }
}

/// The `i`-th octet, or zero behind the last.
pub open spec fn octet(b: Seq<u8>, i: int) -> u8 {
    if i < b.len() {
        b[i]
    } else {
        0
    }
}

/// Octets with zeros behind them.
pub open spec fn padded(b: Seq<u8>) -> [u8; 16] {
    [
        octet(b, 0), octet(b, 1), octet(b, 2), octet(b, 3),
        octet(b, 4), octet(b, 5), octet(b, 6), octet(b, 7),
        octet(b, 8), octet(b, 9), octet(b, 10), octet(b, 11),
        octet(b, 12), octet(b, 13), octet(b, 14), octet(b, 15),
    ]
}

proof fn lemma_padded(b: Seq<u8>)
    requires
        b.len() <= 16,
    ensures
        forall|i: int| 0 <= i < 16 ==> #[trigger] padded(b)@[i] == octet(b, i),
{
}

/// Fits into a `struct lldpd_mgmt`.
pub open spec fn is_storable_address(a: ManagementAddressModel) -> bool {
    a.octets.len() <= 16
}

pub open spec fn stored_address(a: ManagementAddressModel, more: bool) -> RawMgmt {
    RawMgmt {
        tqe_next: if more {
            1
        } else {
            0
        },
        tqe_prev: 0,
        m_family: a.family as i32,
        m_addr: padded(a.octets),
        m_addrsize: a.octets.len() as usize,
        m_iface: a.interface_index,
    }
}

/// An address of up to sixteen octets that is stored reads back as those
/// octets, with its family and its interface.
pub proof fn stored_addresses_read_back(a: ManagementAddressModel, more: bool)
    requires
        is_storable_address(a),
    ensures
        decode::mgmt_address(stored_address(a, more)) == a,
{
    let raw = stored_address(a, more);
    meaning::addresses_are_as_long_as_they_say(raw);
    lemma_padded(a.octets);
    let f = a.family;
    assert((f as i32) as u32 == f) by (bit_vector);
    let octets = decode::mgmt_address(raw).octets;
    assert(octets =~= a.octets) by {
        assert forall|i: int| 0 <= i < a.octets.len() implies octets[i] == a.octets[i] by {
            assert(padded(a.octets)@[i] == octet(a.octets, i));
        }
    }
}

/// The number that stands for a chassis ID subtype.
pub open spec fn chassis_subtype_number(t: ChassisIdSubtype) -> u8 {
    match t {
        ChassisIdSubtype::ChassisComponent => 1,
        ChassisIdSubtype::IfAlias => 2,
        ChassisIdSubtype::PortComponent => 3,
        ChassisIdSubtype::MacAddress => 4,
        ChassisIdSubtype::NetworkAddress => 5,
        ChassisIdSubtype::IfName => 6,
        ChassisIdSubtype::Local => 7,
        ChassisIdSubtype::Other(n) => n,
    }
}

/// The number that stands for a port ID subtype.
pub open spec fn port_subtype_number(t: PortIdSubtype) -> u8 {
    match t {
        PortIdSubtype::Unknown => 0,
        PortIdSubtype::IfAlias => 1,
        PortIdSubtype::PortComponent => 2,
        PortIdSubtype::MacAddress => 3,
        PortIdSubtype::NetworkAddress => 4,
        PortIdSubtype::IfName => 5,
        PortIdSubtype::AgentCircuitId => 6,
        PortIdSubtype::Local => 7,
        PortIdSubtype::Other(n) => n,
    }
}

/// The number that stands for a kind of change.
pub open spec fn kind_number(k: NeighborChangeKind) -> i32 {
    match k {
        NeighborChangeKind::Added => 1,
        NeighborChangeKind::Updated => 0,
        NeighborChangeKind::Deleted => (-1) as i32,
        NeighborChangeKind::Other(n) => n,
    }
}

/// Fits into a `struct lldpd_chassis`: a number that has a name is named.
pub open spec fn is_storable_chassis(c: ChassisModel) -> bool {
    &&& c.id_subtype matches ChassisIdSubtype::Other(n) ==> n == 0 || n > 7
    &&& forall|i: int|
        0 <= i < c.management_addresses.len() ==> is_storable_address(
            #[trigger] c.management_addresses[i],
        )
}

pub open spec fn raw_chassis(c: ChassisModel) -> RawChassis {
    RawChassis {
        tqe_next: 0,
        tqe_prev: 0,
        c_refcount: 0,
        c_index: 0,
        c_protocol: 0,
        c_id_subtype: chassis_subtype_number(c.id_subtype),
        c_id: 1,
        c_id_len: 0,
        c_name: pointer(c.name),
        c_descr: pointer(c.description),
        c_cap_available: c.capabilities_available.0,
        c_cap_enabled: c.capabilities_enabled.0,
        c_mgmt_tqh_first: if c.management_addresses.len() > 0 {
            1
        } else {
            0
        },
        c_mgmt_tqh_last: 0,
        c_med_cap_available: 0,
        c_med_type: 0,
        c_med_hw: pointer(c.med.hardware_revision),
        c_med_fw: pointer(c.med.firmware_revision),
        c_med_sw: pointer(c.med.software_revision),
        c_med_sn: pointer(c.med.serial_number),
        c_med_manuf: pointer(c.med.manufacturer),
        c_med_model: pointer(c.med.model),
        c_med_asset: pointer(c.med.asset_id),
    }
}

pub open spec fn stored_addresses(list: Seq<ManagementAddressModel>) -> Seq<SentStruct> {
    Seq::new(list.len(), |i: int| stored_struct(stored_address(list[i], i + 1 < list.len())))
}

/// A chassis as lldpd holds it.
pub open spec fn stored_chassis(c: ChassisModel) -> SentChassis {
    SentChassis {
        chunk: stored_struct(raw_chassis(c)),
        id: stored_bytes(c.id),
        name: stored_text(c.name),
        descr: stored_text(c.description),
        mgmts: stored_addresses(c.management_addresses),
        med_hw: stored_text(c.med.hardware_revision),
        med_fw: stored_text(c.med.firmware_revision),
        med_sw: stored_text(c.med.software_revision),
        med_sn: stored_text(c.med.serial_number),
        med_manuf: stored_text(c.med.manufacturer),
        med_model: stored_text(c.med.model),
        med_asset: stored_text(c.med.asset_id),
    }
}

proof fn lemma_stored_addresses(list: Seq<ManagementAddressModel>)
    requires
        forall|i: int| 0 <= i < list.len() ==> is_storable_address(#[trigger] list[i]),
    ensures
        sent::are_mgmts(stored_addresses(list)),
        sent::mgmt_values(stored_addresses(list)) == list,
{
    let stored = stored_addresses(list);
    assert forall|i: int| 0 <= i < list.len() implies (#[trigger] stored[i]).holds::<RawMgmt>() && (
    RawMgmt::decode(stored[i].body).tqe_next != 0 <==> i + 1 < list.len())
        && decode::mgmt_address(RawMgmt::decode(stored[i].body)) == list[i] by {
        let more = i + 1 < list.len();
        assert(is_storable_address(list[i]));
        lemma_stored_struct(stored_address(list[i], more));
        stored_addresses_read_back(list[i], more);
    }
    assert(sent::are_mgmts(stored)) by {
        reveal(sent::is_chain);
    }
    assert(sent::mgmt_values(stored) =~= list);
}

proof fn lemma_raw_chassis(c: ChassisModel)
    ensures
        stored_chassis(c).chunk.holds::<RawChassis>(),
        stored_chassis(c).raw() == raw_chassis(c),
{
    reveal(SentChassis::raw);
    lemma_stored_struct(raw_chassis(c));
}

/// A chassis that is stored is a chassis to send, and has its value.
pub proof fn stored_chassis_have_their_values(c: ChassisModel)
    requires
        is_storable_chassis(c),
    ensures
        stored_chassis(c).valid(),
        stored_chassis(c).value() == c,
{
    lemma_raw_chassis(c);
    lemma_stored_addresses(c.management_addresses);
    lemma_stored_text(c.name);
    lemma_stored_text(c.description);
    lemma_stored_text(c.med.hardware_revision);
    lemma_stored_text(c.med.firmware_revision);
    lemma_stored_text(c.med.software_revision);
    lemma_stored_text(c.med.serial_number);
    lemma_stored_text(c.med.manufacturer);
    lemma_stored_text(c.med.model);
    lemma_stored_text(c.med.asset_id);
}

/// A policy that says nothing.
pub open spec fn blank_policy() -> RawMedPolicy {
    RawMedPolicy {
        index: 0,
        kind: 0,
        unknown: 0,
        tagged: 0,
        vid: 0,
        priority: 0,
        dscp: 0,
    }
}

/// A location that says nothing.
pub open spec fn blank_location() -> RawMedLoc {
    RawMedLoc {
        index: 0,
        format: 0,
        data: 0,
        data_len: 0,
    }
}

/// A port that refers to a chassis and to no lists.
pub open spec fn raw_port(
    more: bool,
    chassis: usize,
    subtype: u8,
    id: usize,
    descr: usize,
    ttl: u16,
) -> RawPort {
    RawPort {
        tqe_next: if more {
            1
        } else {
            0
        },
        tqe_prev: 0,
        p_chassis: chassis,
        p_lastchange: 0,
        p_lastupdate: 0,
        p_lastremove: 0,
        p_lastframe: 0,
        p_protocol: 0,
        p_bitfield_flags: 0,
        p_hardware_flags: 0,
        p_id_subtype: subtype,
        p_id: id,
        p_id_len: 0,
        p_descr: descr,
        p_descr_force: 0,
        p_mfs: 0,
        p_ttl: ttl,
        p_vlan_tx_tag: 0,
        p_vlan_tx_enabled: 0,
        p_vlan_advertise_pattern: 0,
        p_aggregid: 0,
        p_macphy: RawDot3MacPhy {
            autoneg_support: 0,
            autoneg_enabled: 0,
            autoneg_advertised: 0,
            mau_type: 0,
        },
        p_power: RawDot3Power {
            devicetype: 0,
            supported: 0,
            enabled: 0,
            paircontrol: 0,
            pairs: 0,
            class: 0,
            powertype: 0,
            source: 0,
            priority: 0,
            requested: 0,
            allocated: 0,
            pd_4pid: 0,
            requested_a: 0,
            requested_b: 0,
            allocated_a: 0,
            allocated_b: 0,
            pse_status: 0,
            pd_status: 0,
            pse_pairs_ext: 0,
            class_a: 0,
            class_b: 0,
            class_ext: 0,
            type_ext: 0,
            pd_load: 0,
            pse_max: 0,
        },
        p_med_cap_enabled: 0,
        p_med_policy: [
            blank_policy(),
            blank_policy(),
            blank_policy(),
            blank_policy(),
            blank_policy(),
            blank_policy(),
            blank_policy(),
            blank_policy(),
        ],
        p_med_location: [blank_location(), blank_location(), blank_location()],
        p_med_power: RawMedPower {
            devicetype: 0,
            source: 0,
            priority: 0,
            val: 0,
        },
        p_cdp_power: RawCdpPower {
            request_id: 0,
            management_id: 0,
        },
        p_pvid: 0,
        p_vlans_tqh_first: 0,
        p_vlans_tqh_last: 0,
        p_ppvids_tqh_first: 0,
        p_ppvids_tqh_last: 0,
        p_pids_tqh_first: 0,
        p_pids_tqh_last: 0,
    }
}

/// What such a port refers to.
pub open spec fn stored_port(id: SentLeaf, descr: SentLeaf) -> SentPort {
    let none = stored_bytes(Seq::empty());
    SentPort {
        id,
        descr,
        pattern: none,
        locations: Seq::new(
            3,
            |i: int| SentLocation { marker: SentMarker { orig: 1, declared: 0 }, data: none },
        ),
        vlans: Seq::empty(),
        ppvids: Seq::empty(),
        pis: Seq::empty(),
    }
}

proof fn lemma_no_lists(id: SentLeaf, descr: SentLeaf, raw: RawPort, known: Known)
    requires
        raw.p_chassis != 0 ==> known.contains_key(raw.p_chassis),
        raw.p_vlans_tqh_first == 0,
        raw.p_ppvids_tqh_first == 0,
        raw.p_pids_tqh_first == 0,
    ensures
        stored_port(id, descr).belongs_to(raw, known),
{
    reveal(sent::is_chain);
}

/// Fits into a `struct lldpd_port`.
pub open spec fn is_storable_neighbor(n: NeighborModel) -> bool {
    &&& n.port_id_subtype matches PortIdSubtype::Other(v) ==> v > 7
    &&& is_storable_chassis(n.chassis)
}

pub open spec fn raw_neighbor(n: NeighborModel, more: bool, chassis: usize) -> RawPort {
    raw_port(
        more,
        chassis,
        port_subtype_number(n.port_id_subtype),
        1,
        pointer(n.port_description),
        n.ttl,
    )
}

/// A neighbor as lldpd holds it, with the reference `chassis`.
pub open spec fn stored_neighbor(n: NeighborModel, more: bool, chassis: usize) -> SentNeighbor {
    SentNeighbor {
        chunk: stored_struct(raw_neighbor(n, more, chassis)),
        port: stored_port(stored_bytes(n.port_id), stored_text(n.port_description)),
    }
}

proof fn lemma_raw_neighbor(n: NeighborModel, more: bool, chassis: usize)
    ensures
        stored_neighbor(n, more, chassis).chunk.holds::<RawPort>(),
        stored_neighbor(n, more, chassis).raw() == raw_neighbor(n, more, chassis),
{
    reveal(SentNeighbor::raw);
    lemma_stored_struct(raw_neighbor(n, more, chassis));
}

proof fn lemma_stored_neighbor(n: NeighborModel, more: bool, chassis: usize, known: Known)
    requires
        is_storable_neighbor(n),
        chassis != 0,
        known.contains_key(chassis),
        known[chassis] == stored_chassis(n.chassis),
    ensures
        stored_neighbor(n, more, chassis).valid(known),
        stored_neighbor(n, more, chassis).raw() == raw_neighbor(n, more, chassis),
        stored_neighbor(n, more, chassis).value(known) == n,
{
    let raw = raw_neighbor(n, more, chassis);
    lemma_raw_neighbor(n, more, chassis);
    stored_chassis_have_their_values(n.chassis);
    lemma_no_lists(stored_bytes(n.port_id), stored_text(n.port_description), raw, known);
    lemma_stored_text(n.port_description);
}

/// Fits into a `struct lldpd_hardware`: the name is short enough and holds no
/// NUL.
pub open spec fn is_storable(d: InterfaceDetailsModel) -> bool {
    let name = vstd::utf8::encode_utf8(d.name);
    &&& name.len() <= 16
    &&& forall|i: int| 0 <= i < name.len() ==> name[i] != 0
    &&& d.local_chassis matches Some(c) ==> is_storable_chassis(c)
    &&& forall|i: int| 0 <= i < d.neighbors.len() ==> is_storable_neighbor(
        #[trigger] d.neighbors[i],
    )
    &&& d.neighbors.len() + 2 <= usize::MAX
}

/// The chassis of the local port has the reference 1, and those of the
/// neighbors the ones from 2 on.
pub open spec fn stored_known(d: InterfaceDetailsModel) -> Known {
    Map::new(
        |r: usize| (r == 1 && d.local_chassis is Some) || 2 <= r < d.neighbors.len() + 2,
        |r: usize|
            if r == 1 {
                stored_chassis(d.local_chassis->Some_0)
            } else {
                stored_chassis(d.neighbors[r - 2].chassis)
            },
    )
}

pub open spec fn raw_hardware(d: InterfaceDetailsModel) -> RawHardware {
    RawHardware {
        h_entries_tqe_next: 0,
        h_entries_tqe_prev: 0,
        h_cfg: 0,
        h_recv: 0,
        h_sendfd: 0,
        h_mangle: 0,
        h_ops: 0,
        h_data: 0,
        h_timer: 0,
        h_mtu: 0,
        h_flags: 0,
        h_ifindex: 0,
        h_ifindex_changed: 0,
        h_ifname: padded(vstd::utf8::encode_utf8(d.name)),
        h_ifalias: pointer(d.alias),
        h_lladdr: d.mac_address,
        h_tx_cnt: 0,
        h_rx_cnt: 0,
        h_rx_discarded_cnt: 0,
        h_rx_unrecognized_cnt: 0,
        h_ageout_cnt: 0,
        h_insert_cnt: 0,
        h_delete_cnt: 0,
        h_drop_cnt: 0,
        h_lport_previous: 0,
        h_lport_previous_len: 0,
        h_lchassis_previous_id_subtype: 0,
        h_lchassis_previous_id: 0,
        h_lchassis_previous_id_len: 0,
        h_lport_previous_id_subtype: 0,
        h_lport_previous_id: 0,
        h_lport_previous_id_len: 0,
        h_ifdescr_previous: 0,
        h_lport: raw_port(
            false,
            if d.local_chassis is Some {
                1
            } else {
                0
            },
            0,
            0,
            0,
            0,
        ),
        h_rports_tqh_first: if d.neighbors.len() > 0 {
            1
        } else {
            0
        },
        h_rports_tqh_last: 0,
        h_tx_fast: 0,
    }
}

/// An interface with its neighbors as lldpd holds it.
pub open spec fn stored_details(d: InterfaceDetailsModel) -> SentHardware {
    SentHardware {
        chunk: stored_struct(raw_hardware(d)),
        marker: SentMarker { orig: 1, declared: 0 },
        local: stored_port(stored_bytes(Seq::empty()), stored_bytes(Seq::empty())),
        neighbors: Seq::new(
            d.neighbors.len(),
            |i: int|
                stored_neighbor(d.neighbors[i], i + 1 < d.neighbors.len(), (i + 2) as usize),
        ),
        alias: stored_text(d.alias),
        known: stored_known(d),
    }
}

proof fn lemma_stored_known(d: InterfaceDetailsModel)
    requires
        is_storable(d),
    ensures
        sent::all_valid(stored_known(d)),
{
    let known = stored_known(d);
    assert forall|r: usize| known.contains_key(r) implies (#[trigger] known[r]).valid() by {
        if r == 1 {
            stored_chassis_have_their_values(d.local_chassis->Some_0);
        } else {
            assert(is_storable_neighbor(d.neighbors[r - 2]));
            stored_chassis_have_their_values(d.neighbors[r - 2].chassis);
        }
    }
}

proof fn lemma_stored_neighbors(d: InterfaceDetailsModel)
    requires
        is_storable(d),
    ensures
        sent::are_neighbors(stored_details(d).neighbors, stored_known(d)),
        sent::neighbor_values(stored_details(d).neighbors, stored_known(d)) == d.neighbors,
{
    let list = stored_details(d).neighbors;
    let known = stored_known(d);
    assert forall|i: int| 0 <= i < list.len() implies (#[trigger] list[i]).valid(known) && (
    list[i].raw().tqe_next != 0 <==> i + 1 < list.len()) && list[i].value(known)
        == d.neighbors[i] by {
        let r = (i + 2) as usize;
        assert(is_storable_neighbor(d.neighbors[i]));
        assert(known.contains_key(r));
        assert(known[r] == stored_chassis(d.neighbors[i].chassis));
        lemma_stored_neighbor(d.neighbors[i], i + 1 < d.neighbors.len(), r, known);
    }
    assert(sent::are_neighbors(list, known)) by {
        reveal(sent::is_chain);
    }
    assert(sent::neighbor_values(list, known) =~= d.neighbors);
}

proof fn lemma_raw_hardware(d: InterfaceDetailsModel)
    ensures
        stored_details(d).chunk.holds::<RawHardware>(),
        stored_details(d).raw() == raw_hardware(d),
{
    reveal(SentHardware::raw);
    lemma_stored_struct(raw_hardware(d));
}

proof fn lemma_stored_details(d: InterfaceDetailsModel)
    requires
        is_storable(d),
    ensures
        stored_details(d).valid(),
        stored_details(d).value() == d,
{
    let raw = raw_hardware(d);
    let bytes = vstd::utf8::encode_utf8(d.name);
    let none = stored_bytes(Seq::empty());
    lemma_raw_hardware(d);
    lemma_stored_known(d);
    lemma_stored_neighbors(d);
    lemma_no_lists(none, none, raw.h_lport, stored_known(d));
    lemma_stored_text(d.alias);
    lemma_padded(bytes);
    assert(bytes =~= raw.h_ifname@.subrange(0, bytes.len() as int));
    meaning::stored_names_read_back(d.name, raw.h_ifname@);
    if let Some(c) = d.local_chassis {
        stored_chassis_have_their_values(c);
    }
}

/// Every interface with its neighbors that lldpd can hold can be sent, and
/// reads back as itself.
pub proof fn details_round_trip(d: InterfaceDetailsModel)
    requires
        is_storable(d),
        stored_details(d).message().len() <= usize::MAX,
    ensures
        decode::hardware_step(stored_details(d).message()).outcome() == Ok::<
            InterfaceDetailsModel,
            Malformed,
        >(d),
{
    let b = stored_details(d).message();
    lemma_stored_details(d);
    assert(b =~= b.subrange(0, b.len() as int));
    sent::hardware_reads_back(stored_details(d), b);
}

/// Fits into a `struct lldpd_neighbor_change`.
pub open spec fn is_storable_change(c: NeighborChangeModel) -> bool {
    &&& c.kind matches NeighborChangeKind::Other(n) ==> n < -1 || n > 1
    &&& c.neighbor matches Some(n) ==> is_storable_neighbor(n)
}

pub open spec fn raw_change(c: NeighborChangeModel) -> RawNeighborChange {
    RawNeighborChange {
        ifname: 1,
        ifalias: pointer(c.interface_alias),
        state: kind_number(c.kind),
        neighbor: if c.neighbor is Some {
            1
        } else {
            0
        },
    }
}

/// A change as lldpd holds it.
pub open spec fn stored_change(c: NeighborChangeModel) -> SentChange {
    let n = c.neighbor->Some_0;
    SentChange {
        chunk: stored_struct(raw_change(c)),
        ifname: stored_text(Some(c.interface)),
        ifalias: stored_text(c.interface_alias),
        neighbor: stored_neighbor(n, false, 1),
        known: if c.neighbor is Some {
            map![1usize => stored_chassis(n.chassis)]
        } else {
            Map::empty()
        },
    }
}

proof fn lemma_raw_change(c: NeighborChangeModel)
    ensures
        stored_change(c).chunk.holds::<RawNeighborChange>(),
        stored_change(c).raw() == raw_change(c),
{
    reveal(SentChange::raw);
    lemma_stored_struct(raw_change(c));
}

/// Every change that lldpd can hold can be sent, and reads back as itself.
pub proof fn changes_round_trip(c: NeighborChangeModel)
    requires
        is_storable_change(c),
        stored_change(c).message().len() <= usize::MAX,
    ensures
        decode::neighbor_change_step(stored_change(c).message()).outcome() == Ok::<
            NeighborChangeModel,
            Malformed,
        >(c),
{
    let stored = stored_change(c);
    let b = stored.message();
    lemma_raw_change(c);
    lemma_stored_text(Some(c.interface));
    lemma_stored_text(c.interface_alias);
    if let Some(n) = c.neighbor {
        stored_chassis_have_their_values(n.chassis);
        lemma_stored_neighbor(n, false, 1, stored.known);
    }
    assert(b =~= b.subrange(0, b.len() as int));
    sent::change_reads_back(stored, b);
}

} // verus!
