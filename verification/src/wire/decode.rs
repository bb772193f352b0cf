//! Decoding the messages that lldpd sends.
//!
//! The chunks of a structure follow its own bytes in the order in which
//! lldpd's marshalling table names its pointers. A list is nested: an
//! element's successor is among its own pointers, and is read before the
//! rest of the element wherever the table names it first.

use std::collections::HashMap;
use std::sync::Arc;

use vstd::prelude::*;
use vstd::slice::{slice_subrange, slice_to_vec};

use super::cursor;
use super::cursor::{
    consume_substruct_marker, read_chunk_pod, read_opt_bytes, read_opt_cstring, Cursor, Place,
    Step,
};
use super::raw::{
    RawChassis, RawHardware, RawInterface, RawInterfaceList, RawMedLoc, RawMgmt,
    RawNeighborChange, RawPi, RawPort, RawPpvid, RawVlan,
};
use crate::error::{Error, Malformed};
use crate::model::{
    Capabilities, Chassis, ChassisIdSubtype, ChassisModel, Interface, InterfaceDetails,
    InterfaceDetailsModel, InterfaceModel, ManagementAddress, ManagementAddressModel,
    MedInventory, MedInventoryModel, Neighbor, NeighborChange, NeighborChangeKind,
    NeighborChangeModel, NeighborModel, PortIdSubtype,
};
use crate::text;

verus! {

broadcast use cursor::group_stuck;

/// The text, or the empty text where there is none.
pub open spec fn or_empty<T>(s: Option<Seq<T>>) -> Seq<T> {
    match s {
        Some(s) => s,
        None => Seq::empty(),
    }
}

/// A message starts at its first byte.
pub open spec fn message_start() -> Place {
    Place { pos: 0, fault: None }
}

/// `r` is the value that reading a whole message gives, or the fault.
pub open spec fn found<T: DeepView>(r: Result<T, Malformed>, step: Step<T::V>) -> bool {
    match r {
        Ok(v) => step.outcome() == Ok::<T::V, Malformed>(v.deep_view()),
        Err(fault) => step.outcome() == Err::<T::V, Malformed>(fault),
    }
}

/// `r` is the value that reading a whole message gives, or an error that puts
/// the fault into words.
pub open spec fn decoded<T: DeepView>(r: Result<T, Error>, step: Step<T::V>) -> bool {
    match (r, step.outcome()) {
        (Ok(v), Ok(value)) => v.deep_view() == value,
        (Err(e), Err(fault)) => e.reports(fault),
        _ => false,
    }
}

/// Two decodings of one message agree: both give the same value, or both
/// report the same fault in the same words.
pub proof fn decodings_agree<T: DeepView>(
    a: Result<T, Error>,
    b: Result<T, Error>,
    step: Step<T::V>,
)
    requires
        decoded(a, step),
        decoded(b, step),
    ensures
        match (a, b) {
            (Ok(v), Ok(w)) => v.deep_view() == w.deep_view(),
            (Err(e), Err(f)) => e is Protocol && e.same_as(f),
            _ => false,
        },
{
}

/// A chain of interfaces, from the one whose chunk comes next. The rest of
/// the chain comes before the element's own texts.
pub open spec fn interface_chain_step(b: Seq<u8>, s: Place) -> Step<Seq<InterfaceModel>>
    decreases b.len() - s.pos,
{
    let raw = cursor::pod_step::<RawInterface>(b, s);
    if raw.at.fault is Some {
        Step { value: Seq::empty(), at: raw.at }
    } else {
        proof {
            cursor::reading_moves_on::<RawInterface>(b, s);
        }
        let rest = if raw.value.next_tqe_next != 0 {
            interface_chain_step(b, raw.at)
        } else {
            Step { value: Seq::empty(), at: raw.at }
        };
        let name = cursor::text_step(b, rest.at, raw.value.name);
        let alias = cursor::text_step(b, name.at, raw.value.alias);
        Step {
            value: seq![InterfaceModel { name: or_empty(name.value), alias: alias.value }]
                + rest.value,
            at: alias.at,
        }
    }
}

/// The reply to `GET_INTERFACES`.
pub open spec fn interfaces_step(b: Seq<u8>) -> Step<Seq<InterfaceModel>> {
    let list = cursor::pod_step::<RawInterfaceList>(b, message_start());
    if list.at.fault is Some || list.value.tqh_first == 0 {
        Step { value: Seq::empty(), at: list.at }
    } else {
        interface_chain_step(b, list.at)
    }
}

/// Decodes the reply to `GET_INTERFACES`: the interfaces in list order.
pub fn decode_interfaces(payload: &[u8]) -> (r: Result<Vec<Interface>, Error>)
    ensures
        decoded(r, interfaces_step(payload@)),
{
    match interfaces(payload) {
        Ok(v) => Ok(v),
        Err(fault) => Err(fault.into_error()),
    }
}

fn interfaces(payload: &[u8]) -> (r: Result<Vec<Interface>, Malformed>)
    ensures
        found(r, interfaces_step(payload@)),
{
    let mut cursor = Cursor::new(payload);
    let list: RawInterfaceList = read_chunk_pod(&mut cursor)?;
    if list.tqh_first == 0 {
        let none: Vec<Interface> = Vec::new();
        assert(none.deep_view() =~= Seq::empty());
        return Ok(none);
    }
    decode_interface_chain(&mut cursor)
}

fn decode_interface_chain(cursor: &mut Cursor) -> (r: Result<Vec<Interface>, Malformed>)
    ensures
        final(cursor).buf == old(cursor).buf,
        cursor::gives(
            r,
            final(cursor).pos,
            interface_chain_step(old(cursor).buf@, old(cursor).place()),
        ),
    decreases old(cursor).buf@.len() - old(cursor).pos,
{
    let ghost start = cursor.place();
    proof {
        cursor::reading_moves_on::<RawInterface>(cursor.buf@, start);
    }
    let raw: RawInterface = read_chunk_pod(cursor)?;
    let mut rest = if raw.next_tqe_next != 0 {
        decode_interface_chain(cursor)?
    } else {
        Vec::new()
    };
    let name = match read_opt_cstring(cursor, raw.name)? {
        Some(name) => name,
        None => String::new(),
    };
    let alias = read_opt_cstring(cursor, raw.alias)?;
    let ghost tail = rest.deep_view();
    let first = Interface { name, alias };
    let ghost head = first.deep_view();
    let mut out = vec![first];
    out.append(&mut rest);
    assert(out.deep_view() =~= seq![head] + tail);
    Ok(out)
}

/// A chain of management addresses, from the one whose chunk comes next.
pub open spec fn mgmt_chain_step(b: Seq<u8>, s: Place) -> Step<Seq<ManagementAddressModel>>
    decreases b.len() - s.pos,
{
    let raw = cursor::pod_step::<RawMgmt>(b, s);
    if raw.at.fault is Some {
        Step { value: Seq::empty(), at: raw.at }
    } else {
        proof {
            cursor::reading_moves_on::<RawMgmt>(b, s);
        }
        let rest = if raw.value.tqe_next != 0 {
            mgmt_chain_step(b, raw.at)
        } else {
            Step { value: Seq::empty(), at: raw.at }
        };
        Step { value: seq![mgmt_address(raw.value)] + rest.value, at: rest.at }
    }
}

/// The address that lldpd holds in `raw`: as many of its bytes as it says,
/// and at most all.
pub open spec fn mgmt_address(raw: RawMgmt) -> ManagementAddressModel {
    ManagementAddressModel {
        family: raw.m_family as u32,
        octets: raw.m_addr@.take(
            if raw.m_addrsize < 16 {
                raw.m_addrsize as int
            } else {
                16
            },
        ),
        interface_index: raw.m_iface,
    }
}

/// The LLDP-MED inventory of a chassis.
#[verifier::opaque]
pub open spec fn med_step(b: Seq<u8>, s: Place, raw: RawChassis) -> Step<MedInventoryModel> {
    let hw = cursor::text_step(b, s, raw.c_med_hw);
    let fw = cursor::text_step(b, hw.at, raw.c_med_fw);
    let sw = cursor::text_step(b, fw.at, raw.c_med_sw);
    let sn = cursor::text_step(b, sw.at, raw.c_med_sn);
    let manuf = cursor::text_step(b, sn.at, raw.c_med_manuf);
    let model = cursor::text_step(b, manuf.at, raw.c_med_model);
    let asset = cursor::text_step(b, model.at, raw.c_med_asset);
    Step {
        value: MedInventoryModel {
            hardware_revision: hw.value,
            firmware_revision: fw.value,
            software_revision: sw.value,
            serial_number: sn.value,
            manufacturer: manuf.value,
            model: model.value,
            asset_id: asset.value,
        },
        at: asset.at,
    }
}

/// A reader that is stuck stays where it is.
pub broadcast proof fn stuck_at_med(b: Seq<u8>, s: Place, raw: RawChassis)
    requires
        s.fault is Some,
    ensures
        (#[trigger] med_step(b, s, raw)).at == s,
{
    reveal(med_step);
}

/// A chassis whose inventory pointers are all null has an empty inventory.
pub proof fn no_pointers_no_inventory(b: Seq<u8>, s: Place, raw: RawChassis)
    requires
        raw.c_med_hw == 0,
        raw.c_med_fw == 0,
        raw.c_med_sw == 0,
        raw.c_med_sn == 0,
        raw.c_med_manuf == 0,
        raw.c_med_model == 0,
        raw.c_med_asset == 0,
    ensures
        med_step(b, s, raw).at == s,
        med_step(b, s, raw).value == (MedInventoryModel {
            hardware_revision: None,
            firmware_revision: None,
            software_revision: None,
            serial_number: None,
            manufacturer: None,
            model: None,
            asset_id: None,
        }),
{
    reveal(med_step);
}

/// A chassis.
#[verifier::opaque]
pub open spec fn chassis_step(b: Seq<u8>, s: Place) -> Step<ChassisModel> {
    let raw = cursor::pod_step::<RawChassis>(b, s);
    let id = cursor::bytes_step(b, raw.at, raw.value.c_id);
    let name = cursor::text_step(b, id.at, raw.value.c_name);
    let descr = cursor::text_step(b, name.at, raw.value.c_descr);
    let mgmt = if raw.value.c_mgmt_tqh_first != 0 {
        mgmt_chain_step(b, descr.at)
    } else {
        Step { value: Seq::empty(), at: descr.at }
    };
    let med = med_step(b, mgmt.at, raw.value);
    Step {
        value: ChassisModel {
            id_subtype: ChassisIdSubtype::of_code(raw.value.c_id_subtype),
            id: or_empty(id.value),
            name: name.value,
            description: descr.value,
            capabilities_available: Capabilities(raw.value.c_cap_available),
            capabilities_enabled: Capabilities(raw.value.c_cap_enabled),
            management_addresses: mgmt.value,
            med: med.value,
        },
        at: med.at,
    }
}

fn decode_mgmt_chain(cursor: &mut Cursor) -> (r: Result<Vec<ManagementAddress>, Malformed>)
    ensures
        final(cursor).buf == old(cursor).buf,
        cursor::gives(
            r,
            final(cursor).pos,
            mgmt_chain_step(old(cursor).buf@, old(cursor).place()),
        ),
    decreases old(cursor).buf@.len() - old(cursor).pos,
{
    proof {
        cursor::reading_moves_on::<RawMgmt>(cursor.buf@, cursor.place());
    }
    let raw: RawMgmt = read_chunk_pod(cursor)?;
    let mut rest = if raw.tqe_next != 0 {
        decode_mgmt_chain(cursor)?
    } else {
        Vec::new()
    };
    let len: usize = if raw.m_addrsize < 16 {
        raw.m_addrsize
    } else {
        16
    };
    let octets = slice_to_vec(slice_subrange(raw.m_addr.as_slice(), 0, len));
    let first = ManagementAddress::new(raw.m_family as u32, octets, raw.m_iface);
    assert(first.deep_view().octets =~= mgmt_address(raw).octets);
    let ghost head = first.deep_view();
    let ghost tail = rest.deep_view();
    let mut out = vec![first];
    out.append(&mut rest);
    assert(out.deep_view() =~= seq![head] + tail);
    Ok(out)
}

fn decode_med(cursor: &mut Cursor, raw: &RawChassis) -> (r: Result<MedInventory, Malformed>)
    ensures
        final(cursor).buf == old(cursor).buf,
        cursor::gives(r, final(cursor).pos, med_step(old(cursor).buf@, old(cursor).place(), *raw)),
{
    reveal(med_step);
    let hardware_revision = read_opt_cstring(cursor, raw.c_med_hw)?;
    let firmware_revision = read_opt_cstring(cursor, raw.c_med_fw)?;
    let software_revision = read_opt_cstring(cursor, raw.c_med_sw)?;
    let serial_number = read_opt_cstring(cursor, raw.c_med_sn)?;
    let manufacturer = read_opt_cstring(cursor, raw.c_med_manuf)?;
    let model = read_opt_cstring(cursor, raw.c_med_model)?;
    let asset_id = read_opt_cstring(cursor, raw.c_med_asset)?;
    Ok(
        MedInventory {
            hardware_revision,
            firmware_revision,
            software_revision,
            serial_number,
            manufacturer,
            model,
            asset_id,
        },
    )
}

fn decode_chassis(cursor: &mut Cursor) -> (r: Result<Chassis, Malformed>)
    ensures
        final(cursor).buf == old(cursor).buf,
        cursor::gives(r, final(cursor).pos, chassis_step(old(cursor).buf@, old(cursor).place())),
{
    broadcast use stuck_at_med;

    reveal(chassis_step);
    let raw: RawChassis = read_chunk_pod(cursor)?;
    let id = match read_opt_bytes(cursor, raw.c_id)? {
        Some(id) => id,
        None => Vec::new(),
    };
    let name = read_opt_cstring(cursor, raw.c_name)?;
    let description = read_opt_cstring(cursor, raw.c_descr)?;
    let management_addresses = if raw.c_mgmt_tqh_first != 0 {
        decode_mgmt_chain(cursor)?
    } else {
        Vec::new()
    };
    let med = decode_med(cursor, &raw)?;
    assert(id.deep_view() =~= id@);
    assert(raw.c_mgmt_tqh_first == 0 ==> management_addresses.deep_view() =~= Seq::empty());
    Ok(
        Chassis {
            id_subtype: ChassisIdSubtype::from(raw.c_id_subtype),
            id,
            name,
            description,
            capabilities_available: Capabilities(raw.c_cap_available),
            capabilities_enabled: Capabilities(raw.c_cap_enabled),
            management_addresses,
            med,
        },
    )
}

/// An LLDP-MED location: the header that stands for it, and its data.
pub open spec fn location_step(b: Seq<u8>, s: Place, loc: RawMedLoc) -> Place {
    cursor::bytes_step(b, cursor::marker_step(b, s), loc.data).at
}

/// The locations from the `i`-th on.
pub open spec fn locations_step(b: Seq<u8>, s: Place, locs: Seq<RawMedLoc>, i: int) -> Place
    decreases locs.len() - i,
{
    if i >= locs.len() {
        s
    } else {
        locations_step(b, location_step(b, s, locs[i]), locs, i + 1)
    }
}

/// A chain of VLANs. The rest of the chain comes before the VLAN's name.
pub open spec fn vlan_chain_step(b: Seq<u8>, s: Place) -> Place
    decreases b.len() - s.pos,
{
    let raw = cursor::pod_step::<RawVlan>(b, s);
    if raw.at.fault is Some {
        raw.at
    } else {
        proof {
            cursor::reading_moves_on::<RawVlan>(b, s);
        }
        let rest = if raw.value.tqe_next != 0 {
            vlan_chain_step(b, raw.at)
        } else {
            raw.at
        };
        cursor::text_step(b, rest, raw.value.v_name).at
    }
}

/// A chain of port and protocol VLAN identifiers.
pub open spec fn ppvid_chain_step(b: Seq<u8>, s: Place) -> Place
    decreases b.len() - s.pos,
{
    let raw = cursor::pod_step::<RawPpvid>(b, s);
    if raw.at.fault is Some || raw.value.tqe_next == 0 {
        raw.at
    } else {
        proof {
            cursor::reading_moves_on::<RawPpvid>(b, s);
        }
        ppvid_chain_step(b, raw.at)
    }
}

/// A chain of protocol identities. The rest of the chain comes before the
/// identity's bytes.
pub open spec fn pi_chain_step(b: Seq<u8>, s: Place) -> Place
    decreases b.len() - s.pos,
{
    let raw = cursor::pod_step::<RawPi>(b, s);
    if raw.at.fault is Some {
        raw.at
    } else {
        proof {
            cursor::reading_moves_on::<RawPi>(b, s);
        }
        let rest = if raw.value.tqe_next != 0 {
            pi_chain_step(b, raw.at)
        } else {
            raw.at
        };
        cursor::bytes_step(b, rest, raw.value.p_pi).at
    }
}

/// What a port carries that the model does not hold: it is read all the same,
/// to get to what follows.
#[verifier::opaque]
pub open spec fn port_tail_step(b: Seq<u8>, s: Place, raw: RawPort) -> Place {
    let pattern = cursor::text_step(b, s, raw.p_vlan_advertise_pattern).at;
    let locations = locations_step(b, pattern, raw.p_med_location@, 0);
    let vlans = if raw.p_vlans_tqh_first != 0 {
        vlan_chain_step(b, locations)
    } else {
        locations
    };
    let ppvids = if raw.p_ppvids_tqh_first != 0 {
        ppvid_chain_step(b, vlans)
    } else {
        vlans
    };
    if raw.p_pids_tqh_first != 0 {
        pi_chain_step(b, ppvids)
    } else {
        ppvids
    }
}

/// A reader that is stuck stays where it is.
proof fn stuck_at_locations(b: Seq<u8>, s: Place, locs: Seq<RawMedLoc>, i: int)
    requires
        s.fault is Some,
    ensures
        locations_step(b, s, locs, i) == s,
    decreases locs.len() - i,
{
    if i < locs.len() {
        stuck_at_locations(b, s, locs, i + 1);
    }
}

/// A reader that is stuck stays where it is.
pub broadcast proof fn stuck_at_port_tail(b: Seq<u8>, s: Place, raw: RawPort)
    requires
        s.fault is Some,
    ensures
        #[trigger] port_tail_step(b, s, raw) == s,
{
    reveal(port_tail_step);
    stuck_at_locations(b, s, raw.p_med_location@, 0);
}

fn decode_med_location_marker(cursor: &mut Cursor, loc: &RawMedLoc) -> (r: Result<(), Malformed>)
    ensures
        final(cursor).buf == old(cursor).buf,
        cursor::reaches(
            r,
            final(cursor).pos,
            location_step(old(cursor).buf@, old(cursor).place(), *loc),
        ),
{
    consume_substruct_marker(cursor)?;
    if loc.data != 0 {
        read_opt_bytes(cursor, loc.data)?;
    }
    Ok(())
}

fn discard_vlan_chain(cursor: &mut Cursor) -> (r: Result<(), Malformed>)
    ensures
        final(cursor).buf == old(cursor).buf,
        cursor::reaches(
            r,
            final(cursor).pos,
            vlan_chain_step(old(cursor).buf@, old(cursor).place()),
        ),
    decreases old(cursor).buf@.len() - old(cursor).pos,
{
    proof {
        cursor::reading_moves_on::<RawVlan>(cursor.buf@, cursor.place());
    }
    let raw: RawVlan = read_chunk_pod(cursor)?;
    if raw.tqe_next != 0 {
        discard_vlan_chain(cursor)?;
    }
    read_opt_cstring(cursor, raw.v_name)?;
    Ok(())
}

fn discard_ppvid_chain(cursor: &mut Cursor) -> (r: Result<(), Malformed>)
    ensures
        final(cursor).buf == old(cursor).buf,
        cursor::reaches(
            r,
            final(cursor).pos,
            ppvid_chain_step(old(cursor).buf@, old(cursor).place()),
        ),
    decreases old(cursor).buf@.len() - old(cursor).pos,
{
    proof {
        cursor::reading_moves_on::<RawPpvid>(cursor.buf@, cursor.place());
    }
    let raw: RawPpvid = read_chunk_pod(cursor)?;
    if raw.tqe_next != 0 {
        discard_ppvid_chain(cursor)?;
    }
    Ok(())
}

fn discard_pi_chain(cursor: &mut Cursor) -> (r: Result<(), Malformed>)
    ensures
        final(cursor).buf == old(cursor).buf,
        cursor::reaches(
            r,
            final(cursor).pos,
            pi_chain_step(old(cursor).buf@, old(cursor).place()),
        ),
    decreases old(cursor).buf@.len() - old(cursor).pos,
{
    proof {
        cursor::reading_moves_on::<RawPi>(cursor.buf@, cursor.place());
    }
    let raw: RawPi = read_chunk_pod(cursor)?;
    if raw.tqe_next != 0 {
        discard_pi_chain(cursor)?;
    }
    read_opt_bytes(cursor, raw.p_pi)?;
    Ok(())
}

fn discard_locations(cursor: &mut Cursor, locs: &[RawMedLoc]) -> (r: Result<(), Malformed>)
    ensures
        final(cursor).buf == old(cursor).buf,
        cursor::reaches(
            r,
            final(cursor).pos,
            locations_step(old(cursor).buf@, old(cursor).place(), locs@, 0),
        ),
{
    let ghost b = cursor.buf@;
    let ghost all = locations_step(b, cursor.place(), locs@, 0);
    let mut i: usize = 0;
    while i < locs.len()
        invariant
            i <= locs@.len(),
            cursor.buf == old(cursor).buf,
            b == old(cursor).buf@,
            all == locations_step(b, old(cursor).place(), locs@, 0),
            all == locations_step(b, cursor.place(), locs@, i as int),
        decreases locs@.len() - i,
    {
        let ghost at = location_step(b, cursor.place(), locs@[i as int]);
        proof {
            if at.fault is Some {
                stuck_at_locations(b, at, locs@, i + 1);
            }
        }
        decode_med_location_marker(cursor, &locs[i])?;
        i += 1;
    }
    Ok(())
}

/// Skips what the model does not hold of a port, so that reading stays in
/// step with what follows.
fn discard_port_tail(cursor: &mut Cursor, raw: &RawPort) -> (r: Result<(), Malformed>)
    ensures
        final(cursor).buf == old(cursor).buf,
        cursor::reaches(
            r,
            final(cursor).pos,
            port_tail_step(old(cursor).buf@, old(cursor).place(), *raw),
        ),
{
    reveal(port_tail_step);
    proof {
        let pattern = cursor::text_step(
            cursor.buf@,
            cursor.place(),
            raw.p_vlan_advertise_pattern,
        ).at;
        if pattern.fault is Some {
            stuck_at_locations(cursor.buf@, pattern, raw.p_med_location@, 0);
        }
    }
    read_opt_cstring(cursor, raw.p_vlan_advertise_pattern)?;
    discard_locations(cursor, raw.p_med_location.as_slice())?;
    if raw.p_vlans_tqh_first != 0 {
        discard_vlan_chain(cursor)?;
    }
    if raw.p_ppvids_tqh_first != 0 {
        discard_ppvid_chain(cursor)?;
    }
    if raw.p_pids_tqh_first != 0 {
        discard_pi_chain(cursor)?;
    }
    Ok(())
}

/// The chassis that a message has brought so far, by the sender's reference.
///
/// Several ports can refer to one chassis, whose chunk then comes only once.
pub type Seen = Map<usize, ChassisModel>;

/// The chassis that a port refers to: none, one seen before, or the one whose
/// chunk comes next.
pub open spec fn port_chassis_step(b: Seq<u8>, s: Place, ptr: usize, seen: Seen) -> Step<
    Option<ChassisModel>,
> {
    if ptr == 0 {
        Step { value: None, at: s }
    } else if seen.contains_key(ptr) {
        Step { value: Some(seen[ptr]), at: s }
    } else {
        let chassis = chassis_step(b, s);
        Step { value: Some(chassis.value), at: chassis.at }
    }
}

/// The chassis seen once a port's chassis is read.
pub open spec fn seen_after(b: Seq<u8>, s: Place, ptr: usize, seen: Seen) -> Seen {
    let chassis = chassis_step(b, s);
    if ptr != 0 && !seen.contains_key(ptr) && chassis.at.fault is None {
        seen.insert(ptr, chassis.value)
    } else {
        seen
    }
}

/// What the chunks of a port hold, for a local port and for a neighbor alike.
struct PortFields {
    chassis: Option<Arc<Chassis>>,
    id: Option<Vec<u8>>,
    description: Option<String>,
}

/// The value of what a port's chunks hold.
pub struct PortModel {
    pub chassis: Option<ChassisModel>,
    pub id: Option<Seq<u8>>,
    pub description: Option<Seq<char>>,
}

impl DeepView for PortFields {
    type V = PortModel;

    closed spec fn deep_view(&self) -> PortModel {
        PortModel {
            chassis: self.chassis.deep_view(),
            id: self.id.deep_view(),
            description: self.description.deep_view(),
        }
    }
}

/// The chunks of a port.
#[verifier::opaque]
pub open spec fn port_step(b: Seq<u8>, s: Place, raw: RawPort, seen: Seen) -> Step<PortModel> {
    let chassis = port_chassis_step(b, s, raw.p_chassis, seen);
    let id = cursor::bytes_step(b, chassis.at, raw.p_id);
    let description = cursor::text_step(b, id.at, raw.p_descr);
    Step {
        value: PortModel {
            chassis: chassis.value,
            id: id.value,
            description: description.value,
        },
        at: port_tail_step(b, description.at, raw),
    }
}

/// The model of the chassis in a cache.
spec fn seen_in(cache: Map<usize, Arc<Chassis>>) -> Seen {
    cache.map_values(|c: Arc<Chassis>| c.deep_view())
}

/// Reading the port with the reference `r` has taken the cache from `before`
/// to `after`: what it holds stays, `r` is in it from then on, and nothing
/// else is new.
spec fn caches(
    before: Map<usize, Arc<Chassis>>,
    r: usize,
    after: Map<usize, Arc<Chassis>>,
) -> bool {
    &&& before.submap_of(after)
    &&& r == 0 || before.contains_key(r) ==> after == before
    &&& r != 0 ==> after.contains_key(r) && after == before.insert(r, after[r])
}

/// The chassis in the cache that `r` refers to.
spec fn cached(cache: Map<usize, Arc<Chassis>>, r: usize) -> Option<Arc<Chassis>> {
    if r == 0 {
        None
    } else {
        Some(cache[r])
    }
}

fn decode_port_chassis(
    cursor: &mut Cursor,
    ptr: usize,
    cache: &mut HashMap<usize, Arc<Chassis>>,
) -> (r: Result<Option<Arc<Chassis>>, Malformed>)
    ensures
        final(cursor).buf == old(cursor).buf,
        cursor::gives(
            r,
            final(cursor).pos,
            port_chassis_step(
                old(cursor).buf@,
                old(cursor).place(),
                ptr,
                seen_in(old(cache)@),
            ),
        ),
        seen_in(final(cache)@) == seen_after(
            old(cursor).buf@,
            old(cursor).place(),
            ptr,
            seen_in(old(cache)@),
        ),
        old(cache)@.submap_of(final(cache)@),
        r matches Ok(chassis) ==> caches(old(cache)@, ptr, final(cache)@) && chassis == cached(
            final(cache)@,
            ptr,
        ),
{
    broadcast use vstd::std_specs::hash::group_hash_axioms;

    if ptr == 0 {
        return Ok(None);
    }
    if let Some(known) = cache.get(&ptr) {
        assert(cache@ =~= cache@.insert(ptr, cache@[ptr]));
        return Ok(Some(known.clone()));
    }
    let ghost before = seen_in(cache@);
    let decoded = Arc::new(decode_chassis(cursor)?);
    cache.insert(ptr, decoded.clone());
    assert(seen_in(cache@) =~= before.insert(ptr, decoded.deep_view()));
    Ok(Some(decoded))
}

fn decode_port_fields(
    cursor: &mut Cursor,
    raw: &RawPort,
    cache: &mut HashMap<usize, Arc<Chassis>>,
) -> (r: Result<PortFields, Malformed>)
    ensures
        final(cursor).buf == old(cursor).buf,
        cursor::gives(
            r,
            final(cursor).pos,
            port_step(old(cursor).buf@, old(cursor).place(), *raw, seen_in(old(cache)@)),
        ),
        seen_in(final(cache)@) == seen_after(
            old(cursor).buf@,
            old(cursor).place(),
            raw.p_chassis,
            seen_in(old(cache)@),
        ),
        old(cache)@.submap_of(final(cache)@),
        r matches Ok(fields) ==> caches(old(cache)@, raw.p_chassis, final(cache)@)
            && fields.chassis == cached(final(cache)@, raw.p_chassis),
{
    broadcast use stuck_at_port_tail;

    reveal(port_step);
    let chassis = decode_port_chassis(cursor, raw.p_chassis, cache)?;
    let id = read_opt_bytes(cursor, raw.p_id)?;
    let description = read_opt_cstring(cursor, raw.p_descr)?;
    discard_port_tail(cursor, raw)?;
    Ok(PortFields { chassis, id, description })
}

/// A neighbor, whose own structure has been read. One without a chassis is a
/// fault.
pub open spec fn neighbor_step(b: Seq<u8>, s: Place, raw: RawPort, seen: Seen) -> Step<
    NeighborModel,
> {
    let port = port_step(b, s, raw, seen);
    let chassis = port.value.chassis;
    Step {
        value: NeighborModel {
            chassis: chassis->Some_0,
            port_id_subtype: PortIdSubtype::of_code(raw.p_id_subtype),
            port_id: or_empty(port.value.id),
            port_description: port.value.description,
            ttl: raw.p_ttl,
        },
        at: if port.at.fault is None && chassis is None {
            port.at.stuck(Malformed::NoChassis)
        } else {
            port.at
        },
    }
}

/// A reader that is stuck stays where it is.
pub broadcast proof fn stuck_at_port(b: Seq<u8>, s: Place, raw: RawPort, seen: Seen)
    requires
        s.fault is Some,
    ensures
        (#[trigger] port_step(b, s, raw, seen)).at == s,
{
    broadcast use {stuck_at_med, stuck_at_port_tail};

    reveal(chassis_step);
    reveal(port_step);
}

/// A chain of neighbors, from the one whose chunk comes next, and the chassis
/// seen then. The rest of the chain comes before the element's own chunks, so
/// that it is the rest that brings a chassis that both refer to.
pub open spec fn neighbor_chain_step(b: Seq<u8>, s: Place, seen: Seen) -> Step<
    (Seq<NeighborModel>, Seen),
>
    decreases b.len() - s.pos,
{
    let raw = cursor::pod_step::<RawPort>(b, s);
    if raw.at.fault is Some {
        Step { value: (Seq::empty(), seen), at: raw.at }
    } else {
        proof {
            cursor::reading_moves_on::<RawPort>(b, s);
        }
        let rest = if raw.value.tqe_next != 0 {
            neighbor_chain_step(b, raw.at, seen)
        } else {
            Step { value: (Seq::empty(), seen), at: raw.at }
        };
        let first = neighbor_step(b, rest.at, raw.value, rest.value.1);
        Step {
            value: (
                seq![first.value] + rest.value.0,
                seen_after(b, rest.at, raw.value.p_chassis, rest.value.1),
            ),
            at: first.at,
        }
    }
}

/// A port's chassis is the one that its reference stands for from then on,
/// and what other references stand for stays as it is.
pub proof fn a_reference_means_one_chassis(b: Seq<u8>, s: Place, raw: RawPort, seen: Seen)
    requires
        port_step(b, s, raw, seen).at.fault is None,
        raw.p_chassis != 0,
    ensures
        ({
            let after = seen_after(b, s, raw.p_chassis, seen);
            &&& after.contains_key(raw.p_chassis)
            &&& port_step(b, s, raw, seen).value.chassis == Some(after[raw.p_chassis])
            &&& seen.submap_of(after)
        }),
{
    broadcast use {stuck_at_med, stuck_at_port_tail};

    reveal(port_step);
}

/// What a reference stands for never changes within a message.
pub proof fn references_are_kept(b: Seq<u8>, s: Place, seen: Seen)
    ensures
        seen.submap_of(neighbor_chain_step(b, s, seen).value.1),
    decreases b.len() - s.pos,
{
    cursor::reading_moves_on::<RawPort>(b, s);
    let raw = cursor::pod_step::<RawPort>(b, s);
    if raw.at.fault is None && raw.value.tqe_next != 0 {
        references_are_kept(b, raw.at, seen);
    }
}

/// The chassis references of a chain of neighbors, from the one whose chunk
/// comes next.
pub open spec fn neighbor_references(b: Seq<u8>, s: Place) -> Seq<usize>
    decreases b.len() - s.pos,
{
    let raw = cursor::pod_step::<RawPort>(b, s);
    if raw.at.fault is Some {
        Seq::empty()
    } else {
        proof {
            cursor::reading_moves_on::<RawPort>(b, s);
        }
        let rest = if raw.value.tqe_next != 0 {
            neighbor_references(b, raw.at)
        } else {
            Seq::empty()
        };
        seq![raw.value.p_chassis] + rest
    }
}

/// Each neighbor has the chassis in the cache that its reference refers to.
spec fn all_cached(
    cache: Map<usize, Arc<Chassis>>,
    references: Seq<usize>,
    neighbors: Seq<Neighbor>,
) -> bool {
    &&& neighbors.len() == references.len()
    &&& forall|i: int|
        0 <= i < neighbors.len() ==> #[trigger] references[i] != 0 && cache.contains_key(
            references[i],
        ) && neighbors[i].chassis == cache[references[i]]
}

fn build_neighbor(
    cursor: &mut Cursor,
    raw: &RawPort,
    cache: &mut HashMap<usize, Arc<Chassis>>,
) -> (r: Result<Neighbor, Malformed>)
    ensures
        final(cursor).buf == old(cursor).buf,
        cursor::gives(
            r,
            final(cursor).pos,
            neighbor_step(old(cursor).buf@, old(cursor).place(), *raw, seen_in(old(cache)@)),
        ),
        seen_in(final(cache)@) == seen_after(
            old(cursor).buf@,
            old(cursor).place(),
            raw.p_chassis,
            seen_in(old(cache)@),
        ),
        old(cache)@.submap_of(final(cache)@),
        r matches Ok(neighbor) ==> caches(old(cache)@, raw.p_chassis, final(cache)@) && Some(
            neighbor.chassis,
        ) == cached(final(cache)@, raw.p_chassis),
{
    let fields = decode_port_fields(cursor, raw, cache)?;
    let chassis = match fields.chassis {
        Some(chassis) => chassis,
        None => {
            return Err(Malformed::NoChassis);
        },
    };
    let port_id = match fields.id {
        Some(id) => id,
        None => Vec::new(),
    };
    assert(port_id.deep_view() =~= port_id@);
    Ok(
        Neighbor {
            chassis,
            port_id_subtype: PortIdSubtype::from(raw.p_id_subtype),
            port_id,
            port_description: fields.description,
            ttl: raw.p_ttl,
        },
    )
}

proof fn lemma_all_cached(
    before: Map<usize, Arc<Chassis>>,
    after: Map<usize, Arc<Chassis>>,
    r: usize,
    references: Seq<usize>,
    first: Neighbor,
    rest: Seq<Neighbor>,
)
    requires
        all_cached(before, references, rest),
        caches(before, r, after),
        Some(first.chassis) == cached(after, r),
    ensures
        all_cached(after, seq![r] + references, seq![first] + rest),
{
    let all = seq![r] + references;
    let neighbors = seq![first] + rest;
    assert forall|i: int| 0 <= i < neighbors.len() implies #[trigger] all[i] != 0
        && after.contains_key(all[i]) && neighbors[i].chassis == after[all[i]] by {
        if i > 0 {
            assert(all[i] == references[i - 1]);
        }
    }
}

fn decode_neighbor_chain(cursor: &mut Cursor, cache: &mut HashMap<usize, Arc<Chassis>>) -> (r:
    Result<Vec<Neighbor>, Malformed>)
    ensures
        final(cursor).buf == old(cursor).buf,
        ({
            let step = neighbor_chain_step(
                old(cursor).buf@,
                old(cursor).place(),
                seen_in(old(cache)@),
            );
            &&& cursor::gives(r, final(cursor).pos, Step { value: step.value.0, at: step.at })
            &&& r is Ok ==> seen_in(final(cache)@) == step.value.1
        }),
        old(cache)@.submap_of(final(cache)@),
        r matches Ok(neighbors) ==> all_cached(
            final(cache)@,
            neighbor_references(old(cursor).buf@, old(cursor).place()),
            neighbors@,
        ),
    decreases old(cursor).buf@.len() - old(cursor).pos,
{
    broadcast use {stuck_at_port, vstd::map_lib::lemma_submap_of_trans};

    proof {
        cursor::reading_moves_on::<RawPort>(cursor.buf@, cursor.place());
    }
    let raw: RawPort = read_chunk_pod(cursor)?;
    let ghost own = cursor.place();
    let mut rest = if raw.tqe_next != 0 {
        decode_neighbor_chain(cursor, cache)?
    } else {
        Vec::new()
    };
    let ghost behind = if raw.tqe_next != 0 {
        neighbor_references(cursor.buf@, own)
    } else {
        Seq::empty()
    };
    assert(all_cached(cache@, behind, rest@));
    let ghost between = cache@;
    let first = build_neighbor(cursor, &raw, cache)?;
    let ghost head = first.deep_view();
    let ghost tail = rest.deep_view();
    let ghost one = first;
    let ghost others = rest@;
    let mut out = vec![first];
    out.append(&mut rest);
    assert(out.deep_view() =~= seq![head] + tail);
    assert(out@ =~= seq![one] + others);
    proof {
        lemma_all_cached(between, cache@, raw.p_chassis, behind, one, others);
    }
    Ok(out)
}

/// `b` up to its first zero byte.
pub open spec fn until_nul(b: Seq<u8>) -> Seq<u8> {
    match b.index_of_first(0u8) {
        Some(i) => b.take(i),
        None => b,
    }
}

/// The reply to `GET_INTERFACE`.
pub open spec fn hardware_step(b: Seq<u8>) -> Step<InterfaceDetailsModel> {
    let raw = cursor::pod_step::<RawHardware>(b, message_start());
    let marker = cursor::marker_step(b, raw.at);
    let start = if marker.fault is None && raw.value.h_lport.tqe_next != 0 {
        marker.stuck(Malformed::ChainedLocalPort)
    } else {
        marker
    };
    let nothing: Seen = Map::empty();
    let local = port_step(b, start, raw.value.h_lport, nothing);
    let seen = seen_after(b, start, raw.value.h_lport.p_chassis, nothing);
    let neighbors = if raw.value.h_rports_tqh_first != 0 {
        neighbor_chain_step(b, local.at, seen)
    } else {
        Step { value: (Seq::empty(), seen), at: local.at }
    };
    let alias = cursor::text_step(b, neighbors.at, raw.value.h_ifalias);
    Step {
        value: InterfaceDetailsModel {
            name: text::text_of(until_nul(raw.value.h_ifname@)),
            alias: alias.value,
            mac_address: raw.value.h_lladdr,
            local_chassis: local.value.chassis,
            neighbors: neighbors.value.0,
        },
        at: alias.at,
    }
}

/// The chassis references in the reply to `GET_INTERFACE`: that of the local
/// port, and those of the neighbors.
pub open spec fn hardware_references(b: Seq<u8>) -> (usize, Seq<usize>) {
    let raw = cursor::pod_step::<RawHardware>(b, message_start());
    let start = cursor::marker_step(b, raw.at);
    let local = port_step(b, start, raw.value.h_lport, Map::empty());
    (
        raw.value.h_lport.p_chassis,
        if raw.value.h_rports_tqh_first != 0 {
            neighbor_references(b, local.at)
        } else {
            Seq::empty()
        },
    )
}

/// Ports with one reference have one chassis: the local port and the
/// neighbors, and the neighbors among themselves.
pub open spec fn shares_chassis(
    details: InterfaceDetails,
    references: (usize, Seq<usize>),
) -> bool {
    let (local, neighbors) = references;
    &&& details.neighbors@.len() == neighbors.len()
    &&& local == 0 <==> details.local_chassis is None
    &&& forall|i: int|
        0 <= i < neighbors.len() && #[trigger] neighbors[i] == local ==> details.local_chassis
            == Some(details.neighbors@[i].chassis)
    &&& forall|i: int, j: int|
        0 <= i < neighbors.len() && 0 <= j < neighbors.len() && #[trigger] neighbors[i]
            == #[trigger] neighbors[j] ==> details.neighbors@[i].chassis
            == details.neighbors@[j].chassis
}

/// A `NOTIFICATION`.
pub open spec fn neighbor_change_step(b: Seq<u8>) -> Step<NeighborChangeModel> {
    let raw = cursor::pod_step::<RawNeighborChange>(b, message_start());
    let interface = cursor::text_step(b, raw.at, raw.value.ifname);
    let alias = cursor::text_step(b, interface.at, raw.value.ifalias);
    let neighbor = notified_neighbor_step(b, alias.at, raw.value.neighbor);
    Step {
        value: NeighborChangeModel {
            interface: or_empty(interface.value),
            interface_alias: alias.value,
            kind: NeighborChangeKind::of_code(raw.value.state),
            neighbor: neighbor.value,
        },
        at: neighbor.at,
    }
}

/// The neighbor that a notification is about, which has no successor.
pub open spec fn notified_neighbor_step(b: Seq<u8>, s: Place, ptr: usize) -> Step<
    Option<NeighborModel>,
> {
    if ptr == 0 {
        Step { value: None, at: s }
    } else {
        let port = cursor::pod_step::<RawPort>(b, s);
        let start = if port.at.fault is None && port.value.tqe_next != 0 {
            port.at.stuck(Malformed::ChainedNeighbor)
        } else {
            port.at
        };
        let neighbor = neighbor_step(b, start, port.value, Map::empty());
        Step { value: Some(neighbor.value), at: neighbor.at }
    }
}

/// How many bytes come before the first zero byte.
fn nul_position(b: &[u8]) -> (n: usize)
    ensures
        n <= b@.len(),
        b@.take(n as int) == until_nul(b@),
{
    let mut n: usize = 0;
    while n < b.len() && b[n] != 0
        invariant
            n <= b@.len(),
            forall|j: int| 0 <= j < n ==> b@[j] != 0,
        decreases b@.len() - n,
    {
        n += 1;
    }
    proof {
        b@.index_of_first_ensures(0u8);
        if n < b@.len() {
            assert(b@.contains(0u8)) by {
                assert(b@[n as int] == 0);
            }
        }
        assert(b@.take(n as int) =~= until_nul(b@));
    }
    n
}

/// Decodes the reply to `GET_INTERFACE`. Ports that refer to one chassis share
/// it: their chassis are equal, and are one allocation too, which is more than
/// `==` on an `Arc` says.
pub fn decode_hardware(payload: &[u8]) -> (r: Result<InterfaceDetails, Error>)
    ensures
        decoded(r, hardware_step(payload@)),
        r matches Ok(details) ==> shares_chassis(details, hardware_references(payload@)),
{
    match hardware(payload) {
        Ok(v) => Ok(v),
        Err(fault) => Err(fault.into_error()),
    }
}

fn hardware(payload: &[u8]) -> (r: Result<InterfaceDetails, Malformed>)
    ensures
        found(r, hardware_step(payload@)),
        r matches Ok(details) ==> shares_chassis(details, hardware_references(payload@)),
{
    broadcast use stuck_at_port;

    let mut cursor = Cursor::new(payload);
    let raw: RawHardware = read_chunk_pod(&mut cursor)?;
    let mut cache: HashMap<usize, Arc<Chassis>> = HashMap::new();
    assert(seen_in(cache@) =~= Map::<usize, ChassisModel>::empty());

    consume_substruct_marker(&mut cursor)?;
    if raw.h_lport.tqe_next != 0 {
        return Err(Malformed::ChainedLocalPort);
    }
    let local = decode_port_fields(&mut cursor, &raw.h_lport, &mut cache)?;
    let neighbors = if raw.h_rports_tqh_first != 0 {
        decode_neighbor_chain(&mut cursor, &mut cache)?
    } else {
        Vec::new()
    };
    assert(raw.h_rports_tqh_first == 0 ==> neighbors.deep_view() =~= Seq::empty());
    let alias = read_opt_cstring(&mut cursor, raw.h_ifalias)?;
    let ifname = raw.h_ifname.as_slice();
    let name = text::read_text(slice_subrange(ifname, 0, nul_position(ifname)));
    Ok(
        InterfaceDetails {
            name,
            alias,
            mac_address: raw.h_lladdr,
            local_chassis: local.chassis,
            neighbors,
        },
    )
}

/// Decodes a `NOTIFICATION`.
pub fn decode_neighbor_change(payload: &[u8]) -> (r: Result<NeighborChange, Error>)
    ensures
        decoded(r, neighbor_change_step(payload@)),
{
    match neighbor_change(payload) {
        Ok(v) => Ok(v),
        Err(fault) => Err(fault.into_error()),
    }
}

fn neighbor_change(payload: &[u8]) -> (r: Result<NeighborChange, Malformed>)
    ensures
        found(r, neighbor_change_step(payload@)),
{
    broadcast use stuck_at_port;

    let mut cursor = Cursor::new(payload);
    let raw: RawNeighborChange = read_chunk_pod(&mut cursor)?;
    let interface = match read_opt_cstring(&mut cursor, raw.ifname)? {
        Some(interface) => interface,
        None => String::new(),
    };
    let interface_alias = read_opt_cstring(&mut cursor, raw.ifalias)?;
    let neighbor = decode_notified_neighbor(&mut cursor, raw.neighbor)?;
    Ok(
        NeighborChange {
            interface,
            interface_alias,
            kind: NeighborChangeKind::from(raw.state),
            neighbor,
        },
    )
}

fn decode_notified_neighbor(cursor: &mut Cursor, ptr: usize) -> (r: Result<
    Option<Neighbor>,
    Malformed,
>)
    ensures
        final(cursor).buf == old(cursor).buf,
        cursor::gives(
            r,
            final(cursor).pos,
            notified_neighbor_step(old(cursor).buf@, old(cursor).place(), ptr),
        ),
{
    broadcast use stuck_at_port;

    if ptr == 0 {
        return Ok(None);
    }
    let port: RawPort = read_chunk_pod(cursor)?;
    if port.tqe_next != 0 {
        return Err(Malformed::ChainedNeighbor);
    }
    let mut cache: HashMap<usize, Arc<Chassis>> = HashMap::new();
    assert(seen_in(cache@) =~= Map::<usize, ChassisModel>::empty());
    let neighbor = build_neighbor(cursor, &port, &mut cache)?;
    Ok(Some(neighbor))
}

} // verus!
