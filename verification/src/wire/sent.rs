//! What lldpd sends, and that decoding it gives back what lldpd knows.
//!
//! The types here stand for objects in lldpd's memory, with what marshalling
//! adds to them: a reference number and a declared size for each chunk, both
//! of the sender's choosing. The `put_` functions are the marshalling: each
//! appends the chunks of an object to the bytes written so far.
//!
//! The theorems say that a message reads back as the objects it was made of,
//! whatever the sender has chosen, and whatever follows the message.

use vstd::prelude::*;

use super::cursor;
use super::cursor::{Place, Step};
use super::decode;
use super::encode;
use super::layout;
use super::pod;
use super::pod::Pod;
use super::raw::{
    RawChassis, RawHardware, RawInterface, RawInterfaceList, RawMedLoc, RawMgmt,
    RawNeighborChange, RawPi, RawPort, RawPpvid, RawVlan,
};
use crate::model::{
    Capabilities, ChassisIdSubtype, ChassisModel, InterfaceDetailsModel, InterfaceModel,
    ManagementAddressModel, MedInventoryModel, NeighborChangeKind, NeighborChangeModel,
    NeighborModel, PortIdSubtype,
};
use crate::text;

verus! {

/// A structure: its bytes in lldpd's memory, padding included.
pub struct SentStruct {
    pub orig: usize,
    pub declared: usize,
    pub body: Seq<u8>,
}

/// A string of characters or bytes.
pub struct SentLeaf {
    pub orig: usize,
    pub content: Seq<u8>,
}

/// A structure embedded in another.
pub struct SentMarker {
    pub orig: usize,
    pub declared: usize,
}

impl SentStruct {
    /// This is a `T`, and declares at least its size.
    pub open spec fn holds<T: Pod>(self) -> bool {
        self.body.len() == T::size() && self.declared >= cursor::header_width() + T::size()
    }
}

/// The characters that a pointer refers to.
pub open spec fn text_value(ptr: usize, leaf: SentLeaf) -> Option<Seq<char>> {
    if ptr == 0 {
        None
    } else {
        Some(text::text_of(cursor::without_nul(leaf.content)))
    }
}

/// The bytes that a pointer refers to.
pub open spec fn bytes_value(ptr: usize, leaf: SentLeaf) -> Option<Seq<u8>> {
    if ptr == 0 {
        None
    } else {
        Some(leaf.content)
    }
}

/// A header, at the next multiple of the pointer width.
pub open spec fn put_header(out: Seq<u8>, orig: usize, declared: usize) -> Seq<u8> {
    layout::zero_pad(out, pod::ptr_width()) + orig.encode() + declared.encode()
}

pub open spec fn put_struct(out: Seq<u8>, s: SentStruct) -> Seq<u8> {
    put_header(out, s.orig, s.declared) + s.body
}

/// What a pointer refers to, if it is not null.
pub open spec fn put_leaf(out: Seq<u8>, ptr: usize, leaf: SentLeaf) -> Seq<u8> {
    if ptr == 0 {
        out
    } else {
        encode::with_leaf(out, leaf.orig, leaf.content)
    }
}

pub open spec fn put_marker(out: Seq<u8>, m: SentMarker) -> Seq<u8> {
    put_header(out, m.orig, m.declared)
}

/// A reader that has got this far.
pub open spec fn at(out: Seq<u8>) -> Place {
    Place { pos: out.len(), fault: None }
}

/// `b` starts with `out`, and fits into memory.
pub open spec fn starts(b: Seq<u8>, out: Seq<u8>) -> bool {
    out.is_prefix_of(b) && b.len() <= usize::MAX
}

pub(crate) proof fn lemma_starts(b: Seq<u8>, out: Seq<u8>, more: Seq<u8>)
    requires
        starts(b, out + more),
    ensures
        starts(b, out),
        b.subrange(out.len() as int, (out.len() + more.len()) as int) == more,
{
    let whole = out + more;
    assert forall|i: int| 0 <= i < whole.len() implies b[i] == #[trigger] whole[i] by {
        assert(b.subrange(0, whole.len() as int)[i] == b[i]);
    }
    assert(out =~= b.subrange(0, out.len() as int)) by {
        assert forall|i: int| 0 <= i < out.len() implies b[i] == #[trigger] out[i] by {
            assert(whole[i] == out[i]);
        }
    }
    let part = b.subrange(out.len() as int, (out.len() + more.len()) as int);
    assert(part =~= more) by {
        assert forall|i: int| 0 <= i < more.len() implies part[i] == #[trigger] more[i] by {
            assert(whole[out.len() + i] == more[i]);
        }
    }
}

pub(crate) proof fn lemma_header(b: Seq<u8>, out: Seq<u8>, orig: usize, declared: usize)
    requires
        starts(b, put_header(out, orig, declared)),
    ensures
        starts(b, out),
        cursor::header_step(b, at(out)) == (Step {
            value: (orig, declared),
            at: at(put_header(out, orig, declared)),
        }),
{
    reveal(cursor::header_step);
    pod::lemma_ptr_width();
    orig.lemma_round_trip();
    declared.lemma_round_trip();
    let w = pod::ptr_width();
    layout::lemma_align_up_to(out.len(), w);
    let padded = layout::zero_pad(out, w);
    let head = orig.encode() + declared.encode();
    assert(put_header(out, orig, declared) =~= padded + head);
    lemma_starts(b, padded, head);
    let zeros = Seq::new((layout::align_up_to(out.len(), w) - out.len()) as nat, |i: int| 0u8);
    lemma_starts(b, out, zeros);
    assert(cursor::chunk_start(out.len()) == padded.len());
    assert(head.subrange(0, w as int) =~= orig.encode());
    assert(head.subrange(w as int, 2 * w as int) =~= declared.encode());
}

pub(crate) proof fn lemma_struct<T: Pod>(b: Seq<u8>, out: Seq<u8>, s: SentStruct)
    requires
        s.holds::<T>(),
        starts(b, put_struct(out, s)),
    ensures
        starts(b, out),
        cursor::pod_step::<T>(b, at(out)) == (Step {
            value: T::decode(s.body),
            at: at(put_struct(out, s)),
        }),
{
    reveal(cursor::pod_step);
    let head = put_header(out, s.orig, s.declared);
    lemma_starts(b, head, s.body);
    lemma_header(b, out, s.orig, s.declared);
}

proof fn lemma_marker(b: Seq<u8>, out: Seq<u8>, m: SentMarker)
    requires
        starts(b, put_marker(out, m)),
    ensures
        starts(b, out),
        cursor::marker_step(b, at(out)) == at(put_marker(out, m)),
{
    lemma_header(b, out, m.orig, m.declared);
}

pub(crate) proof fn lemma_leaf(b: Seq<u8>, out: Seq<u8>, ptr: usize, leaf: SentLeaf)
    requires
        starts(b, put_leaf(out, ptr, leaf)),
    ensures
        starts(b, out),
        cursor::text_step(b, at(out), ptr) == (Step {
            value: text_value(ptr, leaf),
            at: at(put_leaf(out, ptr, leaf)),
        }),
        cursor::bytes_step(b, at(out), ptr) == (Step {
            value: bytes_value(ptr, leaf),
            at: at(put_leaf(out, ptr, leaf)),
        }),
{
    if ptr != 0 {
        reveal(cursor::leaf_step);
        let declared = (cursor::header_width() + leaf.content.len()) as usize;
        let head = put_header(out, leaf.orig, declared);
        assert(put_leaf(out, ptr, leaf) =~= head + leaf.content);
        lemma_starts(b, head, leaf.content);
        lemma_header(b, out, leaf.orig, declared);
        pod::lemma_ptr_width();
        leaf.orig.lemma_round_trip();
        declared.lemma_round_trip();
        layout::lemma_align_up_to(out.len(), pod::ptr_width());
        assert(declared == cursor::header_width() + leaf.content.len());
    }
}

/// The elements are all as `is_element` says, and each but the last has a
/// successor.
#[verifier::opaque]
pub open spec fn is_chain<T>(
    list: Seq<T>,
    is_element: spec_fn(T) -> bool,
    has_next: spec_fn(T) -> bool,
) -> bool {
    forall|i: int|
        0 <= i < list.len() ==> is_element(#[trigger] list[i]) && (has_next(list[i]) <==> i + 1
            < list.len())
}

/// A chain without its first element is one again.
proof fn lemma_tail<T>(
    list: Seq<T>,
    is_element: spec_fn(T) -> bool,
    has_next: spec_fn(T) -> bool,
)
    requires
        list.len() > 0,
        is_chain(list, is_element, has_next),
    ensures
        is_element(list[0]),
        has_next(list[0]) <==> list.len() > 1,
        is_chain(list.drop_first(), is_element, has_next),
{
    reveal(is_chain);
    assert(is_element(list[0]));
    let tail = list.drop_first();
    assert forall|i: int| 0 <= i < tail.len() implies is_element(#[trigger] tail[i]) && (
    has_next(tail[i]) <==> i + 1 < tail.len()) by {
        assert(tail[i] == list[i + 1]);
    }
}

/// A leaf has its reference.
pub(crate) proof fn lemma_leaf_reference(b: Seq<u8>, out: Seq<u8>, ptr: usize, leaf: SentLeaf)
    requires
        ptr != 0,
        starts(b, put_leaf(out, ptr, leaf)),
    ensures
        cursor::leaf_step(b, at(out)).value.0 == leaf.orig,
{
    reveal(cursor::leaf_step);
    let declared = (cursor::header_width() + leaf.content.len()) as usize;
    let head = put_header(out, leaf.orig, declared);
    assert(put_leaf(out, ptr, leaf) =~= head + leaf.content);
    lemma_starts(b, head, leaf.content);
    lemma_header(b, out, leaf.orig, declared);
}

/// An interface.
pub struct SentInterface {
    pub chunk: SentStruct,
    pub name: SentLeaf,
    pub alias: SentLeaf,
}

impl SentInterface {
    pub open spec fn raw(self) -> RawInterface {
        RawInterface::decode(self.chunk.body)
    }

    pub open spec fn value(self) -> InterfaceModel {
        InterfaceModel {
            name: decode::or_empty(text_value(self.raw().name, self.name)),
            alias: text_value(self.raw().alias, self.alias),
        }
    }
}

/// The elements are interfaces, and each but the last has a successor.
pub open spec fn are_interfaces(list: Seq<SentInterface>) -> bool {
    is_chain(
        list,
        |x: SentInterface| x.chunk.holds::<RawInterface>(),
        |x: SentInterface| x.raw().next_tqe_next != 0,
    )
}

pub open spec fn put_interfaces(out: Seq<u8>, list: Seq<SentInterface>) -> Seq<u8>
    decreases list.len(),
{
    if list.len() == 0 {
        out
    } else {
        let x = list[0];
        let own = put_struct(out, x.chunk);
        let rest = put_interfaces(own, list.drop_first());
        let name = put_leaf(rest, x.raw().name, x.name);
        put_leaf(name, x.raw().alias, x.alias)
    }
}

pub open spec fn interface_values(list: Seq<SentInterface>) -> Seq<InterfaceModel> {
    list.map_values(|x: SentInterface| x.value())
}

proof fn lemma_interfaces(b: Seq<u8>, out: Seq<u8>, list: Seq<SentInterface>)
    requires
        list.len() > 0,
        are_interfaces(list),
        starts(b, put_interfaces(out, list)),
    ensures
        starts(b, out),
        decode::interface_chain_step(b, at(out)) == (Step {
            value: interface_values(list),
            at: at(put_interfaces(out, list)),
        }),
    decreases list.len(),
{
    let x = list[0];
    let tail = list.drop_first();
    lemma_tail(
        list,
        |x: SentInterface| x.chunk.holds::<RawInterface>(),
        |x: SentInterface| x.raw().next_tqe_next != 0,
    );
    let own = put_struct(out, x.chunk);
    let rest = put_interfaces(own, tail);
    let name = put_leaf(rest, x.raw().name, x.name);
    assert(x.chunk.holds::<RawInterface>());
    lemma_leaf(b, name, x.raw().alias, x.alias);
    lemma_leaf(b, rest, x.raw().name, x.name);
    if tail.len() > 0 {
        lemma_interfaces(b, own, tail);
    }
    lemma_struct::<RawInterface>(b, out, x.chunk);
    assert(interface_values(list) =~= seq![x.value()] + interface_values(tail));
}

/// The reply to `GET_INTERFACES`: the head of the list, and the interfaces.
pub struct SentInterfaces {
    pub chunk: SentStruct,
    pub list: Seq<SentInterface>,
}

impl SentInterfaces {
    pub open spec fn valid(self) -> bool {
        &&& self.chunk.holds::<RawInterfaceList>()
        &&& are_interfaces(self.list)
        &&& RawInterfaceList::decode(self.chunk.body).tqh_first != 0 <==> self.list.len() > 0
    }

    pub open spec fn message(self) -> Seq<u8> {
        put_interfaces(put_struct(Seq::empty(), self.chunk), self.list)
    }
}

/// A list of interfaces reads back as it was sent, in list order, and reading
/// ends where the message does.
pub proof fn interfaces_read_back(sent: SentInterfaces, b: Seq<u8>)
    requires
        sent.valid(),
        starts(b, sent.message()),
    ensures
        decode::interfaces_step(b).outcome() == Ok::<
            Seq<InterfaceModel>,
            crate::error::Malformed,
        >(interface_values(sent.list)),
        decode::interfaces_step(b).at.pos == sent.message().len(),
{
    let head = put_struct(Seq::empty(), sent.chunk);
    if sent.list.len() > 0 {
        lemma_interfaces(b, head, sent.list);
    } else {
        assert(interface_values(sent.list) =~= Seq::empty());
    }
    lemma_struct::<RawInterfaceList>(b, Seq::empty(), sent.chunk);
}

/// The elements are management addresses, and each but the last has a
/// successor.
pub open spec fn are_mgmts(list: Seq<SentStruct>) -> bool {
    is_chain(
        list,
        |x: SentStruct| x.holds::<RawMgmt>(),
        |x: SentStruct| RawMgmt::decode(x.body).tqe_next != 0,
    )
}

/// Structures one behind the other: a chain whose elements have no further
/// chunks.
pub open spec fn put_structs(out: Seq<u8>, list: Seq<SentStruct>) -> Seq<u8>
    decreases list.len(),
{
    if list.len() == 0 {
        out
    } else {
        put_structs(put_struct(out, list[0]), list.drop_first())
    }
}

pub open spec fn mgmt_values(list: Seq<SentStruct>) -> Seq<ManagementAddressModel> {
    list.map_values(|x: SentStruct| decode::mgmt_address(RawMgmt::decode(x.body)))
}

proof fn lemma_mgmts(b: Seq<u8>, out: Seq<u8>, list: Seq<SentStruct>)
    requires
        list.len() > 0,
        are_mgmts(list),
        starts(b, put_structs(out, list)),
    ensures
        starts(b, out),
        decode::mgmt_chain_step(b, at(out)) == (Step {
            value: mgmt_values(list),
            at: at(put_structs(out, list)),
        }),
    decreases list.len(),
{
    let x = list[0];
    let tail = list.drop_first();
    lemma_tail(
        list,
        |x: SentStruct| x.holds::<RawMgmt>(),
        |x: SentStruct| RawMgmt::decode(x.body).tqe_next != 0,
    );
    let own = put_struct(out, x);
    assert(x.holds::<RawMgmt>());
    if tail.len() > 0 {
        lemma_mgmts(b, own, tail);
    }
    lemma_struct::<RawMgmt>(b, out, x);
    assert(mgmt_values(list) =~= seq![decode::mgmt_address(RawMgmt::decode(x.body))]
        + mgmt_values(tail));
}

/// A chassis.
pub struct SentChassis {
    pub chunk: SentStruct,
    pub id: SentLeaf,
    pub name: SentLeaf,
    pub descr: SentLeaf,
    pub mgmts: Seq<SentStruct>,
    pub med_hw: SentLeaf,
    pub med_fw: SentLeaf,
    pub med_sw: SentLeaf,
    pub med_sn: SentLeaf,
    pub med_manuf: SentLeaf,
    pub med_model: SentLeaf,
    pub med_asset: SentLeaf,
}

impl SentChassis {
    #[verifier::opaque]
    pub open spec fn raw(self) -> RawChassis {
        RawChassis::decode(self.chunk.body)
    }

    pub open spec fn valid(self) -> bool {
        &&& self.chunk.holds::<RawChassis>()
        &&& are_mgmts(self.mgmts)
        &&& self.raw().c_mgmt_tqh_first != 0 <==> self.mgmts.len() > 0
    }

    pub open spec fn value(self) -> ChassisModel {
        let raw = self.raw();
        ChassisModel {
            id_subtype: ChassisIdSubtype::of_code(raw.c_id_subtype),
            id: decode::or_empty(bytes_value(raw.c_id, self.id)),
            name: text_value(raw.c_name, self.name),
            description: text_value(raw.c_descr, self.descr),
            capabilities_available: Capabilities(raw.c_cap_available),
            capabilities_enabled: Capabilities(raw.c_cap_enabled),
            management_addresses: mgmt_values(self.mgmts),
            med: self.med_value(),
        }
    }

    pub open spec fn med_value(self) -> MedInventoryModel {
        let raw = self.raw();
        MedInventoryModel {
            hardware_revision: text_value(raw.c_med_hw, self.med_hw),
            firmware_revision: text_value(raw.c_med_fw, self.med_fw),
            software_revision: text_value(raw.c_med_sw, self.med_sw),
            serial_number: text_value(raw.c_med_sn, self.med_sn),
            manufacturer: text_value(raw.c_med_manuf, self.med_manuf),
            model: text_value(raw.c_med_model, self.med_model),
            asset_id: text_value(raw.c_med_asset, self.med_asset),
        }
    }
}

pub open spec fn put_med(out: Seq<u8>, c: SentChassis) -> Seq<u8> {
    let raw = c.raw();
    let hw = put_leaf(out, raw.c_med_hw, c.med_hw);
    let fw = put_leaf(hw, raw.c_med_fw, c.med_fw);
    let sw = put_leaf(fw, raw.c_med_sw, c.med_sw);
    let sn = put_leaf(sw, raw.c_med_sn, c.med_sn);
    let manuf = put_leaf(sn, raw.c_med_manuf, c.med_manuf);
    let model = put_leaf(manuf, raw.c_med_model, c.med_model);
    put_leaf(model, raw.c_med_asset, c.med_asset)
}

pub open spec fn put_chassis(out: Seq<u8>, c: SentChassis) -> Seq<u8> {
    let own = put_struct(out, c.chunk);
    let id = put_leaf(own, c.raw().c_id, c.id);
    let name = put_leaf(id, c.raw().c_name, c.name);
    let descr = put_leaf(name, c.raw().c_descr, c.descr);
    let mgmts = put_structs(descr, c.mgmts);
    put_med(mgmts, c)
}

proof fn lemma_chassis_struct(b: Seq<u8>, out: Seq<u8>, x: SentChassis)
    requires
        x.chunk.holds::<RawChassis>(),
        starts(b, put_struct(out, x.chunk)),
    ensures
        starts(b, out),
        cursor::pod_step::<RawChassis>(b, at(out)) == (Step {
            value: x.raw(),
            at: at(put_struct(out, x.chunk)),
        }),
{
    reveal(SentChassis::raw);
    lemma_struct::<RawChassis>(b, out, x.chunk);
}

proof fn lemma_med(b: Seq<u8>, out: Seq<u8>, c: SentChassis)
    requires
        starts(b, put_med(out, c)),
    ensures
        starts(b, out),
        decode::med_step(b, at(out), c.raw()) == (Step {
            value: c.med_value(),
            at: at(put_med(out, c)),
        }),
{
    reveal(decode::med_step);
    let raw = c.raw();
    let hw = put_leaf(out, raw.c_med_hw, c.med_hw);
    let fw = put_leaf(hw, raw.c_med_fw, c.med_fw);
    let sw = put_leaf(fw, raw.c_med_sw, c.med_sw);
    let sn = put_leaf(sw, raw.c_med_sn, c.med_sn);
    let manuf = put_leaf(sn, raw.c_med_manuf, c.med_manuf);
    let model = put_leaf(manuf, raw.c_med_model, c.med_model);
    lemma_leaf(b, model, raw.c_med_asset, c.med_asset);
    lemma_leaf(b, manuf, raw.c_med_model, c.med_model);
    lemma_leaf(b, sn, raw.c_med_manuf, c.med_manuf);
    lemma_leaf(b, sw, raw.c_med_sn, c.med_sn);
    lemma_leaf(b, fw, raw.c_med_sw, c.med_sw);
    lemma_leaf(b, hw, raw.c_med_fw, c.med_fw);
    lemma_leaf(b, out, raw.c_med_hw, c.med_hw);
}

proof fn lemma_chassis(b: Seq<u8>, out: Seq<u8>, c: SentChassis)
    requires
        c.valid(),
        starts(b, put_chassis(out, c)),
    ensures
        starts(b, out),
        decode::chassis_step(b, at(out)) == (Step {
            value: c.value(),
            at: at(put_chassis(out, c)),
        }),
{
    reveal(decode::chassis_step);
    let own = put_struct(out, c.chunk);
    let id = put_leaf(own, c.raw().c_id, c.id);
    let name = put_leaf(id, c.raw().c_name, c.name);
    let descr = put_leaf(name, c.raw().c_descr, c.descr);
    let mgmts = put_structs(descr, c.mgmts);
    lemma_med(b, mgmts, c);
    if c.mgmts.len() > 0 {
        lemma_mgmts(b, descr, c.mgmts);
    } else {
        assert(mgmt_values(c.mgmts) =~= Seq::empty());
    }
    lemma_leaf(b, name, c.raw().c_descr, c.descr);
    lemma_leaf(b, id, c.raw().c_name, c.name);
    lemma_leaf(b, own, c.raw().c_id, c.id);
    lemma_chassis_struct(b, out, c);
}

/// An LLDP-MED location.
pub struct SentLocation {
    pub marker: SentMarker,
    pub data: SentLeaf,
}

/// A VLAN.
pub struct SentVlan {
    pub chunk: SentStruct,
    pub name: SentLeaf,
}

impl SentVlan {
    pub open spec fn raw(self) -> RawVlan {
        RawVlan::decode(self.chunk.body)
    }
}

/// A protocol identity.
pub struct SentPi {
    pub chunk: SentStruct,
    pub pi: SentLeaf,
}

impl SentPi {
    pub open spec fn raw(self) -> RawPi {
        RawPi::decode(self.chunk.body)
    }
}

/// The elements are VLANs, and each but the last has a successor.
pub open spec fn are_vlans(list: Seq<SentVlan>) -> bool {
    is_chain(
        list,
        |x: SentVlan| x.chunk.holds::<RawVlan>(),
        |x: SentVlan| x.raw().tqe_next != 0,
    )
}

/// The elements are port and protocol VLAN identifiers, and each but the last
/// has a successor.
pub open spec fn are_ppvids(list: Seq<SentStruct>) -> bool {
    is_chain(
        list,
        |x: SentStruct| x.holds::<RawPpvid>(),
        |x: SentStruct| RawPpvid::decode(x.body).tqe_next != 0,
    )
}

/// The elements are protocol identities, and each but the last has a
/// successor.
pub open spec fn are_pis(list: Seq<SentPi>) -> bool {
    is_chain(
        list,
        |x: SentPi| x.chunk.holds::<RawPi>(),
        |x: SentPi| x.raw().tqe_next != 0,
    )
}

/// The locations from the `i`-th on.
pub open spec fn put_locations(
    out: Seq<u8>,
    locs: Seq<RawMedLoc>,
    sent: Seq<SentLocation>,
    i: int,
) -> Seq<u8>
    decreases locs.len() - i,
{
    if i >= locs.len() {
        out
    } else {
        put_locations(
            put_leaf(put_marker(out, sent[i].marker), locs[i].data, sent[i].data),
            locs,
            sent,
            i + 1,
        )
    }
}

pub open spec fn put_vlans(out: Seq<u8>, list: Seq<SentVlan>) -> Seq<u8>
    decreases list.len(),
{
    if list.len() == 0 {
        out
    } else {
        let rest = put_vlans(put_struct(out, list[0].chunk), list.drop_first());
        put_leaf(rest, list[0].raw().v_name, list[0].name)
    }
}

pub open spec fn put_pis(out: Seq<u8>, list: Seq<SentPi>) -> Seq<u8>
    decreases list.len(),
{
    if list.len() == 0 {
        out
    } else {
        let rest = put_pis(put_struct(out, list[0].chunk), list.drop_first());
        put_leaf(rest, list[0].raw().p_pi, list[0].pi)
    }
}

proof fn lemma_locations(
    b: Seq<u8>,
    out: Seq<u8>,
    locs: Seq<RawMedLoc>,
    sent: Seq<SentLocation>,
    i: int,
)
    requires
        starts(b, put_locations(out, locs, sent, i)),
    ensures
        starts(b, out),
        decode::locations_step(b, at(out), locs, i) == at(put_locations(out, locs, sent, i)),
    decreases locs.len() - i,
{
    if i < locs.len() {
        let marker = put_marker(out, sent[i].marker);
        let own = put_leaf(marker, locs[i].data, sent[i].data);
        lemma_locations(b, own, locs, sent, i + 1);
        lemma_leaf(b, marker, locs[i].data, sent[i].data);
        lemma_marker(b, out, sent[i].marker);
    }
}

proof fn lemma_vlans(b: Seq<u8>, out: Seq<u8>, list: Seq<SentVlan>)
    requires
        list.len() > 0,
        are_vlans(list),
        starts(b, put_vlans(out, list)),
    ensures
        starts(b, out),
        decode::vlan_chain_step(b, at(out)) == at(put_vlans(out, list)),
    decreases list.len(),
{
    let x = list[0];
    let tail = list.drop_first();
    lemma_tail(
        list,
        |x: SentVlan| x.chunk.holds::<RawVlan>(),
        |x: SentVlan| x.raw().tqe_next != 0,
    );
    let own = put_struct(out, x.chunk);
    assert(x.chunk.holds::<RawVlan>());
    lemma_leaf(b, put_vlans(own, tail), x.raw().v_name, x.name);
    if tail.len() > 0 {
        lemma_vlans(b, own, tail);
    }
    lemma_struct::<RawVlan>(b, out, x.chunk);
}

proof fn lemma_ppvids(b: Seq<u8>, out: Seq<u8>, list: Seq<SentStruct>)
    requires
        list.len() > 0,
        are_ppvids(list),
        starts(b, put_structs(out, list)),
    ensures
        starts(b, out),
        decode::ppvid_chain_step(b, at(out)) == at(put_structs(out, list)),
    decreases list.len(),
{
    let x = list[0];
    let tail = list.drop_first();
    lemma_tail(
        list,
        |x: SentStruct| x.holds::<RawPpvid>(),
        |x: SentStruct| RawPpvid::decode(x.body).tqe_next != 0,
    );
    let own = put_struct(out, x);
    assert(x.holds::<RawPpvid>());
    if tail.len() > 0 {
        lemma_ppvids(b, own, tail);
    }
    lemma_struct::<RawPpvid>(b, out, x);
}

proof fn lemma_pis(b: Seq<u8>, out: Seq<u8>, list: Seq<SentPi>)
    requires
        list.len() > 0,
        are_pis(list),
        starts(b, put_pis(out, list)),
    ensures
        starts(b, out),
        decode::pi_chain_step(b, at(out)) == at(put_pis(out, list)),
    decreases list.len(),
{
    let x = list[0];
    let tail = list.drop_first();
    lemma_tail(
        list,
        |x: SentPi| x.chunk.holds::<RawPi>(),
        |x: SentPi| x.raw().tqe_next != 0,
    );
    let own = put_struct(out, x.chunk);
    assert(x.chunk.holds::<RawPi>());
    lemma_leaf(b, put_pis(own, tail), x.raw().p_pi, x.pi);
    if tail.len() > 0 {
        lemma_pis(b, own, tail);
    }
    lemma_struct::<RawPi>(b, out, x.chunk);
}

/// The chassis that lldpd knows, by their references.
pub type Known = Map<usize, SentChassis>;

/// Every chassis is one.
pub open spec fn all_valid(known: Known) -> bool {
    forall|r: usize| known.contains_key(r) ==> (#[trigger] known[r]).valid()
}

/// The chassis that a reference stands for.
pub open spec fn chassis_value(known: Known, r: usize) -> Option<ChassisModel> {
    if r == 0 {
        None
    } else {
        Some(known[r].value())
    }
}

/// What a port refers to, apart from its chassis.
pub struct SentPort {
    pub id: SentLeaf,
    pub descr: SentLeaf,
    pub pattern: SentLeaf,
    pub locations: Seq<SentLocation>,
    pub vlans: Seq<SentVlan>,
    pub ppvids: Seq<SentStruct>,
    pub pis: Seq<SentPi>,
}

impl SentPort {
    /// These are the objects that `raw` refers to.
    pub open spec fn belongs_to(self, raw: RawPort, known: Known) -> bool {
        &&& raw.p_chassis != 0 ==> known.contains_key(raw.p_chassis)
        &&& are_vlans(self.vlans)
        &&& raw.p_vlans_tqh_first != 0 <==> self.vlans.len() > 0
        &&& are_ppvids(self.ppvids)
        &&& raw.p_ppvids_tqh_first != 0 <==> self.ppvids.len() > 0
        &&& are_pis(self.pis)
        &&& raw.p_pids_tqh_first != 0 <==> self.pis.len() > 0
    }

    pub open spec fn value(self, raw: RawPort, known: Known) -> decode::PortModel {
        decode::PortModel {
            chassis: chassis_value(known, raw.p_chassis),
            id: bytes_value(raw.p_id, self.id),
            description: text_value(raw.p_descr, self.descr),
        }
    }
}

/// A chassis is sent with the first port that refers to it.
pub open spec fn put_port_chassis(
    out: Seq<u8>,
    r: usize,
    known: Known,
    sent: Set<usize>,
) -> Seq<u8> {
    if r == 0 || sent.contains(r) {
        out
    } else {
        put_chassis(out, known[r])
    }
}

/// The references of the chassis that are sent once that of `r` is.
pub open spec fn with_reference(sent: Set<usize>, r: usize) -> Set<usize> {
    if r == 0 {
        sent
    } else {
        sent.insert(r)
    }
}

pub open spec fn put_port_tail(out: Seq<u8>, raw: RawPort, p: SentPort) -> Seq<u8> {
    let pattern = put_leaf(out, raw.p_vlan_advertise_pattern, p.pattern);
    let locations = put_locations(pattern, raw.p_med_location@, p.locations, 0);
    let vlans = put_vlans(locations, p.vlans);
    let ppvids = put_structs(vlans, p.ppvids);
    put_pis(ppvids, p.pis)
}

#[verifier::opaque]
pub open spec fn put_port(
    out: Seq<u8>,
    raw: RawPort,
    p: SentPort,
    known: Known,
    sent: Set<usize>,
) -> Seq<u8> {
    let chassis = put_port_chassis(out, raw.p_chassis, known, sent);
    let id = put_leaf(chassis, raw.p_id, p.id);
    let descr = put_leaf(id, raw.p_descr, p.descr);
    put_port_tail(descr, raw, p)
}

/// What the reader has seen of the chassis is what was sent of them.
pub open spec fn agree(seen: decode::Seen, known: Known, sent: Set<usize>) -> bool {
    &&& seen.dom() == sent
    &&& forall|r: usize| seen.contains_key(r) ==> #[trigger] seen[r] == known[r].value()
}

proof fn lemma_port_tail(b: Seq<u8>, out: Seq<u8>, raw: RawPort, p: SentPort, known: Known)
    requires
        p.belongs_to(raw, known),
        starts(b, put_port_tail(out, raw, p)),
    ensures
        starts(b, out),
        decode::port_tail_step(b, at(out), raw) == at(put_port_tail(out, raw, p)),
{
    reveal(decode::port_tail_step);
    let pattern = put_leaf(out, raw.p_vlan_advertise_pattern, p.pattern);
    let locations = put_locations(pattern, raw.p_med_location@, p.locations, 0);
    let vlans = put_vlans(locations, p.vlans);
    let ppvids = put_structs(vlans, p.ppvids);
    if p.pis.len() > 0 {
        lemma_pis(b, ppvids, p.pis);
    }
    if p.ppvids.len() > 0 {
        lemma_ppvids(b, vlans, p.ppvids);
    }
    if p.vlans.len() > 0 {
        lemma_vlans(b, locations, p.vlans);
    }
    lemma_locations(b, pattern, raw.p_med_location@, p.locations, 0);
    lemma_leaf(b, out, raw.p_vlan_advertise_pattern, p.pattern);
}

proof fn lemma_port(
    b: Seq<u8>,
    out: Seq<u8>,
    raw: RawPort,
    p: SentPort,
    known: Known,
    seen: decode::Seen,
    sent: Set<usize>,
)
    requires
        all_valid(known),
        p.belongs_to(raw, known),
        agree(seen, known, sent),
        starts(b, put_port(out, raw, p, known, sent)),
    ensures
        starts(b, out),
        decode::port_step(b, at(out), raw, seen) == (Step {
            value: p.value(raw, known),
            at: at(put_port(out, raw, p, known, sent)),
        }),
        agree(
            decode::seen_after(b, at(out), raw.p_chassis, seen),
            known,
            with_reference(sent, raw.p_chassis),
        ),
{
    reveal(put_port);
    reveal(decode::port_step);
    let r = raw.p_chassis;
    let chassis = put_port_chassis(out, r, known, sent);
    let id = put_leaf(chassis, raw.p_id, p.id);
    let descr = put_leaf(id, raw.p_descr, p.descr);
    lemma_port_tail(b, descr, raw, p, known);
    lemma_leaf(b, id, raw.p_descr, p.descr);
    lemma_leaf(b, chassis, raw.p_id, p.id);
    let after = decode::seen_after(b, at(out), r, seen);
    if r != 0 && !sent.contains(r) {
        assert(known[r].valid());
        lemma_chassis(b, out, known[r]);
        assert(!seen.contains_key(r));
        assert(after.dom() =~= with_reference(sent, r));
    } else {
        assert(r != 0 ==> seen.contains_key(r));
        assert(after.dom() =~= with_reference(sent, r));
    }
}

/// A neighbor.
pub struct SentNeighbor {
    pub chunk: SentStruct,
    pub port: SentPort,
}

impl SentNeighbor {
    #[verifier::opaque]
    pub open spec fn raw(self) -> RawPort {
        RawPort::decode(self.chunk.body)
    }

    /// A neighbor has a chassis.
    pub open spec fn valid(self, known: Known) -> bool {
        &&& self.chunk.holds::<RawPort>()
        &&& self.port.belongs_to(self.raw(), known)
        &&& self.raw().p_chassis != 0
    }

    pub open spec fn value(self, known: Known) -> NeighborModel {
        let raw = self.raw();
        NeighborModel {
            chassis: known[raw.p_chassis].value(),
            port_id_subtype: PortIdSubtype::of_code(raw.p_id_subtype),
            port_id: decode::or_empty(bytes_value(raw.p_id, self.port.id)),
            port_description: text_value(raw.p_descr, self.port.descr),
            ttl: raw.p_ttl,
        }
    }
}

proof fn lemma_neighbor(
    b: Seq<u8>,
    out: Seq<u8>,
    x: SentNeighbor,
    known: Known,
    seen: decode::Seen,
    sent: Set<usize>,
)
    requires
        all_valid(known),
        x.valid(known),
        agree(seen, known, sent),
        starts(b, put_port(out, x.raw(), x.port, known, sent)),
    ensures
        starts(b, out),
        decode::neighbor_step(b, at(out), x.raw(), seen) == (Step {
            value: x.value(known),
            at: at(put_port(out, x.raw(), x.port, known, sent)),
        }),
        agree(
            decode::seen_after(b, at(out), x.raw().p_chassis, seen),
            known,
            with_reference(sent, x.raw().p_chassis),
        ),
{
    lemma_port(b, out, x.raw(), x.port, known, seen, sent);
}

/// The elements are neighbors, and each but the last has a successor.
pub open spec fn are_neighbors(list: Seq<SentNeighbor>, known: Known) -> bool {
    is_chain(
        list,
        |x: SentNeighbor| x.valid(known),
        |x: SentNeighbor| x.raw().tqe_next != 0,
    )
}

proof fn lemma_neighbor_struct(b: Seq<u8>, out: Seq<u8>, x: SentNeighbor)
    requires
        x.chunk.holds::<RawPort>(),
        starts(b, put_struct(out, x.chunk)),
    ensures
        starts(b, out),
        cursor::pod_step::<RawPort>(b, at(out)) == (Step {
            value: x.raw(),
            at: at(put_struct(out, x.chunk)),
        }),
{
    reveal(SentNeighbor::raw);
    lemma_struct::<RawPort>(b, out, x.chunk);
}

proof fn lemma_neighbors_tail(list: Seq<SentNeighbor>, known: Known)
    requires
        list.len() > 0,
        are_neighbors(list, known),
    ensures
        list[0].valid(known),
        list[0].raw().tqe_next != 0 <==> list.len() > 1,
        are_neighbors(list.drop_first(), known),
{
    lemma_tail(
        list,
        |x: SentNeighbor| x.valid(known),
        |x: SentNeighbor| x.raw().tqe_next != 0,
    );
}

/// The references of the chassis that are sent once the neighbors are.
pub open spec fn with_references(sent: Set<usize>, list: Seq<SentNeighbor>) -> Set<usize>
    decreases list.len(),
{
    if list.len() == 0 {
        sent
    } else {
        with_reference(with_references(sent, list.drop_first()), list[0].raw().p_chassis)
    }
}

pub open spec fn put_neighbors(
    out: Seq<u8>,
    list: Seq<SentNeighbor>,
    known: Known,
    sent: Set<usize>,
) -> Seq<u8>
    decreases list.len(),
{
    if list.len() == 0 {
        out
    } else {
        let own = put_struct(out, list[0].chunk);
        let rest = put_neighbors(own, list.drop_first(), known, sent);
        put_port(
            rest,
            list[0].raw(),
            list[0].port,
            known,
            with_references(sent, list.drop_first()),
        )
    }
}

pub open spec fn neighbor_values(list: Seq<SentNeighbor>, known: Known) -> Seq<NeighborModel> {
    list.map_values(|x: SentNeighbor| x.value(known))
}

#[verifier::rlimit(50)]
proof fn lemma_neighbors(
    b: Seq<u8>,
    out: Seq<u8>,
    list: Seq<SentNeighbor>,
    known: Known,
    seen: decode::Seen,
    sent: Set<usize>,
)
    requires
        list.len() > 0,
        all_valid(known),
        are_neighbors(list, known),
        agree(seen, known, sent),
        starts(b, put_neighbors(out, list, known, sent)),
    ensures
        starts(b, out),
        ({
            let step = decode::neighbor_chain_step(b, at(out), seen);
            &&& step.value.0 == neighbor_values(list, known)
            &&& agree(step.value.1, known, with_references(sent, list))
            &&& step.at == at(put_neighbors(out, list, known, sent))
        }),
    decreases list.len(),
{
    let x = list[0];
    let tail = list.drop_first();
    lemma_neighbors_tail(list, known);
    let own = put_struct(out, x.chunk);
    let rest = put_neighbors(own, tail, known, sent);
    assert(x.valid(known));
    let after = if tail.len() > 0 {
        decode::neighbor_chain_step(b, at(own), seen).value.1
    } else {
        seen
    };
    if tail.len() > 0 {
        lemma_port_starts(b, rest, x.raw(), x.port, known, with_references(sent, tail));
        lemma_neighbors(b, own, tail, known, seen, sent);
    }
    lemma_neighbor(b, rest, x, known, after, with_references(sent, tail));
    lemma_neighbor_struct(b, out, x);
    assert(neighbor_values(list, known) =~= seq![x.value(known)] + neighbor_values(tail, known));
}

/// What comes before a port is still there behind it.
proof fn lemma_port_starts(
    b: Seq<u8>,
    out: Seq<u8>,
    raw: RawPort,
    p: SentPort,
    known: Known,
    sent: Set<usize>,
)
    requires
        all_valid(known),
        p.belongs_to(raw, known),
        starts(b, put_port(out, raw, p, known, sent)),
    ensures
        starts(b, out),
{
    reveal(put_port);
    let r = raw.p_chassis;
    let chassis = put_port_chassis(out, r, known, sent);
    let id = put_leaf(chassis, raw.p_id, p.id);
    let descr = put_leaf(id, raw.p_descr, p.descr);
    lemma_port_tail(b, descr, raw, p, known);
    lemma_leaf(b, id, raw.p_descr, p.descr);
    lemma_leaf(b, chassis, raw.p_id, p.id);
    if r != 0 && !sent.contains(r) {
        assert(known[r].valid());
        lemma_chassis(b, out, known[r]);
    }
}

/// The reply to `GET_INTERFACE`: an interface, its own port and its neighbors.
pub struct SentHardware {
    pub chunk: SentStruct,
    pub marker: SentMarker,
    pub local: SentPort,
    pub neighbors: Seq<SentNeighbor>,
    pub alias: SentLeaf,
    pub known: Known,
}

impl SentHardware {
    #[verifier::opaque]
    pub open spec fn raw(self) -> RawHardware {
        RawHardware::decode(self.chunk.body)
    }

    pub open spec fn valid(self) -> bool {
        &&& self.chunk.holds::<RawHardware>()
        &&& all_valid(self.known)
        &&& self.raw().h_lport.tqe_next == 0
        &&& self.local.belongs_to(self.raw().h_lport, self.known)
        &&& are_neighbors(self.neighbors, self.known)
        &&& self.raw().h_rports_tqh_first != 0 <==> self.neighbors.len() > 0
    }

    pub open spec fn message(self) -> Seq<u8> {
        let raw = self.raw();
        let marker = put_marker(put_struct(Seq::empty(), self.chunk), self.marker);
        let local = put_port(marker, raw.h_lport, self.local, self.known, Set::empty());
        let neighbors = put_neighbors(
            local,
            self.neighbors,
            self.known,
            with_reference(Set::empty(), raw.h_lport.p_chassis),
        );
        put_leaf(neighbors, raw.h_ifalias, self.alias)
    }

    pub open spec fn value(self) -> InterfaceDetailsModel {
        let raw = self.raw();
        InterfaceDetailsModel {
            name: text::text_of(decode::until_nul(raw.h_ifname@)),
            alias: text_value(raw.h_ifalias, self.alias),
            mac_address: raw.h_lladdr,
            local_chassis: chassis_value(self.known, raw.h_lport.p_chassis),
            neighbors: neighbor_values(self.neighbors, self.known),
        }
    }
}

proof fn lemma_hardware_struct(b: Seq<u8>, out: Seq<u8>, x: SentHardware)
    requires
        x.chunk.holds::<RawHardware>(),
        starts(b, put_struct(out, x.chunk)),
    ensures
        starts(b, out),
        cursor::pod_step::<RawHardware>(b, at(out)) == (Step {
            value: x.raw(),
            at: at(put_struct(out, x.chunk)),
        }),
{
    reveal(SentHardware::raw);
    lemma_struct::<RawHardware>(b, out, x.chunk);
}

/// An interface with its neighbors reads back as it was sent. Each neighbor
/// has the chassis that it refers to, whichever port brought that chassis.
/// The references are those of the ports that were sent, and reading ends
/// where the message does.
#[verifier::rlimit(50)]
pub proof fn hardware_reads_back(sent: SentHardware, b: Seq<u8>)
    requires
        sent.valid(),
        starts(b, sent.message()),
    ensures
        decode::hardware_step(b).outcome() == Ok::<
            InterfaceDetailsModel,
            crate::error::Malformed,
        >(sent.value()),
        decode::hardware_step(b).at.pos == sent.message().len(),
        decode::hardware_references(b) == (
            sent.raw().h_lport.p_chassis,
            neighbor_references(sent.neighbors),
        ),
{
    let raw = sent.raw();
    let own = put_struct(Seq::empty(), sent.chunk);
    let marker = put_marker(own, sent.marker);
    let nothing: decode::Seen = Map::empty();
    let none: Set<usize> = Set::empty();
    let local = put_port(marker, raw.h_lport, sent.local, sent.known, none);
    let first = with_reference(none, raw.h_lport.p_chassis);
    let neighbors = put_neighbors(local, sent.neighbors, sent.known, first);
    assert(agree(nothing, sent.known, none)) by {
        assert(nothing.dom() =~= none);
    }
    lemma_leaf(b, neighbors, raw.h_ifalias, sent.alias);
    lemma_neighbors_start(b, local, sent.neighbors, sent.known, first);
    lemma_port(b, marker, raw.h_lport, sent.local, sent.known, nothing, none);
    lemma_marker(b, own, sent.marker);
    lemma_hardware_struct(b, Seq::empty(), sent);
    let seen = decode::seen_after(b, at(marker), raw.h_lport.p_chassis, nothing);
    if sent.neighbors.len() > 0 {
        lemma_neighbors(b, local, sent.neighbors, sent.known, seen, first);
        lemma_references(b, local, sent.neighbors, sent.known, first);
    } else {
        assert(neighbor_values(sent.neighbors, sent.known) =~= Seq::empty());
        assert(neighbor_references(sent.neighbors) =~= Seq::empty());
    }
}

/// What comes before a chain of neighbors is still there behind it.
proof fn lemma_neighbors_start(
    b: Seq<u8>,
    out: Seq<u8>,
    list: Seq<SentNeighbor>,
    known: Known,
    sent: Set<usize>,
)
    requires
        all_valid(known),
        are_neighbors(list, known),
        starts(b, put_neighbors(out, list, known, sent)),
    ensures
        starts(b, out),
    decreases list.len(),
{
    if list.len() > 0 {
        let x = list[0];
        let tail = list.drop_first();
        lemma_neighbors_tail(list, known);
        let own = put_struct(out, x.chunk);
        let rest = put_neighbors(own, tail, known, sent);
        assert(x.valid(known));
        lemma_port_starts(b, rest, x.raw(), x.port, known, with_references(sent, tail));
        lemma_neighbors_start(b, own, tail, known, sent);
        lemma_neighbor_struct(b, out, x);
    }
}

/// The references of the neighbors.
pub open spec fn neighbor_references(list: Seq<SentNeighbor>) -> Seq<usize> {
    list.map_values(|x: SentNeighbor| x.raw().p_chassis)
}

/// What a chain of neighbors starts with, and what follows it.
proof fn lemma_chain_parts(
    b: Seq<u8>,
    out: Seq<u8>,
    list: Seq<SentNeighbor>,
    known: Known,
    sent: Set<usize>,
)
    requires
        list.len() > 0,
        all_valid(known),
        are_neighbors(list, known),
        starts(b, put_neighbors(out, list, known, sent)),
    ensures
        list[0].chunk.holds::<RawPort>(),
        list[0].raw().tqe_next != 0 <==> list.len() > 1,
        are_neighbors(list.drop_first(), known),
        starts(b, put_struct(out, list[0].chunk)),
        starts(
            b,
            put_neighbors(put_struct(out, list[0].chunk), list.drop_first(), known, sent),
        ),
{
    let x = list[0];
    let tail = list.drop_first();
    lemma_neighbors_tail(list, known);
    let own = put_struct(out, x.chunk);
    let rest = put_neighbors(own, tail, known, sent);
    lemma_port_starts(b, rest, x.raw(), x.port, known, with_references(sent, tail));
    lemma_neighbors_start(b, own, tail, known, sent);
}

#[verifier::rlimit(50)]
proof fn lemma_references(
    b: Seq<u8>,
    out: Seq<u8>,
    list: Seq<SentNeighbor>,
    known: Known,
    sent: Set<usize>,
)
    requires
        list.len() > 0,
        all_valid(known),
        are_neighbors(list, known),
        starts(b, put_neighbors(out, list, known, sent)),
    ensures
        decode::neighbor_references(b, at(out)) == neighbor_references(list),
    decreases list.len(),
{
    let x = list[0];
    let tail = list.drop_first();
    let own = put_struct(out, x.chunk);
    lemma_chain_parts(b, out, list, known, sent);
    lemma_neighbor_struct(b, out, x);
    if tail.len() > 0 {
        lemma_references(b, own, tail, known, sent);
    }
    assert(neighbor_references(list) =~= seq![x.raw().p_chassis] + neighbor_references(tail));
}

/// A `NOTIFICATION`: an interface's names, and the neighbor that changed.
pub struct SentChange {
    pub chunk: SentStruct,
    pub ifname: SentLeaf,
    pub ifalias: SentLeaf,
    pub neighbor: SentNeighbor,
    pub known: Known,
}

impl SentChange {
    #[verifier::opaque]
    pub open spec fn raw(self) -> RawNeighborChange {
        RawNeighborChange::decode(self.chunk.body)
    }

    pub open spec fn valid(self) -> bool {
        &&& self.chunk.holds::<RawNeighborChange>()
        &&& all_valid(self.known)
        &&& self.raw().neighbor != 0 ==> self.neighbor.valid(self.known)
            && self.neighbor.raw().tqe_next == 0
    }

    pub open spec fn message(self) -> Seq<u8> {
        let own = put_struct(Seq::empty(), self.chunk);
        let ifname = put_leaf(own, self.raw().ifname, self.ifname);
        let ifalias = put_leaf(ifname, self.raw().ifalias, self.ifalias);
        if self.raw().neighbor == 0 {
            ifalias
        } else {
            put_neighbors(ifalias, seq![self.neighbor], self.known, Set::empty())
        }
    }

    pub open spec fn value(self) -> NeighborChangeModel {
        let raw = self.raw();
        NeighborChangeModel {
            interface: decode::or_empty(text_value(raw.ifname, self.ifname)),
            interface_alias: text_value(raw.ifalias, self.ifalias),
            kind: NeighborChangeKind::of_code(raw.state),
            neighbor: if raw.neighbor == 0 {
                None
            } else {
                Some(self.neighbor.value(self.known))
            },
        }
    }
}

proof fn lemma_change_struct(b: Seq<u8>, out: Seq<u8>, x: SentChange)
    requires
        x.chunk.holds::<RawNeighborChange>(),
        starts(b, put_struct(out, x.chunk)),
    ensures
        starts(b, out),
        cursor::pod_step::<RawNeighborChange>(b, at(out)) == (Step {
            value: x.raw(),
            at: at(put_struct(out, x.chunk)),
        }),
{
    reveal(SentChange::raw);
    lemma_struct::<RawNeighborChange>(b, out, x.chunk);
}

/// A notification reads back as it was sent, and reading ends where the
/// message does.
pub proof fn change_reads_back(sent: SentChange, b: Seq<u8>)
    requires
        sent.valid(),
        starts(b, sent.message()),
    ensures
        decode::neighbor_change_step(b).outcome() == Ok::<
            NeighborChangeModel,
            crate::error::Malformed,
        >(sent.value()),
        decode::neighbor_change_step(b).at.pos == sent.message().len(),
{
    let raw = sent.raw();
    let own = put_struct(Seq::empty(), sent.chunk);
    let ifname = put_leaf(own, raw.ifname, sent.ifname);
    let ifalias = put_leaf(ifname, raw.ifalias, sent.ifalias);
    if raw.neighbor != 0 {
        let x = sent.neighbor;
        let nothing: decode::Seen = Map::empty();
        let none: Set<usize> = Set::empty();
        assert(agree(nothing, sent.known, none)) by {
            assert(nothing.dom() =~= none);
        }
        let list = seq![x];
        assert(list.drop_first() =~= Seq::empty());
        let port = put_struct(ifalias, x.chunk);
        reveal_with_fuel(put_neighbors, 2);
        reveal_with_fuel(with_references, 2);
        assert(sent.message() == put_port(port, x.raw(), x.port, sent.known, none));
        lemma_neighbor(b, port, x, sent.known, nothing, none);
        lemma_neighbor_struct(b, ifalias, x);
    }
    lemma_leaf(b, ifname, raw.ifalias, sent.ifalias);
    lemma_leaf(b, own, raw.ifname, sent.ifname);
    lemma_change_struct(b, Seq::empty(), sent);
}

} // verus!
