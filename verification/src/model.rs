//! What lldpd knows: interfaces and the neighbors discovered on them.
//!
//! Each type's `deep_view` is the mathematical value that the contracts speak
//! of: text as a sequence of characters, bytes and lists as sequences, and a
//! chassis by what it holds, however many neighbors share it.

use std::sync::Arc;

use vstd::prelude::*;

use crate::text;

verus! {

/// One local interface, as `GET_INTERFACES` lists it.
#[derive(Debug, Clone, PartialEq, Eq)]
pub struct Interface {
    pub name: String,
    pub alias: Option<String>,
}

/// The value of an [`Interface`].
pub struct InterfaceModel {
    pub name: Seq<char>,
    pub alias: Option<Seq<char>>,
}

impl DeepView for Interface {
    type V = InterfaceModel;

    open spec fn deep_view(&self) -> InterfaceModel {
        InterfaceModel { name: self.name.deep_view(), alias: self.alias.deep_view() }
    }
}

/// Full state of one local interface (`GET_INTERFACE`): its own identity plus
/// every neighbor lldpd has heard from on it.
#[derive(Debug, Clone, PartialEq, Eq)]
pub struct InterfaceDetails {
    pub name: String,
    pub alias: Option<String>,
    pub mac_address: [u8; 6],
    /// The chassis that lldpd advertises for this machine on this interface.
    pub local_chassis: Option<Arc<Chassis>>,
    pub neighbors: Vec<Neighbor>,
}

/// The value of an [`InterfaceDetails`].
pub struct InterfaceDetailsModel {
    pub name: Seq<char>,
    pub alias: Option<Seq<char>>,
    pub mac_address: [u8; 6],
    pub local_chassis: Option<ChassisModel>,
    pub neighbors: Seq<NeighborModel>,
}

impl DeepView for InterfaceDetails {
    type V = InterfaceDetailsModel;

    open spec fn deep_view(&self) -> InterfaceDetailsModel {
        InterfaceDetailsModel {
            name: self.name.deep_view(),
            alias: self.alias.deep_view(),
            mac_address: self.mac_address,
            local_chassis: self.local_chassis.deep_view(),
            neighbors: self.neighbors.deep_view(),
        }
    }
}

/// One neighbor device seen on an interface.
///
/// lldpd keeps one chassis per device, so entries for one device that were
/// heard through different protocols share their `Chassis`. The value of a
/// neighbor says what its chassis is, not with whom it is shared.
#[derive(Debug, Clone, PartialEq, Eq)]
pub struct Neighbor {
    pub chassis: Arc<Chassis>,
    pub port_id_subtype: PortIdSubtype,
    /// Raw port identifier bytes; what they mean depends on
    /// `port_id_subtype` (six raw bytes for `MacAddress`, a printable string
    /// for `IfName`).
    pub port_id: Vec<u8>,
    pub port_description: Option<String>,
    /// Time-to-live announced for this neighbor entry, in seconds.
    pub ttl: u16,
}

/// The value of a [`Neighbor`].
pub struct NeighborModel {
    pub chassis: ChassisModel,
    pub port_id_subtype: PortIdSubtype,
    pub port_id: Seq<u8>,
    pub port_description: Option<Seq<char>>,
    pub ttl: u16,
}

impl DeepView for Neighbor {
    type V = NeighborModel;

    open spec fn deep_view(&self) -> NeighborModel {
        NeighborModel {
            chassis: self.chassis.deep_view(),
            port_id_subtype: self.port_id_subtype,
            port_id: self.port_id@,
            port_description: self.port_description.deep_view(),
            ttl: self.ttl,
        }
    }
}

impl Neighbor {
    /// The port identifier as text, where it is UTF-8 (as it is for
    /// `IfAlias`, `IfName`, `Local`, and often in practice for others too).
    pub fn port_id_str(&self) -> (r: Option<&str>)
        ensures
            r is Some <==> vstd::utf8::valid_utf8(self.port_id@),
            r matches Some(s) ==> s@ == vstd::utf8::decode_utf8(self.port_id@),
    {
        text::str_from_utf8(self.port_id.as_slice())
    }
}

/// One neighbor-table change, as lldpd pushes it to a subscriber
/// (`NOTIFICATION`). lldpd sends one for a neighbor on *any* interface.
#[derive(Debug, Clone, PartialEq, Eq)]
pub struct NeighborChange {
    pub interface: String,
    pub interface_alias: Option<String>,
    pub kind: NeighborChangeKind,
    /// The neighbor this change is about. lldpd fills it in, but nothing in
    /// the protocol requires that.
    pub neighbor: Option<Neighbor>,
}

/// The value of a [`NeighborChange`].
pub struct NeighborChangeModel {
    pub interface: Seq<char>,
    pub interface_alias: Option<Seq<char>>,
    pub kind: NeighborChangeKind,
    pub neighbor: Option<NeighborModel>,
}

impl DeepView for NeighborChange {
    type V = NeighborChangeModel;

    open spec fn deep_view(&self) -> NeighborChangeModel {
        NeighborChangeModel {
            interface: self.interface.deep_view(),
            interface_alias: self.interface_alias.deep_view(),
            kind: self.kind,
            neighbor: self.neighbor.deep_view(),
        }
    }
}

/// What happened to a neighbor entry (`NEIGHBOR_CHANGE_*`).
#[derive(Debug, Clone, Copy, PartialEq, Eq, Structural)]
pub enum NeighborChangeKind {
    /// A new neighbor was discovered.
    Added,
    /// An existing neighbor's advertised information changed.
    Updated,
    /// A neighbor aged out or its port went down.
    Deleted,
    /// A value without a name here.
    Other(i32),
}

impl NeighborChangeKind {
    /// The kind that lldpd sends as `v`.
    pub open spec fn of_code(v: i32) -> Self {
        if v == 1 {
            NeighborChangeKind::Added
        } else if v == 0 {
            NeighborChangeKind::Updated
        } else if v == -1 {
            NeighborChangeKind::Deleted
        } else {
            NeighborChangeKind::Other(v)
        }
    }
}

/// No two numbers give the same kind.
pub proof fn change_kinds_are_distinct(a: i32, b: i32)
    ensures
        NeighborChangeKind::of_code(a) == NeighborChangeKind::of_code(b) ==> a == b,
{
}

impl vstd::std_specs::convert::FromSpecImpl<i32> for NeighborChangeKind {
    open spec fn obeys_from_spec() -> bool {
        true
    }

    open spec fn from_spec(v: i32) -> Self {
        NeighborChangeKind::of_code(v)
    }
}

impl From<i32> for NeighborChangeKind {
    fn from(v: i32) -> Self {
        match v {
            1 => NeighborChangeKind::Added,
            0 => NeighborChangeKind::Updated,
            -1 => NeighborChangeKind::Deleted,
            other => NeighborChangeKind::Other(other),
        }
    }
}

/// A neighbor (or local) chassis: the identity of the whole device, as
/// opposed to one of its ports.
#[derive(Debug, Clone, PartialEq, Eq)]
pub struct Chassis {
    pub id_subtype: ChassisIdSubtype,
    /// Raw chassis identifier bytes; what they mean depends on `id_subtype`.
    pub id: Vec<u8>,
    pub name: Option<String>,
    pub description: Option<String>,
    pub capabilities_available: Capabilities,
    pub capabilities_enabled: Capabilities,
    pub management_addresses: Vec<ManagementAddress>,
    /// LLDP-MED inventory; every field is `None` when the neighbor sent none.
    pub med: MedInventory,
}

/// The value of a [`Chassis`].
pub struct ChassisModel {
    pub id_subtype: ChassisIdSubtype,
    pub id: Seq<u8>,
    pub name: Option<Seq<char>>,
    pub description: Option<Seq<char>>,
    pub capabilities_available: Capabilities,
    pub capabilities_enabled: Capabilities,
    pub management_addresses: Seq<ManagementAddressModel>,
    pub med: MedInventoryModel,
}

impl DeepView for Chassis {
    type V = ChassisModel;

    open spec fn deep_view(&self) -> ChassisModel {
        ChassisModel {
            id_subtype: self.id_subtype,
            id: self.id@,
            name: self.name.deep_view(),
            description: self.description.deep_view(),
            capabilities_available: self.capabilities_available,
            capabilities_enabled: self.capabilities_enabled,
            management_addresses: self.management_addresses.deep_view(),
            med: self.med.deep_view(),
        }
    }
}

impl Chassis {
    /// The chassis identifier as text, where it is UTF-8 (as it is for
    /// `ChassisComponent`, `IfAlias`, `IfName`, `Local`).
    pub fn id_str(&self) -> (r: Option<&str>)
        ensures
            r is Some <==> vstd::utf8::valid_utf8(self.id@),
            r matches Some(s) ==> s@ == vstd::utf8::decode_utf8(self.id@),
    {
        text::str_from_utf8(self.id.as_slice())
    }
}

/// LLDP-MED inventory (TIA-1057). Filled in only for a neighbor that
/// advertises it.
#[derive(Debug, Clone, Default, PartialEq, Eq)]
pub struct MedInventory {
    pub hardware_revision: Option<String>,
    pub firmware_revision: Option<String>,
    pub software_revision: Option<String>,
    pub serial_number: Option<String>,
    pub manufacturer: Option<String>,
    pub model: Option<String>,
    pub asset_id: Option<String>,
}

/// The value of a [`MedInventory`].
pub struct MedInventoryModel {
    pub hardware_revision: Option<Seq<char>>,
    pub firmware_revision: Option<Seq<char>>,
    pub software_revision: Option<Seq<char>>,
    pub serial_number: Option<Seq<char>>,
    pub manufacturer: Option<Seq<char>>,
    pub model: Option<Seq<char>>,
    pub asset_id: Option<Seq<char>>,
}

impl DeepView for MedInventory {
    type V = MedInventoryModel;

    open spec fn deep_view(&self) -> MedInventoryModel {
        MedInventoryModel {
            hardware_revision: self.hardware_revision.deep_view(),
            firmware_revision: self.firmware_revision.deep_view(),
            software_revision: self.software_revision.deep_view(),
            serial_number: self.serial_number.deep_view(),
            manufacturer: self.manufacturer.deep_view(),
            model: self.model.deep_view(),
            asset_id: self.asset_id.deep_view(),
        }
    }
}

/// An IP address, by its octets in network order.
#[derive(Debug, Clone, Copy, PartialEq, Eq)]
pub enum IpAddr {
    V4([u8; 4]),
    V6([u8; 16]),
}

/// A management address advertised by a chassis (IEEE 802.1AB Management
/// Address TLV).
#[derive(Debug, Clone, PartialEq, Eq)]
pub struct ManagementAddress {
    /// The address family, as IANA numbers it.
    pub family: u32,
    /// The address in network byte order.
    pub octets: Vec<u8>,
    pub interface_index: u32,
}

/// The value of a [`ManagementAddress`].
pub struct ManagementAddressModel {
    pub family: u32,
    pub octets: Seq<u8>,
    pub interface_index: u32,
}

impl DeepView for ManagementAddress {
    type V = ManagementAddressModel;

    open spec fn deep_view(&self) -> ManagementAddressModel {
        ManagementAddressModel {
            family: self.family,
            octets: self.octets@,
            interface_index: self.interface_index,
        }
    }
}

impl ManagementAddress {
    pub fn new(family: u32, octets: Vec<u8>, interface_index: u32) -> (r: Self)
        ensures
            r.deep_view() == (ManagementAddressModel {
                family,
                octets: octets@,
                interface_index,
            }),
    {
        ManagementAddress { family, octets, interface_index }
    }

    /// The address, if it is of one of the two families that lldpd numbers 1
    /// (IPv4) and 2 (IPv6) and long enough for it. Other families have
    /// [`Self::raw_octets`] alone.
    pub fn ip(&self) -> (r: Option<IpAddr>)
        ensures
            ({
                let a = self.deep_view();
                match r {
                    Some(IpAddr::V4(o)) => a.family == 1 && a.octets.len() >= 4 && o@
                        == a.octets.take(4),
                    Some(IpAddr::V6(o)) => a.family == 2 && a.octets.len() >= 16 && o@
                        == a.octets.take(16),
                    None => !(a.family == 1 && a.octets.len() >= 4) && !(a.family == 2
                        && a.octets.len() >= 16),
                }
            }),
    {
        if self.family == 1 && self.octets.len() >= 4 {
            let o = [self.octets[0], self.octets[1], self.octets[2], self.octets[3]];
            assert(o@ =~= self.octets@.take(4));
            Some(IpAddr::V4(o))
        } else if self.family == 2 && self.octets.len() >= 16 {
            let mut o = [0u8; 16];
            let mut i: usize = 0;
            while i < 16
                invariant
                    i <= 16,
                    o@.len() == 16,
                    self.octets@.len() >= 16,
                    forall|j: int| 0 <= j < i ==> o@[j] == self.octets@[j],
                decreases 16 - i,
            {
                o[i] = self.octets[i];
                i += 1;
            }
            assert(o@ =~= self.octets@.take(16));
            Some(IpAddr::V6(o))
        } else {
            None
        }
    }

    /// The raw address bytes as lldpd stored them (network byte order),
    /// whatever the address family.
    pub fn raw_octets(&self) -> (r: &[u8])
        ensures
            r@ == self.deep_view().octets,
    {
        self.octets.as_slice()
    }
}

/// IEEE 802.1AB chassis ID subtype (`LLDP_CHASSISID_SUBTYPE_*`).
#[derive(Debug, Clone, Copy, PartialEq, Eq, Structural)]
pub enum ChassisIdSubtype {
    ChassisComponent,
    IfAlias,
    PortComponent,
    MacAddress,
    NetworkAddress,
    IfName,
    Local,
    /// A value without a name here.
    Other(u8),
}

impl ChassisIdSubtype {
    /// The subtype with the number `v`.
    pub open spec fn of_code(v: u8) -> Self {
        if v == 1 {
            ChassisIdSubtype::ChassisComponent
        } else if v == 2 {
            ChassisIdSubtype::IfAlias
        } else if v == 3 {
            ChassisIdSubtype::PortComponent
        } else if v == 4 {
            ChassisIdSubtype::MacAddress
        } else if v == 5 {
            ChassisIdSubtype::NetworkAddress
        } else if v == 6 {
            ChassisIdSubtype::IfName
        } else if v == 7 {
            ChassisIdSubtype::Local
        } else {
            ChassisIdSubtype::Other(v)
        }
    }
}

/// No two numbers give the same subtype.
pub proof fn chassis_id_subtypes_are_distinct(a: u8, b: u8)
    ensures
        ChassisIdSubtype::of_code(a) == ChassisIdSubtype::of_code(b) ==> a == b,
{
}

impl vstd::std_specs::convert::FromSpecImpl<u8> for ChassisIdSubtype {
    open spec fn obeys_from_spec() -> bool {
        true
    }

    open spec fn from_spec(v: u8) -> Self {
        ChassisIdSubtype::of_code(v)
    }
}

impl From<u8> for ChassisIdSubtype {
    fn from(v: u8) -> Self {
        match v {
            1 => ChassisIdSubtype::ChassisComponent,
            2 => ChassisIdSubtype::IfAlias,
            3 => ChassisIdSubtype::PortComponent,
            4 => ChassisIdSubtype::MacAddress,
            5 => ChassisIdSubtype::NetworkAddress,
            6 => ChassisIdSubtype::IfName,
            7 => ChassisIdSubtype::Local,
            other => ChassisIdSubtype::Other(other),
        }
    }
}

/// IEEE 802.1AB port ID subtype (`LLDP_PORTID_SUBTYPE_*`). Its numbers differ
/// from those of [`ChassisIdSubtype`].
#[derive(Debug, Clone, Copy, PartialEq, Eq, Structural)]
pub enum PortIdSubtype {
    Unknown,
    IfAlias,
    PortComponent,
    MacAddress,
    NetworkAddress,
    IfName,
    AgentCircuitId,
    Local,
    /// A value without a name here.
    Other(u8),
}

impl PortIdSubtype {
    /// The subtype with the number `v`.
    pub open spec fn of_code(v: u8) -> Self {
        if v == 0 {
            PortIdSubtype::Unknown
        } else if v == 1 {
            PortIdSubtype::IfAlias
        } else if v == 2 {
            PortIdSubtype::PortComponent
        } else if v == 3 {
            PortIdSubtype::MacAddress
        } else if v == 4 {
            PortIdSubtype::NetworkAddress
        } else if v == 5 {
            PortIdSubtype::IfName
        } else if v == 6 {
            PortIdSubtype::AgentCircuitId
        } else if v == 7 {
            PortIdSubtype::Local
        } else {
            PortIdSubtype::Other(v)
        }
    }
}

/// No two numbers give the same subtype.
pub proof fn port_id_subtypes_are_distinct(a: u8, b: u8)
    ensures
        PortIdSubtype::of_code(a) == PortIdSubtype::of_code(b) ==> a == b,
{
}

impl vstd::std_specs::convert::FromSpecImpl<u8> for PortIdSubtype {
    open spec fn obeys_from_spec() -> bool {
        true
    }

    open spec fn from_spec(v: u8) -> Self {
        PortIdSubtype::of_code(v)
    }
}

impl From<u8> for PortIdSubtype {
    fn from(v: u8) -> Self {
        match v {
            0 => PortIdSubtype::Unknown,
            1 => PortIdSubtype::IfAlias,
            2 => PortIdSubtype::PortComponent,
            3 => PortIdSubtype::MacAddress,
            4 => PortIdSubtype::NetworkAddress,
            5 => PortIdSubtype::IfName,
            6 => PortIdSubtype::AgentCircuitId,
            7 => PortIdSubtype::Local,
            other => PortIdSubtype::Other(other),
        }
    }
}

/// Whether the `i`-th bit of `x` is set, counted from the lowest.
pub open spec fn is_set(x: u16, i: u16) -> bool {
    (x >> i) & 1 == 1
}

/// System capabilities bitmap (IEEE 802.1AB Table 8-4), as lldpd sends it;
/// [`Capabilities::contains`] tests single bits.
#[derive(Debug, Clone, Copy, PartialEq, Eq, Default)]
pub struct Capabilities(pub u16);

impl Capabilities {
    pub const OTHER: u16 = 0x0001;

    pub const REPEATER: u16 = 0x0002;

    pub const BRIDGE: u16 = 0x0004;

    pub const WLAN_ACCESS_POINT: u16 = 0x0008;

    pub const ROUTER: u16 = 0x0010;

    pub const TELEPHONE: u16 = 0x0020;

    pub const DOCSIS_CABLE_DEVICE: u16 = 0x0040;

    pub const STATION_ONLY: u16 = 0x0080;

    pub const CVLAN_COMPONENT: u16 = 0x0100;

    pub const SVLAN_COMPONENT: u16 = 0x0200;

    pub const TWO_PORT_MAC_RELAY: u16 = 0x0400;

    /// Whether every bit of `bit` is set.
    pub fn contains(self, bit: u16) -> (r: bool)
        ensures
            r == (self.0 & bit == bit),
            r == (forall|i: u16| i < 16 && #[trigger] is_set(bit, i) ==> is_set(self.0, i)),
    {
        proof {
            let own = self.0;
            if own & bit == bit {
                assert forall|i: u16| i < 16 && #[trigger] is_set(bit, i) implies is_set(
                    own,
                    i,
                ) by {
                    assert(i < 16 && own & bit == bit && (bit >> i) & 1 == 1 ==> (own >> i) & 1
                        == 1) by (bit_vector);
                }
            } else {
                assert(own & bit == bit
                    || (((bit >> 0) & 1) == 1 && ((own >> 0) & 1) == 0)
                    || (((bit >> 1) & 1) == 1 && ((own >> 1) & 1) == 0)
                    || (((bit >> 2) & 1) == 1 && ((own >> 2) & 1) == 0)
                    || (((bit >> 3) & 1) == 1 && ((own >> 3) & 1) == 0)
                    || (((bit >> 4) & 1) == 1 && ((own >> 4) & 1) == 0)
                    || (((bit >> 5) & 1) == 1 && ((own >> 5) & 1) == 0)
                    || (((bit >> 6) & 1) == 1 && ((own >> 6) & 1) == 0)
                    || (((bit >> 7) & 1) == 1 && ((own >> 7) & 1) == 0)
                    || (((bit >> 8) & 1) == 1 && ((own >> 8) & 1) == 0)
                    || (((bit >> 9) & 1) == 1 && ((own >> 9) & 1) == 0)
                    || (((bit >> 10) & 1) == 1 && ((own >> 10) & 1) == 0)
                    || (((bit >> 11) & 1) == 1 && ((own >> 11) & 1) == 0)
                    || (((bit >> 12) & 1) == 1 && ((own >> 12) & 1) == 0)
                    || (((bit >> 13) & 1) == 1 && ((own >> 13) & 1) == 0)
                    || (((bit >> 14) & 1) == 1 && ((own >> 14) & 1) == 0)
                    || (((bit >> 15) & 1) == 1 && ((own >> 15) & 1) == 0)) by (bit_vector);
                assert(forall|i: u16| #[trigger] is_set(own, i) || (own >> i) & 1 == 0) by {
                    assert forall|i: u16| #[trigger] is_set(own, i) || (own >> i) & 1 == 0 by {
                        assert((own >> i) & 1 == 1 || (own >> i) & 1 == 0) by (bit_vector);
                    }
                }
                assert(exists|i: u16| i < 16 && #[trigger] is_set(bit, i) && !is_set(own, i)) by {
                    assert(is_set(bit, 0) == ((bit >> 0) & 1 == 1));
                    assert(is_set(bit, 1) == ((bit >> 1) & 1 == 1));
                    assert(is_set(bit, 2) == ((bit >> 2) & 1 == 1));
                    assert(is_set(bit, 3) == ((bit >> 3) & 1 == 1));
                    assert(is_set(bit, 4) == ((bit >> 4) & 1 == 1));
                    assert(is_set(bit, 5) == ((bit >> 5) & 1 == 1));
                    assert(is_set(bit, 6) == ((bit >> 6) & 1 == 1));
                    assert(is_set(bit, 7) == ((bit >> 7) & 1 == 1));
                    assert(is_set(bit, 8) == ((bit >> 8) & 1 == 1));
                    assert(is_set(bit, 9) == ((bit >> 9) & 1 == 1));
                    assert(is_set(bit, 10) == ((bit >> 10) & 1 == 1));
                    assert(is_set(bit, 11) == ((bit >> 11) & 1 == 1));
                    assert(is_set(bit, 12) == ((bit >> 12) & 1 == 1));
                    assert(is_set(bit, 13) == ((bit >> 13) & 1 == 1));
                    assert(is_set(bit, 14) == ((bit >> 14) & 1 == 1));
                    assert(is_set(bit, 15) == ((bit >> 15) & 1 == 1));
                }
            }
        }
        self.0 & bit == bit
    }
}

/// These are the numbers of the kinds; any other number is kept as it is.
pub proof fn change_kinds_have_these_numbers(v: i32)
    ensures
        NeighborChangeKind::of_code(v) is Added <==> v == 1,
        NeighborChangeKind::of_code(v) is Updated <==> v == 0,
        NeighborChangeKind::of_code(v) is Deleted <==> v == -1,
        NeighborChangeKind::of_code(v) matches NeighborChangeKind::Other(n) ==> n == v,
{
}

/// These are the numbers of the subtypes; any other number is kept as it is.
pub proof fn chassis_id_subtypes_have_these_numbers(v: u8)
    ensures
        ChassisIdSubtype::of_code(v) is ChassisComponent <==> v == 1,
        ChassisIdSubtype::of_code(v) is IfAlias <==> v == 2,
        ChassisIdSubtype::of_code(v) is PortComponent <==> v == 3,
        ChassisIdSubtype::of_code(v) is MacAddress <==> v == 4,
        ChassisIdSubtype::of_code(v) is NetworkAddress <==> v == 5,
        ChassisIdSubtype::of_code(v) is IfName <==> v == 6,
        ChassisIdSubtype::of_code(v) is Local <==> v == 7,
        ChassisIdSubtype::of_code(v) matches ChassisIdSubtype::Other(n) ==> n == v,
{
}

/// These are the numbers of the subtypes; any other number is kept as it is.
pub proof fn port_id_subtypes_have_these_numbers(v: u8)
    ensures
        PortIdSubtype::of_code(v) is Unknown <==> v == 0,
        PortIdSubtype::of_code(v) is IfAlias <==> v == 1,
        PortIdSubtype::of_code(v) is PortComponent <==> v == 2,
        PortIdSubtype::of_code(v) is MacAddress <==> v == 3,
        PortIdSubtype::of_code(v) is NetworkAddress <==> v == 4,
        PortIdSubtype::of_code(v) is IfName <==> v == 5,
        PortIdSubtype::of_code(v) is AgentCircuitId <==> v == 6,
        PortIdSubtype::of_code(v) is Local <==> v == 7,
        PortIdSubtype::of_code(v) matches PortIdSubtype::Other(n) ==> n == v,
{
}

/// The value of an `Interface` says what its fields hold.
pub proof fn interfaces_have_their_fields(x: Interface)
    ensures
        x.deep_view().name == x.name@,
        x.deep_view().alias == (match x.alias {
            Some(s) => Some(s@),
            None => None,
        }),
{
}

/// The value of an `InterfaceDetails` says what its fields hold.
pub proof fn details_have_their_fields(x: InterfaceDetails)
    ensures
        x.deep_view().name == x.name@,
        x.deep_view().alias == (match x.alias {
            Some(s) => Some(s@),
            None => None,
        }),
        x.deep_view().mac_address == x.mac_address,
        x.local_chassis is None <==> x.deep_view().local_chassis is None,
        x.local_chassis matches Some(c) ==> x.deep_view().local_chassis == Some(c.deep_view()),
        x.deep_view().neighbors.len() == x.neighbors@.len(),
        forall|i: int|
            0 <= i < x.neighbors@.len() ==> x.deep_view().neighbors[i]
                == x.neighbors@[i].deep_view(),
{
}

/// The value of a `Neighbor` says what its fields hold.
pub proof fn neighbors_have_their_fields(x: Neighbor)
    ensures
        x.deep_view().chassis == x.chassis.deep_view(),
        x.deep_view().port_id_subtype == x.port_id_subtype,
        x.deep_view().port_id == x.port_id@,
        x.deep_view().port_description == (match x.port_description {
            Some(s) => Some(s@),
            None => None,
        }),
        x.deep_view().ttl == x.ttl,
{
}

/// The value of a `NeighborChange` says what its fields hold.
pub proof fn changes_have_their_fields(x: NeighborChange)
    ensures
        x.deep_view().interface == x.interface@,
        x.deep_view().interface_alias == (match x.interface_alias {
            Some(s) => Some(s@),
            None => None,
        }),
        x.deep_view().kind == x.kind,
        x.neighbor is None <==> x.deep_view().neighbor is None,
        x.neighbor matches Some(n) ==> x.deep_view().neighbor == Some(n.deep_view()),
{
}

/// The value of a `Chassis` says what its fields hold.
pub proof fn chassis_have_their_fields(x: Chassis)
    ensures
        x.deep_view().id_subtype == x.id_subtype,
        x.deep_view().id == x.id@,
        x.deep_view().name == (match x.name {
            Some(s) => Some(s@),
            None => None,
        }),
        x.deep_view().description == (match x.description {
            Some(s) => Some(s@),
            None => None,
        }),
        x.deep_view().capabilities_available.0 == x.capabilities_available.0,
        x.deep_view().capabilities_enabled.0 == x.capabilities_enabled.0,
        x.deep_view().management_addresses.len() == x.management_addresses@.len(),
        forall|i: int|
            0 <= i < x.management_addresses@.len() ==> x.deep_view().management_addresses[i]
                == x.management_addresses@[i].deep_view(),
        x.deep_view().med == x.med.deep_view(),
{
}

/// The value of a `MedInventory` says what its fields hold.
pub proof fn inventories_have_their_fields(x: MedInventory)
    ensures
        x.deep_view().hardware_revision == (match x.hardware_revision {
            Some(s) => Some(s@),
            None => None,
        }),
        x.deep_view().firmware_revision == (match x.firmware_revision {
            Some(s) => Some(s@),
            None => None,
        }),
        x.deep_view().software_revision == (match x.software_revision {
            Some(s) => Some(s@),
            None => None,
        }),
        x.deep_view().serial_number == (match x.serial_number {
            Some(s) => Some(s@),
            None => None,
        }),
        x.deep_view().manufacturer == (match x.manufacturer {
            Some(s) => Some(s@),
            None => None,
        }),
        x.deep_view().model == (match x.model {
            Some(s) => Some(s@),
            None => None,
        }),
        x.deep_view().asset_id == (match x.asset_id {
            Some(s) => Some(s@),
            None => None,
        }),
{
}

/// The value of a `ManagementAddress` says what its fields hold.
pub proof fn addresses_have_their_fields(x: ManagementAddress)
    ensures
        x.deep_view().family == x.family,
        x.deep_view().octets == x.octets@,
        x.deep_view().interface_index == x.interface_index,
{
}

/// Each capability is a bit of its own, in the order of IEEE 802.1AB.
pub proof fn capabilities_are_these_bits()
    ensures
        Capabilities::OTHER == 0x1,
        Capabilities::REPEATER == 0x2,
        Capabilities::BRIDGE == 0x4,
        Capabilities::WLAN_ACCESS_POINT == 0x8,
        Capabilities::ROUTER == 0x10,
        Capabilities::TELEPHONE == 0x20,
        Capabilities::DOCSIS_CABLE_DEVICE == 0x40,
        Capabilities::STATION_ONLY == 0x80,
        Capabilities::CVLAN_COMPONENT == 0x100,
        Capabilities::SVLAN_COMPONENT == 0x200,
        Capabilities::TWO_PORT_MAC_RELAY == 0x400,
{
}

} // verus!
