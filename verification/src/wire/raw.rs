//! The C structures that lldpd 1.0.22 puts on the wire (`lldpd-structs.h`),
//! field for field.
//!
//! Each structure names its fields in the order of the C structure. Its bytes
//! follow the layout rule of [`super::layout`] with the sizes and alignments
//! of the machine that runs the code, which is the machine lldpd runs on.
//!
//! A pointer is a plain `usize` here: what it once pointed to is out of reach,
//! and all that matters is whether it is zero (nothing follows) or not (a
//! chunk follows, see [`super::cursor`]).
//!
//! The fields are those of an lldpd built with dot1, dot3, LLDP-MED, CDP and
//! FDP, and without custom TLVs.

use vstd::prelude::*;

use super::layout::{Fields, Record};

verus! {

/// `LLDP_MED_APPTYPE_LAST`: how many policies a port carries.
pub const MED_APPTYPE_LAST: usize = 8;

/// `LLDP_MED_LOCFORMAT_LAST`: how many locations a port carries.
pub const MED_LOCFORMAT_LAST: usize = 3;

/// What a field takes at most, for each kind of number.
proof fn lemma_rooms()
    ensures
        <u8 as Fields>::room() == 72,
        <u16 as Fields>::room() == 72,
        <u32 as Fields>::room() == 72,
        <u64 as Fields>::room() == 72,
        <usize as Fields>::room() == 72,
        <i32 as Fields>::room() == 72,
        <isize as Fields>::room() == 72,
        <(usize, usize) as Fields>::room() == 144,
{
}

// An array is laid out as the structure that has its elements for fields.
impl Record for [u8; 16] {
    type Fs =
        ((u8, (u8, (u8, (u8, (u8, u8))))),
        ((u8, (u8, (u8, (u8, (u8, u8))))),
        (u8, (u8, (u8, u8)))));

    open spec fn fields(self) -> Self::Fs {
        ((self[0], (self[1], (self[2], (self[3], (self[4], self[5]))))),
        ((self[6], (self[7], (self[8], (self[9], (self[10], self[11]))))),
        (self[12], (self[13], (self[14], self[15])))))
    }

    open spec fn of_fields(f: Self::Fs) -> Self {
        let (g0, (g1, g2)) = f;
        let (a0, (a1, (a2, (a3, (a4, a5))))) = g0;
        let (a6, (a7, (a8, (a9, (a10, a11))))) = g1;
        let (a12, (a13, (a14, a15))) = g2;
        [a0, a1, a2, a3, a4, a5, a6, a7, a8, a9, a10, a11, a12, a13, a14, a15]
    }

    proof fn lemma_fields(self) {
        lemma_rooms();
        assert(Self::of_fields(self.fields()) =~= self);
    }

    fn to_fields(&self) -> Self::Fs {
        ((self[0], (self[1], (self[2], (self[3], (self[4], self[5]))))),
        ((self[6], (self[7], (self[8], (self[9], (self[10], self[11]))))),
        (self[12], (self[13], (self[14], self[15])))))
    }

    fn from_fields(f: Self::Fs) -> Self {
        let (g0, (g1, g2)) = f;
        let (a0, (a1, (a2, (a3, (a4, a5))))) = g0;
        let (a6, (a7, (a8, (a9, (a10, a11))))) = g1;
        let (a12, (a13, (a14, a15))) = g2;
        [a0, a1, a2, a3, a4, a5, a6, a7, a8, a9, a10, a11, a12, a13, a14, a15]
    }
}

impl Record for [u8; 6] {
    type Fs = (u8, (u8, (u8, (u8, (u8, u8)))));

    open spec fn fields(self) -> Self::Fs {
        (self[0], (self[1], (self[2], (self[3], (self[4], self[5])))))
    }

    open spec fn of_fields(f: Self::Fs) -> Self {
        let (a0, (a1, (a2, (a3, (a4, a5))))) = f;
        [a0, a1, a2, a3, a4, a5]
    }

    proof fn lemma_fields(self) {
        lemma_rooms();
        assert(Self::of_fields(self.fields()) =~= self);
    }

    fn to_fields(&self) -> Self::Fs {
        (self[0], (self[1], (self[2], (self[3], (self[4], self[5])))))
    }

    fn from_fields(f: Self::Fs) -> Self {
        let (a0, (a1, (a2, (a3, (a4, a5))))) = f;
        [a0, a1, a2, a3, a4, a5]
    }
}

/// `struct lldpd_mgmt` (a management address, member of a chassis).
#[derive(Clone, Copy, Debug, Default)]
pub struct RawMgmt {
    pub tqe_next: usize,
    pub tqe_prev: usize,
    pub m_family: i32,
    pub m_addr: [u8; 16],
    pub m_addrsize: usize,
    pub m_iface: u32,
}

impl Record for RawMgmt {
    type Fs = (usize, (usize, (i32, ([u8; 16], (usize, u32)))));

    open spec fn fields(self) -> Self::Fs {
        (self.tqe_next, (self.tqe_prev, (self.m_family, (self.m_addr, (self.m_addrsize,
            self.m_iface)))))
    }

    open spec fn of_fields(f: Self::Fs) -> Self {
        let (tqe_next, (tqe_prev, (m_family, (m_addr, (m_addrsize, m_iface))))) = f;
        RawMgmt { tqe_next, tqe_prev, m_family, m_addr, m_addrsize, m_iface }
    }

    proof fn lemma_fields(self) {
        lemma_rooms();
        assert(<[u8; 16] as Fields>::room() <= 0x10_0000);
    }

    fn to_fields(&self) -> Self::Fs {
        (self.tqe_next, (self.tqe_prev, (self.m_family, (self.m_addr, (self.m_addrsize,
            self.m_iface)))))
    }

    fn from_fields(f: Self::Fs) -> Self {
        let (tqe_next, (tqe_prev, (m_family, (m_addr, (m_addrsize, m_iface))))) = f;
        RawMgmt { tqe_next, tqe_prev, m_family, m_addr, m_addrsize, m_iface }
    }
}

/// `struct lldpd_vlan` (`ENABLE_DOT1`).
#[derive(Clone, Copy, Debug, Default)]
pub struct RawVlan {
    pub tqe_next: usize,
    pub tqe_prev: usize,
    pub v_name: usize,
    pub v_vid: u16,
}

impl Record for RawVlan {
    type Fs = (usize, (usize, (usize, u16)));

    open spec fn fields(self) -> Self::Fs {
        (self.tqe_next, (self.tqe_prev, (self.v_name, self.v_vid)))
    }

    open spec fn of_fields(f: Self::Fs) -> Self {
        let (tqe_next, (tqe_prev, (v_name, v_vid))) = f;
        RawVlan { tqe_next, tqe_prev, v_name, v_vid }
    }

    proof fn lemma_fields(self) {
        lemma_rooms();
    }

    fn to_fields(&self) -> Self::Fs {
        (self.tqe_next, (self.tqe_prev, (self.v_name, self.v_vid)))
    }

    fn from_fields(f: Self::Fs) -> Self {
        let (tqe_next, (tqe_prev, (v_name, v_vid))) = f;
        RawVlan { tqe_next, tqe_prev, v_name, v_vid }
    }
}

/// `struct lldpd_ppvid` (`ENABLE_DOT1`).
#[derive(Clone, Copy, Debug, Default)]
pub struct RawPpvid {
    pub tqe_next: usize,
    pub tqe_prev: usize,
    pub p_cap_status: u8,
    pub p_ppvid: u16,
}

impl Record for RawPpvid {
    type Fs = (usize, (usize, (u8, u16)));

    open spec fn fields(self) -> Self::Fs {
        (self.tqe_next, (self.tqe_prev, (self.p_cap_status, self.p_ppvid)))
    }

    open spec fn of_fields(f: Self::Fs) -> Self {
        let (tqe_next, (tqe_prev, (p_cap_status, p_ppvid))) = f;
        RawPpvid { tqe_next, tqe_prev, p_cap_status, p_ppvid }
    }

    proof fn lemma_fields(self) {
        lemma_rooms();
    }

    fn to_fields(&self) -> Self::Fs {
        (self.tqe_next, (self.tqe_prev, (self.p_cap_status, self.p_ppvid)))
    }

    fn from_fields(f: Self::Fs) -> Self {
        let (tqe_next, (tqe_prev, (p_cap_status, p_ppvid))) = f;
        RawPpvid { tqe_next, tqe_prev, p_cap_status, p_ppvid }
    }
}

/// `struct lldpd_pi` (`ENABLE_DOT1`).
#[derive(Clone, Copy, Debug, Default)]
pub struct RawPi {
    pub tqe_next: usize,
    pub tqe_prev: usize,
    pub p_pi: usize,
    pub p_pi_len: i32,
}

impl Record for RawPi {
    type Fs = (usize, (usize, (usize, i32)));

    open spec fn fields(self) -> Self::Fs {
        (self.tqe_next, (self.tqe_prev, (self.p_pi, self.p_pi_len)))
    }

    open spec fn of_fields(f: Self::Fs) -> Self {
        let (tqe_next, (tqe_prev, (p_pi, p_pi_len))) = f;
        RawPi { tqe_next, tqe_prev, p_pi, p_pi_len }
    }

    proof fn lemma_fields(self) {
        lemma_rooms();
    }

    fn to_fields(&self) -> Self::Fs {
        (self.tqe_next, (self.tqe_prev, (self.p_pi, self.p_pi_len)))
    }

    fn from_fields(f: Self::Fs) -> Self {
        let (tqe_next, (tqe_prev, (p_pi, p_pi_len))) = f;
        RawPi { tqe_next, tqe_prev, p_pi, p_pi_len }
    }
}

/// `struct lldpd_med_policy` (`ENABLE_LLDPMED`). Plain data, never itself
/// carries a further wire chunk.
#[derive(Clone, Copy, Debug, Default)]
pub struct RawMedPolicy {
    pub index: u8,
    /// C field name is `type`, a reserved word in Rust
    pub kind: u8,
    pub unknown: u8,
    pub tagged: u8,
    pub vid: u16,
    pub priority: u8,
    pub dscp: u8,
}

impl Record for RawMedPolicy {
    type Fs =
        ((u8, (u8, (u8, (u8, (u16, u8))))),
        u8);

    open spec fn fields(self) -> Self::Fs {
        ((self.index, (self.kind, (self.unknown, (self.tagged, (self.vid,
            self.priority))))),
        self.dscp)
    }

    open spec fn of_fields(f: Self::Fs) -> Self {
        let (g0, g1) = f;
        let (index, (kind, (unknown, (tagged, (vid, priority))))) = g0;
        let dscp = g1;
        RawMedPolicy { index, kind, unknown, tagged, vid, priority, dscp }
    }

    proof fn lemma_fields(self) {
        lemma_rooms();
    }

    fn to_fields(&self) -> Self::Fs {
        ((self.index, (self.kind, (self.unknown, (self.tagged, (self.vid,
            self.priority))))),
        self.dscp)
    }

    fn from_fields(f: Self::Fs) -> Self {
        let (g0, g1) = f;
        let (index, (kind, (unknown, (tagged, (vid, priority))))) = g0;
        let dscp = g1;
        RawMedPolicy { index, kind, unknown, tagged, vid, priority, dscp }
    }
}

impl Record for [RawMedPolicy; MED_APPTYPE_LAST] {
    type Fs =
        ((RawMedPolicy, (RawMedPolicy, (RawMedPolicy, (RawMedPolicy, (RawMedPolicy,
            RawMedPolicy))))),
        (RawMedPolicy, RawMedPolicy));

    open spec fn fields(self) -> Self::Fs {
        ((self[0], (self[1], (self[2], (self[3], (self[4], self[5]))))),
        (self[6], self[7]))
    }

    open spec fn of_fields(f: Self::Fs) -> Self {
        let (g0, g1) = f;
        let (a0, (a1, (a2, (a3, (a4, a5))))) = g0;
        let (a6, a7) = g1;
        [a0, a1, a2, a3, a4, a5, a6, a7]
    }

    proof fn lemma_fields(self) {
        lemma_rooms();
        assert(<RawMedPolicy as Fields>::room() <= 0x10_0000);
        assert(Self::of_fields(self.fields()) =~= self);
    }

    fn to_fields(&self) -> Self::Fs {
        ((self[0], (self[1], (self[2], (self[3], (self[4], self[5]))))),
        (self[6], self[7]))
    }

    fn from_fields(f: Self::Fs) -> Self {
        let (g0, g1) = f;
        let (a0, (a1, (a2, (a3, (a4, a5))))) = g0;
        let (a6, a7) = g1;
        [a0, a1, a2, a3, a4, a5, a6, a7]
    }
}

/// `struct lldpd_med_loc` (`ENABLE_LLDPMED`).
#[derive(Clone, Copy, Debug, Default)]
pub struct RawMedLoc {
    pub index: u8,
    pub format: u8,
    pub data: usize,
    pub data_len: i32,
}

impl Record for RawMedLoc {
    type Fs = (u8, (u8, (usize, i32)));

    open spec fn fields(self) -> Self::Fs {
        (self.index, (self.format, (self.data, self.data_len)))
    }

    open spec fn of_fields(f: Self::Fs) -> Self {
        let (index, (format, (data, data_len))) = f;
        RawMedLoc { index, format, data, data_len }
    }

    proof fn lemma_fields(self) {
        lemma_rooms();
    }

    fn to_fields(&self) -> Self::Fs {
        (self.index, (self.format, (self.data, self.data_len)))
    }

    fn from_fields(f: Self::Fs) -> Self {
        let (index, (format, (data, data_len))) = f;
        RawMedLoc { index, format, data, data_len }
    }
}

impl Record for [RawMedLoc; MED_LOCFORMAT_LAST] {
    type Fs = (RawMedLoc, (RawMedLoc, RawMedLoc));

    open spec fn fields(self) -> Self::Fs {
        (self[0], (self[1], self[2]))
    }

    open spec fn of_fields(f: Self::Fs) -> Self {
        let (a0, (a1, a2)) = f;
        [a0, a1, a2]
    }

    proof fn lemma_fields(self) {
        lemma_rooms();
        assert(<RawMedLoc as Fields>::room() <= 0x10_0000);
        assert(Self::of_fields(self.fields()) =~= self);
    }

    fn to_fields(&self) -> Self::Fs {
        (self[0], (self[1], self[2]))
    }

    fn from_fields(f: Self::Fs) -> Self {
        let (a0, (a1, a2)) = f;
        [a0, a1, a2]
    }
}

/// `struct lldpd_med_power` (`ENABLE_LLDPMED`). Plain data.
#[derive(Clone, Copy, Debug, Default)]
pub struct RawMedPower {
    pub devicetype: u8,
    pub source: u8,
    pub priority: u8,
    pub val: u16,
}

impl Record for RawMedPower {
    type Fs = (u8, (u8, (u8, u16)));

    open spec fn fields(self) -> Self::Fs {
        (self.devicetype, (self.source, (self.priority, self.val)))
    }

    open spec fn of_fields(f: Self::Fs) -> Self {
        let (devicetype, (source, (priority, val))) = f;
        RawMedPower { devicetype, source, priority, val }
    }

    proof fn lemma_fields(self) {
        lemma_rooms();
    }

    fn to_fields(&self) -> Self::Fs {
        (self.devicetype, (self.source, (self.priority, self.val)))
    }

    fn from_fields(f: Self::Fs) -> Self {
        let (devicetype, (source, (priority, val))) = f;
        RawMedPower { devicetype, source, priority, val }
    }
}

/// `struct lldpd_dot3_macphy` (`ENABLE_DOT3`). Plain data.
#[derive(Clone, Copy, Debug, Default)]
pub struct RawDot3MacPhy {
    pub autoneg_support: u8,
    pub autoneg_enabled: u8,
    pub autoneg_advertised: u16,
    pub mau_type: u16,
}

impl Record for RawDot3MacPhy {
    type Fs = (u8, (u8, (u16, u16)));

    open spec fn fields(self) -> Self::Fs {
        (self.autoneg_support, (self.autoneg_enabled, (self.autoneg_advertised,
            self.mau_type)))
    }

    open spec fn of_fields(f: Self::Fs) -> Self {
        let (autoneg_support, (autoneg_enabled, (autoneg_advertised, mau_type))) = f;
        RawDot3MacPhy { autoneg_support, autoneg_enabled, autoneg_advertised, mau_type }
    }

    proof fn lemma_fields(self) {
        lemma_rooms();
    }

    fn to_fields(&self) -> Self::Fs {
        (self.autoneg_support, (self.autoneg_enabled, (self.autoneg_advertised,
            self.mau_type)))
    }

    fn from_fields(f: Self::Fs) -> Self {
        let (autoneg_support, (autoneg_enabled, (autoneg_advertised, mau_type))) = f;
        RawDot3MacPhy { autoneg_support, autoneg_enabled, autoneg_advertised, mau_type }
    }
}

/// `struct lldpd_dot3_power` (`ENABLE_DOT3`). Plain data.
#[derive(Clone, Copy, Debug, Default)]
pub struct RawDot3Power {
    pub devicetype: u8,
    pub supported: u8,
    pub enabled: u8,
    pub paircontrol: u8,
    pub pairs: u8,
    pub class: u8,
    pub powertype: u8,
    pub source: u8,
    pub priority: u8,
    pub requested: u16,
    pub allocated: u16,
    pub pd_4pid: u8,
    pub requested_a: u16,
    pub requested_b: u16,
    pub allocated_a: u16,
    pub allocated_b: u16,
    pub pse_status: u16,
    pub pd_status: u8,
    pub pse_pairs_ext: u8,
    pub class_a: u8,
    pub class_b: u8,
    pub class_ext: u8,
    pub type_ext: u8,
    pub pd_load: u8,
    pub pse_max: u16,
}

impl Record for RawDot3Power {
    type Fs =
        ((u8, (u8, (u8, (u8, (u8, u8))))),
        ((u8, (u8, (u8, (u16, (u16, u8))))),
        ((u16, (u16, (u16, (u16, (u16, u8))))),
        ((u8, (u8, (u8, (u8, (u8, u8))))),
        u16))));

    open spec fn fields(self) -> Self::Fs {
        ((self.devicetype, (self.supported, (self.enabled, (self.paircontrol, (self.pairs,
            self.class))))),
        ((self.powertype, (self.source, (self.priority, (self.requested, (self.allocated,
            self.pd_4pid))))),
        ((self.requested_a, (self.requested_b, (self.allocated_a, (self.allocated_b,
            (self.pse_status, self.pd_status))))),
        ((self.pse_pairs_ext, (self.class_a, (self.class_b, (self.class_ext, (self.type_ext,
            self.pd_load))))),
        self.pse_max))))
    }

    open spec fn of_fields(f: Self::Fs) -> Self {
        let (g0, (g1, (g2, (g3, g4)))) = f;
        let (devicetype, (supported, (enabled, (paircontrol, (pairs, class))))) = g0;
        let (powertype, (source, (priority, (requested, (allocated, pd_4pid))))) = g1;
        let (requested_a, (requested_b, (allocated_a, (allocated_b, (pse_status,
            pd_status))))) = g2;
        let (pse_pairs_ext, (class_a, (class_b, (class_ext, (type_ext, pd_load))))) = g3;
        let pse_max = g4;
        RawDot3Power {
            devicetype, supported, enabled, paircontrol, pairs, class, powertype, source,
            priority, requested, allocated, pd_4pid, requested_a, requested_b, allocated_a,
            allocated_b, pse_status, pd_status, pse_pairs_ext, class_a, class_b, class_ext,
            type_ext, pd_load, pse_max,
        }
    }

    proof fn lemma_fields(self) {
        lemma_rooms();
    }

    fn to_fields(&self) -> Self::Fs {
        ((self.devicetype, (self.supported, (self.enabled, (self.paircontrol, (self.pairs,
            self.class))))),
        ((self.powertype, (self.source, (self.priority, (self.requested, (self.allocated,
            self.pd_4pid))))),
        ((self.requested_a, (self.requested_b, (self.allocated_a, (self.allocated_b,
            (self.pse_status, self.pd_status))))),
        ((self.pse_pairs_ext, (self.class_a, (self.class_b, (self.class_ext, (self.type_ext,
            self.pd_load))))),
        self.pse_max))))
    }

    fn from_fields(f: Self::Fs) -> Self {
        let (g0, (g1, (g2, (g3, g4)))) = f;
        let (devicetype, (supported, (enabled, (paircontrol, (pairs, class))))) = g0;
        let (powertype, (source, (priority, (requested, (allocated, pd_4pid))))) = g1;
        let (requested_a, (requested_b, (allocated_a, (allocated_b, (pse_status,
            pd_status))))) = g2;
        let (pse_pairs_ext, (class_a, (class_b, (class_ext, (type_ext, pd_load))))) = g3;
        let pse_max = g4;
        RawDot3Power {
            devicetype, supported, enabled, paircontrol, pairs, class, powertype, source,
            priority, requested, allocated, pd_4pid, requested_a, requested_b, allocated_a,
            allocated_b, pse_status, pd_status, pse_pairs_ext, class_a, class_b, class_ext,
            type_ext, pd_load, pse_max,
        }
    }
}

/// `struct cdpv2_power` (`ENABLE_CDP || ENABLE_FDP`). Plain data.
#[derive(Clone, Copy, Debug, Default)]
pub struct RawCdpPower {
    pub request_id: u16,
    pub management_id: u16,
}

impl Record for RawCdpPower {
    type Fs = (u16, u16);

    open spec fn fields(self) -> Self::Fs {
        (self.request_id, self.management_id)
    }

    open spec fn of_fields(f: Self::Fs) -> Self {
        let (request_id, management_id) = f;
        RawCdpPower { request_id, management_id }
    }

    proof fn lemma_fields(self) {
        lemma_rooms();
    }

    fn to_fields(&self) -> Self::Fs {
        (self.request_id, self.management_id)
    }

    fn from_fields(f: Self::Fs) -> Self {
        let (request_id, management_id) = f;
        RawCdpPower { request_id, management_id }
    }
}

/// `struct lldpd_chassis`.
#[derive(Clone, Copy, Debug, Default)]
pub struct RawChassis {
    pub tqe_next: usize,
    pub tqe_prev: usize,
    pub c_refcount: u16,
    pub c_index: u16,
    pub c_protocol: u8,
    pub c_id_subtype: u8,
    pub c_id: usize,
    pub c_id_len: i32,
    pub c_name: usize,
    pub c_descr: usize,
    pub c_cap_available: u16,
    pub c_cap_enabled: u16,
    pub c_mgmt_tqh_first: usize,
    pub c_mgmt_tqh_last: usize,
    pub c_med_cap_available: u16,
    pub c_med_type: u8,
    pub c_med_hw: usize,
    pub c_med_fw: usize,
    pub c_med_sw: usize,
    pub c_med_sn: usize,
    pub c_med_manuf: usize,
    pub c_med_model: usize,
    pub c_med_asset: usize,
}

impl Record for RawChassis {
    type Fs =
        ((usize, (usize, (u16, (u16, (u8, u8))))),
        ((usize, (i32, (usize, (usize, (u16, u16))))),
        ((usize, (usize, (u16, (u8, (usize, usize))))),
        (usize, (usize, (usize, (usize, usize)))))));

    open spec fn fields(self) -> Self::Fs {
        ((self.tqe_next, (self.tqe_prev, (self.c_refcount, (self.c_index, (self.c_protocol,
            self.c_id_subtype))))),
        ((self.c_id, (self.c_id_len, (self.c_name, (self.c_descr, (self.c_cap_available,
            self.c_cap_enabled))))),
        ((self.c_mgmt_tqh_first, (self.c_mgmt_tqh_last, (self.c_med_cap_available,
            (self.c_med_type, (self.c_med_hw, self.c_med_fw))))),
        (self.c_med_sw, (self.c_med_sn, (self.c_med_manuf, (self.c_med_model,
            self.c_med_asset)))))))
    }

    open spec fn of_fields(f: Self::Fs) -> Self {
        let (g0, (g1, (g2, g3))) = f;
        let (tqe_next, (tqe_prev, (c_refcount, (c_index, (c_protocol, c_id_subtype))))) =
            g0;
        let (c_id, (c_id_len, (c_name, (c_descr, (c_cap_available, c_cap_enabled))))) = g1;
        let (c_mgmt_tqh_first, (c_mgmt_tqh_last, (c_med_cap_available, (c_med_type,
            (c_med_hw, c_med_fw))))) = g2;
        let (c_med_sw, (c_med_sn, (c_med_manuf, (c_med_model, c_med_asset)))) = g3;
        RawChassis {
            tqe_next, tqe_prev, c_refcount, c_index, c_protocol, c_id_subtype, c_id,
            c_id_len, c_name, c_descr, c_cap_available, c_cap_enabled, c_mgmt_tqh_first,
            c_mgmt_tqh_last, c_med_cap_available, c_med_type, c_med_hw, c_med_fw, c_med_sw,
            c_med_sn, c_med_manuf, c_med_model, c_med_asset,
        }
    }

    proof fn lemma_fields(self) {
        lemma_rooms();
    }

    fn to_fields(&self) -> Self::Fs {
        ((self.tqe_next, (self.tqe_prev, (self.c_refcount, (self.c_index, (self.c_protocol,
            self.c_id_subtype))))),
        ((self.c_id, (self.c_id_len, (self.c_name, (self.c_descr, (self.c_cap_available,
            self.c_cap_enabled))))),
        ((self.c_mgmt_tqh_first, (self.c_mgmt_tqh_last, (self.c_med_cap_available,
            (self.c_med_type, (self.c_med_hw, self.c_med_fw))))),
        (self.c_med_sw, (self.c_med_sn, (self.c_med_manuf, (self.c_med_model,
            self.c_med_asset)))))))
    }

    fn from_fields(f: Self::Fs) -> Self {
        let (g0, (g1, (g2, g3))) = f;
        let (tqe_next, (tqe_prev, (c_refcount, (c_index, (c_protocol, c_id_subtype))))) =
            g0;
        let (c_id, (c_id_len, (c_name, (c_descr, (c_cap_available, c_cap_enabled))))) = g1;
        let (c_mgmt_tqh_first, (c_mgmt_tqh_last, (c_med_cap_available, (c_med_type,
            (c_med_hw, c_med_fw))))) = g2;
        let (c_med_sw, (c_med_sn, (c_med_manuf, (c_med_model, c_med_asset)))) = g3;
        RawChassis {
            tqe_next, tqe_prev, c_refcount, c_index, c_protocol, c_id_subtype, c_id,
            c_id_len, c_name, c_descr, c_cap_available, c_cap_enabled, c_mgmt_tqh_first,
            c_mgmt_tqh_last, c_med_cap_available, c_med_type, c_med_hw, c_med_fw, c_med_sw,
            c_med_sn, c_med_manuf, c_med_model, c_med_asset,
        }
    }
}

/// `struct lldpd_port`.
#[derive(Clone, Copy, Debug, Default)]
pub struct RawPort {
    pub tqe_next: usize,
    pub tqe_prev: usize,
    pub p_chassis: usize,
    pub p_lastchange: isize,
    pub p_lastupdate: isize,
    pub p_lastremove: isize,
    pub p_lastframe: usize,
    pub p_protocol: u8,
    /// Packs `p_hidden_in:1, p_hidden_out:1, p_disable_rx:1, p_disable_tx:1`;
    /// not part of the model.
    pub p_bitfield_flags: u8,
    pub p_hardware_flags: i32,
    pub p_id_subtype: u8,
    pub p_id: usize,
    pub p_id_len: i32,
    pub p_descr: usize,
    pub p_descr_force: i32,
    pub p_mfs: u16,
    pub p_ttl: u16,
    pub p_vlan_tx_tag: i32,
    pub p_vlan_tx_enabled: i32,
    pub p_vlan_advertise_pattern: usize,
    pub p_aggregid: u32,
    pub p_macphy: RawDot3MacPhy,
    pub p_power: RawDot3Power,
    pub p_med_cap_enabled: u16,
    pub p_med_policy: [RawMedPolicy; MED_APPTYPE_LAST],
    pub p_med_location: [RawMedLoc; MED_LOCFORMAT_LAST],
    pub p_med_power: RawMedPower,
    pub p_cdp_power: RawCdpPower,
    pub p_pvid: u16,
    pub p_vlans_tqh_first: usize,
    pub p_vlans_tqh_last: usize,
    pub p_ppvids_tqh_first: usize,
    pub p_ppvids_tqh_last: usize,
    pub p_pids_tqh_first: usize,
    pub p_pids_tqh_last: usize,
}

impl Record for RawPort {
    type Fs =
        ((usize, (usize, (usize, (isize, (isize, isize))))),
        ((usize, (u8, (u8, (i32, (u8, usize))))),
        ((i32, (usize, (i32, (u16, (u16, i32))))),
        ((i32, (usize, (u32, (RawDot3MacPhy, (RawDot3Power, u16))))),
        (([RawMedPolicy; MED_APPTYPE_LAST], ([RawMedLoc; MED_LOCFORMAT_LAST], (RawMedPower,
            (RawCdpPower, (u16, usize))))),
        (usize, (usize, (usize, (usize, usize)))))))));

    open spec fn fields(self) -> Self::Fs {
        ((self.tqe_next, (self.tqe_prev, (self.p_chassis, (self.p_lastchange,
            (self.p_lastupdate, self.p_lastremove))))),
        ((self.p_lastframe, (self.p_protocol, (self.p_bitfield_flags,
            (self.p_hardware_flags, (self.p_id_subtype, self.p_id))))),
        ((self.p_id_len, (self.p_descr, (self.p_descr_force, (self.p_mfs, (self.p_ttl,
            self.p_vlan_tx_tag))))),
        ((self.p_vlan_tx_enabled, (self.p_vlan_advertise_pattern, (self.p_aggregid,
            (self.p_macphy, (self.p_power, self.p_med_cap_enabled))))),
        ((self.p_med_policy, (self.p_med_location, (self.p_med_power, (self.p_cdp_power,
            (self.p_pvid, self.p_vlans_tqh_first))))),
        (self.p_vlans_tqh_last, (self.p_ppvids_tqh_first, (self.p_ppvids_tqh_last,
            (self.p_pids_tqh_first, self.p_pids_tqh_last)))))))))
    }

    open spec fn of_fields(f: Self::Fs) -> Self {
        let (g0, (g1, (g2, (g3, (g4, g5))))) = f;
        let (tqe_next, (tqe_prev, (p_chassis, (p_lastchange, (p_lastupdate,
            p_lastremove))))) = g0;
        let (p_lastframe, (p_protocol, (p_bitfield_flags, (p_hardware_flags, (p_id_subtype,
            p_id))))) = g1;
        let (p_id_len, (p_descr, (p_descr_force, (p_mfs, (p_ttl, p_vlan_tx_tag))))) = g2;
        let (p_vlan_tx_enabled, (p_vlan_advertise_pattern, (p_aggregid, (p_macphy, (p_power,
            p_med_cap_enabled))))) = g3;
        let (p_med_policy, (p_med_location, (p_med_power, (p_cdp_power, (p_pvid,
            p_vlans_tqh_first))))) = g4;
        let (p_vlans_tqh_last, (p_ppvids_tqh_first, (p_ppvids_tqh_last, (p_pids_tqh_first,
            p_pids_tqh_last)))) = g5;
        RawPort {
            tqe_next, tqe_prev, p_chassis, p_lastchange, p_lastupdate, p_lastremove,
            p_lastframe, p_protocol, p_bitfield_flags, p_hardware_flags, p_id_subtype, p_id,
            p_id_len, p_descr, p_descr_force, p_mfs, p_ttl, p_vlan_tx_tag,
            p_vlan_tx_enabled, p_vlan_advertise_pattern, p_aggregid, p_macphy, p_power,
            p_med_cap_enabled, p_med_policy, p_med_location, p_med_power, p_cdp_power,
            p_pvid, p_vlans_tqh_first, p_vlans_tqh_last, p_ppvids_tqh_first,
            p_ppvids_tqh_last, p_pids_tqh_first, p_pids_tqh_last,
        }
    }

    proof fn lemma_fields(self) {
        lemma_rooms();
        assert(<RawDot3MacPhy as Fields>::room() <= 0x10_0000);
        assert(<RawDot3Power as Fields>::room() <= 0x10_0000);
        assert(<[RawMedPolicy; MED_APPTYPE_LAST] as Fields>::room() <= 0x10_0000);
        assert(<[RawMedLoc; MED_LOCFORMAT_LAST] as Fields>::room() <= 0x10_0000);
        assert(<RawMedPower as Fields>::room() <= 0x10_0000);
        assert(<RawCdpPower as Fields>::room() <= 0x10_0000);
    }

    fn to_fields(&self) -> Self::Fs {
        ((self.tqe_next, (self.tqe_prev, (self.p_chassis, (self.p_lastchange,
            (self.p_lastupdate, self.p_lastremove))))),
        ((self.p_lastframe, (self.p_protocol, (self.p_bitfield_flags,
            (self.p_hardware_flags, (self.p_id_subtype, self.p_id))))),
        ((self.p_id_len, (self.p_descr, (self.p_descr_force, (self.p_mfs, (self.p_ttl,
            self.p_vlan_tx_tag))))),
        ((self.p_vlan_tx_enabled, (self.p_vlan_advertise_pattern, (self.p_aggregid,
            (self.p_macphy, (self.p_power, self.p_med_cap_enabled))))),
        ((self.p_med_policy, (self.p_med_location, (self.p_med_power, (self.p_cdp_power,
            (self.p_pvid, self.p_vlans_tqh_first))))),
        (self.p_vlans_tqh_last, (self.p_ppvids_tqh_first, (self.p_ppvids_tqh_last,
            (self.p_pids_tqh_first, self.p_pids_tqh_last)))))))))
    }

    fn from_fields(f: Self::Fs) -> Self {
        let (g0, (g1, (g2, (g3, (g4, g5))))) = f;
        let (tqe_next, (tqe_prev, (p_chassis, (p_lastchange, (p_lastupdate,
            p_lastremove))))) = g0;
        let (p_lastframe, (p_protocol, (p_bitfield_flags, (p_hardware_flags, (p_id_subtype,
            p_id))))) = g1;
        let (p_id_len, (p_descr, (p_descr_force, (p_mfs, (p_ttl, p_vlan_tx_tag))))) = g2;
        let (p_vlan_tx_enabled, (p_vlan_advertise_pattern, (p_aggregid, (p_macphy, (p_power,
            p_med_cap_enabled))))) = g3;
        let (p_med_policy, (p_med_location, (p_med_power, (p_cdp_power, (p_pvid,
            p_vlans_tqh_first))))) = g4;
        let (p_vlans_tqh_last, (p_ppvids_tqh_first, (p_ppvids_tqh_last, (p_pids_tqh_first,
            p_pids_tqh_last)))) = g5;
        RawPort {
            tqe_next, tqe_prev, p_chassis, p_lastchange, p_lastupdate, p_lastremove,
            p_lastframe, p_protocol, p_bitfield_flags, p_hardware_flags, p_id_subtype, p_id,
            p_id_len, p_descr, p_descr_force, p_mfs, p_ttl, p_vlan_tx_tag,
            p_vlan_tx_enabled, p_vlan_advertise_pattern, p_aggregid, p_macphy, p_power,
            p_med_cap_enabled, p_med_policy, p_med_location, p_med_power, p_cdp_power,
            p_pvid, p_vlans_tqh_first, p_vlans_tqh_last, p_ppvids_tqh_first,
            p_ppvids_tqh_last, p_pids_tqh_first, p_pids_tqh_last,
        }
    }
}

/// `struct lldpd_interface`.
#[derive(Clone, Copy, Debug, Default)]
pub struct RawInterface {
    pub next_tqe_next: usize,
    pub next_tqe_prev: usize,
    pub name: usize,
    pub alias: usize,
}

impl Record for RawInterface {
    type Fs = (usize, (usize, (usize, usize)));

    open spec fn fields(self) -> Self::Fs {
        (self.next_tqe_next, (self.next_tqe_prev, (self.name, self.alias)))
    }

    open spec fn of_fields(f: Self::Fs) -> Self {
        let (next_tqe_next, (next_tqe_prev, (name, alias))) = f;
        RawInterface { next_tqe_next, next_tqe_prev, name, alias }
    }

    proof fn lemma_fields(self) {
        lemma_rooms();
    }

    fn to_fields(&self) -> Self::Fs {
        (self.next_tqe_next, (self.next_tqe_prev, (self.name, self.alias)))
    }

    fn from_fields(f: Self::Fs) -> Self {
        let (next_tqe_next, (next_tqe_prev, (name, alias))) = f;
        RawInterface { next_tqe_next, next_tqe_prev, name, alias }
    }
}

/// `TAILQ_HEAD(lldpd_interface_list, lldpd_interface)`: response to `GET_INTERFACES`.
#[derive(Clone, Copy, Debug, Default)]
pub struct RawInterfaceList {
    pub tqh_first: usize,
    pub tqh_last: usize,
}

impl Record for RawInterfaceList {
    type Fs = (usize, usize);

    open spec fn fields(self) -> Self::Fs {
        (self.tqh_first, self.tqh_last)
    }

    open spec fn of_fields(f: Self::Fs) -> Self {
        let (tqh_first, tqh_last) = f;
        RawInterfaceList { tqh_first, tqh_last }
    }

    proof fn lemma_fields(self) {
        lemma_rooms();
    }

    fn to_fields(&self) -> Self::Fs {
        (self.tqh_first, self.tqh_last)
    }

    fn from_fields(f: Self::Fs) -> Self {
        let (tqh_first, tqh_last) = f;
        RawInterfaceList { tqh_first, tqh_last }
    }
}

/// `struct lldpd_hardware`: response to `GET_INTERFACE`.
#[derive(Clone, Copy, Debug, Default)]
pub struct RawHardware {
    pub h_entries_tqe_next: usize,
    pub h_entries_tqe_prev: usize,
    pub h_cfg: usize,
    pub h_recv: usize,
    pub h_sendfd: i32,
    pub h_mangle: i32,
    pub h_ops: usize,
    pub h_data: usize,
    pub h_timer: usize,
    pub h_mtu: i32,
    pub h_flags: i32,
    pub h_ifindex: i32,
    pub h_ifindex_changed: i32,
    /// IFNAMSIZ
    pub h_ifname: [u8; 16],
    pub h_ifalias: usize,
    /// ETHER_ADDR_LEN
    pub h_lladdr: [u8; 6],
    pub h_tx_cnt: u64,
    pub h_rx_cnt: u64,
    pub h_rx_discarded_cnt: u64,
    pub h_rx_unrecognized_cnt: u64,
    pub h_ageout_cnt: u64,
    pub h_insert_cnt: u64,
    pub h_delete_cnt: u64,
    pub h_drop_cnt: u64,
    pub h_lport_previous: usize,
    pub h_lport_previous_len: isize,
    pub h_lchassis_previous_id_subtype: u8,
    pub h_lchassis_previous_id: usize,
    pub h_lchassis_previous_id_len: i32,
    pub h_lport_previous_id_subtype: u8,
    pub h_lport_previous_id: usize,
    pub h_lport_previous_id_len: i32,
    pub h_ifdescr_previous: usize,
    pub h_lport: RawPort,
    pub h_rports_tqh_first: usize,
    pub h_rports_tqh_last: usize,
    pub h_tx_fast: i32,
}

impl Record for RawHardware {
    type Fs =
        ((usize, (usize, (usize, (usize, (i32, i32))))),
        ((usize, (usize, (usize, (i32, (i32, i32))))),
        ((i32, ([u8; 16], (usize, ([u8; 6], (u64, u64))))),
        ((u64, (u64, (u64, (u64, (u64, u64))))),
        ((usize, (isize, (u8, (usize, (i32, u8))))),
        ((usize, (i32, (usize, (RawPort, (usize, usize))))),
        i32))))));

    open spec fn fields(self) -> Self::Fs {
        ((self.h_entries_tqe_next, (self.h_entries_tqe_prev, (self.h_cfg, (self.h_recv,
            (self.h_sendfd, self.h_mangle))))),
        ((self.h_ops, (self.h_data, (self.h_timer, (self.h_mtu, (self.h_flags,
            self.h_ifindex))))),
        ((self.h_ifindex_changed, (self.h_ifname, (self.h_ifalias, (self.h_lladdr,
            (self.h_tx_cnt, self.h_rx_cnt))))),
        ((self.h_rx_discarded_cnt, (self.h_rx_unrecognized_cnt, (self.h_ageout_cnt,
            (self.h_insert_cnt, (self.h_delete_cnt, self.h_drop_cnt))))),
        ((self.h_lport_previous, (self.h_lport_previous_len,
            (self.h_lchassis_previous_id_subtype, (self.h_lchassis_previous_id,
            (self.h_lchassis_previous_id_len, self.h_lport_previous_id_subtype))))),
        ((self.h_lport_previous_id, (self.h_lport_previous_id_len, (self.h_ifdescr_previous,
            (self.h_lport, (self.h_rports_tqh_first, self.h_rports_tqh_last))))),
        self.h_tx_fast))))))
    }

    open spec fn of_fields(f: Self::Fs) -> Self {
        let (g0, (g1, (g2, (g3, (g4, (g5, g6)))))) = f;
        let (h_entries_tqe_next, (h_entries_tqe_prev, (h_cfg, (h_recv, (h_sendfd,
            h_mangle))))) = g0;
        let (h_ops, (h_data, (h_timer, (h_mtu, (h_flags, h_ifindex))))) = g1;
        let (h_ifindex_changed, (h_ifname, (h_ifalias, (h_lladdr, (h_tx_cnt, h_rx_cnt))))) =
            g2;
        let (h_rx_discarded_cnt, (h_rx_unrecognized_cnt, (h_ageout_cnt, (h_insert_cnt,
            (h_delete_cnt, h_drop_cnt))))) = g3;
        let (h_lport_previous, (h_lport_previous_len, (h_lchassis_previous_id_subtype,
            (h_lchassis_previous_id, (h_lchassis_previous_id_len,
            h_lport_previous_id_subtype))))) = g4;
        let (h_lport_previous_id, (h_lport_previous_id_len, (h_ifdescr_previous, (h_lport,
            (h_rports_tqh_first, h_rports_tqh_last))))) = g5;
        let h_tx_fast = g6;
        RawHardware {
            h_entries_tqe_next, h_entries_tqe_prev, h_cfg, h_recv, h_sendfd, h_mangle,
            h_ops, h_data, h_timer, h_mtu, h_flags, h_ifindex, h_ifindex_changed, h_ifname,
            h_ifalias, h_lladdr, h_tx_cnt, h_rx_cnt, h_rx_discarded_cnt,
            h_rx_unrecognized_cnt, h_ageout_cnt, h_insert_cnt, h_delete_cnt, h_drop_cnt,
            h_lport_previous, h_lport_previous_len, h_lchassis_previous_id_subtype,
            h_lchassis_previous_id, h_lchassis_previous_id_len, h_lport_previous_id_subtype,
            h_lport_previous_id, h_lport_previous_id_len, h_ifdescr_previous, h_lport,
            h_rports_tqh_first, h_rports_tqh_last, h_tx_fast,
        }
    }

    proof fn lemma_fields(self) {
        lemma_rooms();
        assert(<[u8; 16] as Fields>::room() <= 0x10_0000);
        assert(<[u8; 6] as Fields>::room() <= 0x10_0000);
        assert(<RawPort as Fields>::room() <= 0x10_0000);
    }

    fn to_fields(&self) -> Self::Fs {
        ((self.h_entries_tqe_next, (self.h_entries_tqe_prev, (self.h_cfg, (self.h_recv,
            (self.h_sendfd, self.h_mangle))))),
        ((self.h_ops, (self.h_data, (self.h_timer, (self.h_mtu, (self.h_flags,
            self.h_ifindex))))),
        ((self.h_ifindex_changed, (self.h_ifname, (self.h_ifalias, (self.h_lladdr,
            (self.h_tx_cnt, self.h_rx_cnt))))),
        ((self.h_rx_discarded_cnt, (self.h_rx_unrecognized_cnt, (self.h_ageout_cnt,
            (self.h_insert_cnt, (self.h_delete_cnt, self.h_drop_cnt))))),
        ((self.h_lport_previous, (self.h_lport_previous_len,
            (self.h_lchassis_previous_id_subtype, (self.h_lchassis_previous_id,
            (self.h_lchassis_previous_id_len, self.h_lport_previous_id_subtype))))),
        ((self.h_lport_previous_id, (self.h_lport_previous_id_len, (self.h_ifdescr_previous,
            (self.h_lport, (self.h_rports_tqh_first, self.h_rports_tqh_last))))),
        self.h_tx_fast))))))
    }

    fn from_fields(f: Self::Fs) -> Self {
        let (g0, (g1, (g2, (g3, (g4, (g5, g6)))))) = f;
        let (h_entries_tqe_next, (h_entries_tqe_prev, (h_cfg, (h_recv, (h_sendfd,
            h_mangle))))) = g0;
        let (h_ops, (h_data, (h_timer, (h_mtu, (h_flags, h_ifindex))))) = g1;
        let (h_ifindex_changed, (h_ifname, (h_ifalias, (h_lladdr, (h_tx_cnt, h_rx_cnt))))) =
            g2;
        let (h_rx_discarded_cnt, (h_rx_unrecognized_cnt, (h_ageout_cnt, (h_insert_cnt,
            (h_delete_cnt, h_drop_cnt))))) = g3;
        let (h_lport_previous, (h_lport_previous_len, (h_lchassis_previous_id_subtype,
            (h_lchassis_previous_id, (h_lchassis_previous_id_len,
            h_lport_previous_id_subtype))))) = g4;
        let (h_lport_previous_id, (h_lport_previous_id_len, (h_ifdescr_previous, (h_lport,
            (h_rports_tqh_first, h_rports_tqh_last))))) = g5;
        let h_tx_fast = g6;
        RawHardware {
            h_entries_tqe_next, h_entries_tqe_prev, h_cfg, h_recv, h_sendfd, h_mangle,
            h_ops, h_data, h_timer, h_mtu, h_flags, h_ifindex, h_ifindex_changed, h_ifname,
            h_ifalias, h_lladdr, h_tx_cnt, h_rx_cnt, h_rx_discarded_cnt,
            h_rx_unrecognized_cnt, h_ageout_cnt, h_insert_cnt, h_delete_cnt, h_drop_cnt,
            h_lport_previous, h_lport_previous_len, h_lchassis_previous_id_subtype,
            h_lchassis_previous_id, h_lchassis_previous_id_len, h_lport_previous_id_subtype,
            h_lport_previous_id, h_lport_previous_id_len, h_ifdescr_previous, h_lport,
            h_rports_tqh_first, h_rports_tqh_last, h_tx_fast,
        }
    }
}

/// `struct lldpd_neighbor_change`: payload of a `NOTIFICATION` message,
/// pushed unprompted once a client has subscribed (`SUBSCRIBE`).
#[derive(Clone, Copy, Debug, Default)]
pub struct RawNeighborChange {
    pub ifname: usize,
    pub ifalias: usize,
    pub state: i32,
    pub neighbor: usize,
}

impl Record for RawNeighborChange {
    type Fs = (usize, (usize, (i32, usize)));

    open spec fn fields(self) -> Self::Fs {
        (self.ifname, (self.ifalias, (self.state, self.neighbor)))
    }

    open spec fn of_fields(f: Self::Fs) -> Self {
        let (ifname, (ifalias, (state, neighbor))) = f;
        RawNeighborChange { ifname, ifalias, state, neighbor }
    }

    proof fn lemma_fields(self) {
        lemma_rooms();
    }

    fn to_fields(&self) -> Self::Fs {
        (self.ifname, (self.ifalias, (self.state, self.neighbor)))
    }

    fn from_fields(f: Self::Fs) -> Self {
        let (ifname, (ifalias, (state, neighbor))) = f;
        RawNeighborChange { ifname, ifalias, state, neighbor }
    }
}

/// `struct lldpd_port_set`: body of a `SET_PORT` request. A zero pointer, a
/// zero `rxtx` and a `vlan_tx_enabled` of -1 each leave the setting as it is.
#[derive(Clone, Copy, Debug, Default)]
pub struct RawPortSet {
    pub ifname: usize,
    pub local_id: usize,
    pub local_descr: usize,
    pub vlan_advertise_pattern: usize,
    pub rxtx: i32,
    pub vlan_tx_tag: i32,
    pub vlan_tx_enabled: i32,
    pub med_policy: usize,
    pub med_location: usize,
    pub med_power: usize,
    pub dot3_power: usize,
}

impl Record for RawPortSet {
    type Fs =
        ((usize, (usize, (usize, (usize, (i32, i32))))),
        (i32, (usize, (usize, (usize, usize)))));

    open spec fn fields(self) -> Self::Fs {
        ((self.ifname, (self.local_id, (self.local_descr, (self.vlan_advertise_pattern,
            (self.rxtx, self.vlan_tx_tag))))),
        (self.vlan_tx_enabled, (self.med_policy, (self.med_location, (self.med_power,
            self.dot3_power)))))
    }

    open spec fn of_fields(f: Self::Fs) -> Self {
        let (g0, g1) = f;
        let (ifname, (local_id, (local_descr, (vlan_advertise_pattern, (rxtx,
            vlan_tx_tag))))) = g0;
        let (vlan_tx_enabled, (med_policy, (med_location, (med_power, dot3_power)))) = g1;
        RawPortSet {
            ifname, local_id, local_descr, vlan_advertise_pattern, rxtx, vlan_tx_tag,
            vlan_tx_enabled, med_policy, med_location, med_power, dot3_power,
        }
    }

    proof fn lemma_fields(self) {
        lemma_rooms();
    }

    fn to_fields(&self) -> Self::Fs {
        ((self.ifname, (self.local_id, (self.local_descr, (self.vlan_advertise_pattern,
            (self.rxtx, self.vlan_tx_tag))))),
        (self.vlan_tx_enabled, (self.med_policy, (self.med_location, (self.med_power,
            self.dot3_power)))))
    }

    fn from_fields(f: Self::Fs) -> Self {
        let (g0, g1) = f;
        let (ifname, (local_id, (local_descr, (vlan_advertise_pattern, (rxtx,
            vlan_tx_tag))))) = g0;
        let (vlan_tx_enabled, (med_policy, (med_location, (med_power, dot3_power)))) = g1;
        RawPortSet {
            ifname, local_id, local_descr, vlan_advertise_pattern, rxtx, vlan_tx_tag,
            vlan_tx_enabled, med_policy, med_location, med_power, dot3_power,
        }
    }
}

} // verus!
