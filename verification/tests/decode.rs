use std::sync::Arc;

use rlldpctl::wire::cursor::{read_chunk_pod, read_opt_cstring, Cursor};
use rlldpctl::wire::pod::Pod;
use rlldpctl::wire::raw::{
    RawChassis, RawHardware, RawInterface, RawInterfaceList, RawMedLoc, RawMgmt,
    RawNeighborChange, RawPi, RawPort, RawPortSet, RawPpvid, RawVlan,
};
use rlldpctl::wire::{
    decode_hardware, decode_interfaces, decode_neighbor_change, encode_interface_name_request,
    encode_set_port_description_request,
};
use rlldpctl::{
    ChassisIdSubtype, Error, Interface, IpAddr, MedInventory, NeighborChangeKind, PortIdSubtype,
};

/// Builds messages chunk by chunk.
#[derive(Default)]
struct Buf(Vec<u8>);

impl Buf {
    fn pad(&mut self) {
        let ptr_size = std::mem::size_of::<usize>();
        let pad = (ptr_size - self.0.len() % ptr_size) % ptr_size;
        self.0.extend(std::iter::repeat_n(0u8, pad));
    }

    fn chunk(&mut self, orig: usize, body: &[u8]) -> &mut Self {
        self.pad();
        let header_len = 2 * std::mem::size_of::<usize>();
        self.0.extend_from_slice(&orig.to_ne_bytes());
        self.0
            .extend_from_slice(&(header_len + body.len()).to_ne_bytes());
        self.0.extend_from_slice(body);
        self
    }

    fn chunk_pod<T: Pod>(&mut self, orig: usize, v: &T) -> &mut Self {
        let bytes = v.to_bytes();
        self.chunk(orig, &bytes)
    }

    fn marker(&mut self, orig: usize) -> &mut Self {
        self.chunk(orig, &[])
    }

    fn cstring(&mut self, orig: usize, s: &str) -> &mut Self {
        let mut b = s.as_bytes().to_vec();
        b.push(0);
        self.chunk(orig, &b)
    }

    fn into_vec(self) -> Vec<u8> {
        self.0
    }
}

fn protocol_message<T: std::fmt::Debug>(r: Result<T, Error>) -> String {
    match r {
        Err(Error::Protocol(m)) => m,
        other => panic!("{other:?}"),
    }
}

#[test]
fn decode_interfaces_empty_list() {
    let mut buf = Buf::default();
    buf.chunk_pod(
        1,
        &RawInterfaceList {
            tqh_first: 0,
            tqh_last: 0,
        },
    );
    assert_eq!(decode_interfaces(&buf.into_vec()).unwrap(), Vec::new());
}

#[test]
fn decode_interfaces_two_entries_in_list_order() {
    let mut buf = Buf::default();
    buf.chunk_pod(
        1,
        &RawInterfaceList {
            tqh_first: 100,
            tqh_last: 0,
        },
    );
    // eth0 has eth1 for a successor, whose chunks come before eth0's name.
    buf.chunk_pod(
        2,
        &RawInterface {
            next_tqe_next: 200,
            next_tqe_prev: 0,
            name: 300,
            alias: 0,
        },
    );
    buf.chunk_pod(
        3,
        &RawInterface {
            next_tqe_next: 0,
            next_tqe_prev: 0,
            name: 400,
            alias: 500,
        },
    );
    buf.cstring(4, "eth1");
    buf.cstring(5, "wan");
    buf.cstring(6, "eth0");

    let result = decode_interfaces(&buf.into_vec()).unwrap();
    assert_eq!(
        result,
        vec![
            Interface {
                name: "eth0".into(),
                alias: None
            },
            Interface {
                name: "eth1".into(),
                alias: Some("wan".into())
            },
        ]
    );
}

/// A reply that lldpd 1.0.22 sent on a 64-bit machine.
#[test]
fn decode_interfaces_matches_a_real_lldpd_capture() {
    let payload: &[u8] = b"\x01\x00\x00\x00\x00\x00\x00\x00\xad\x00\x00\x00\x00\x00\x00\x00\x02\x00\x00\x00\x00\x00\x00\x00\x60\x0a\x14\xb3\x55\x00\x00\x00\x02\x00\x00\x00\x00\x00\x00\x00\x8d\x00\x00\x00\x00\x00\x00\x00\x03\x00\x00\x00\x00\x00\x00\x00\xf0\x60\x6a\xdb\x7f\x00\x00\x00\x05\x00\x00\x00\x00\x00\x00\x00\x00\x00\x00\x00\x00\x00\x00\x00\x03\x00\x00\x00\x00\x00\x00\x00\x46\x00\x00\x00\x00\x00\x00\x00\x00\x00\x00\x00\x00\x00\x00\x00\x90\xb0\x13\xb3\x55\x00\x00\x00\x04\x00\x00\x00\x00\x00\x00\x00\x00\x00\x00\x00\x00\x00\x00\x00\x04\x00\x00\x00\x00\x00\x00\x00\x16\x00\x00\x00\x00\x00\x00\x00\x77\x6c\x61\x6e\x30\x00\x00\x00\x05\x00\x00\x00\x00\x00\x00\x00\x15\x00\x00\x00\x00\x00\x00\x00\x65\x74\x68\x30\x00";
    assert_eq!(payload.len(), 173);

    let result = decode_interfaces(payload).unwrap();
    assert_eq!(
        result,
        vec![
            Interface {
                name: "eth0".into(),
                alias: None
            },
            Interface {
                name: "wlan0".into(),
                alias: None
            },
        ]
    );
}

fn empty_port() -> RawPort {
    RawPort::default()
}

#[test]
fn decode_hardware_local_only_no_neighbors() {
    let mut buf = Buf::default();
    buf.chunk_pod(
        1,
        &RawHardware {
            h_ifname: *b"eth0\0\0\0\0\0\0\0\0\0\0\0\0",
            ..Default::default()
        },
    );
    // The local port's marker, and those of its three locations.
    buf.marker(2);
    buf.marker(3);
    buf.marker(4);
    buf.marker(5);

    let details = decode_hardware(&buf.into_vec()).unwrap();
    assert_eq!(details.name, "eth0");
    assert_eq!(details.alias, None);
    assert!(details.local_chassis.is_none());
    assert!(details.neighbors.is_empty());
}

#[test]
fn decode_hardware_one_neighbor_with_chassis_and_mgmt_address() {
    let mut buf = Buf::default();
    buf.chunk_pod(
        1,
        &RawHardware {
            h_ifname: *b"eth0\0\0\0\0\0\0\0\0\0\0\0\0",
            h_rports_tqh_first: 6,
            ..Default::default()
        },
    );
    buf.marker(2);
    buf.marker(3);
    buf.marker(4);
    buf.marker(5);
    buf.chunk_pod(
        6,
        &RawPort {
            p_chassis: 999,
            p_id_subtype: 3,
            p_id: 700,
            p_descr: 800,
            p_ttl: 120,
            ..empty_port()
        },
    );
    buf.chunk_pod(
        999,
        &RawChassis {
            c_id_subtype: 4,
            c_id: 1000,
            c_name: 1100,
            c_descr: 0,
            c_mgmt_tqh_first: 1200,
            ..Default::default()
        },
    );
    buf.chunk(1000, &[0xde, 0xad, 0xbe, 0xef, 0x00, 0x01]);
    buf.cstring(1100, "switch1");
    buf.chunk_pod(
        1200,
        &RawMgmt {
            m_family: 1,
            m_addr: {
                let mut a = [0u8; 16];
                a[0..4].copy_from_slice(&[192, 0, 2, 1]);
                a
            },
            m_addrsize: 4,
            m_iface: 3,
            ..Default::default()
        },
    );
    buf.chunk(700, &[0xaa, 0xbb, 0xcc, 0xdd, 0xee, 0xff]);
    buf.cstring(800, "GigabitEthernet0/1");
    buf.marker(1300);
    buf.marker(1301);
    buf.marker(1302);

    let details = decode_hardware(&buf.into_vec()).unwrap();
    assert_eq!(details.neighbors.len(), 1);
    let n = &details.neighbors[0];
    assert_eq!(n.ttl, 120);
    assert_eq!(n.port_id_subtype, PortIdSubtype::MacAddress);
    assert_eq!(n.port_id, vec![0xaa, 0xbb, 0xcc, 0xdd, 0xee, 0xff]);
    assert_eq!(n.port_description.as_deref(), Some("GigabitEthernet0/1"));
    assert_eq!(n.chassis.id_subtype, ChassisIdSubtype::MacAddress);
    assert_eq!(n.chassis.id, vec![0xde, 0xad, 0xbe, 0xef, 0x00, 0x01]);
    assert_eq!(n.chassis.name.as_deref(), Some("switch1"));
    assert_eq!(n.chassis.management_addresses.len(), 1);
    let ip = match n.chassis.management_addresses[0].ip() {
        Some(IpAddr::V4(o)) => format!("{}.{}.{}.{}", o[0], o[1], o[2], o[3]),
        other => panic!("{other:?}"),
    };
    assert_eq!(ip, "192.0.2.1");
    assert_eq!(n.chassis.management_addresses[0].interface_index, 3);
}

fn two_neighbors_sharing_one_chassis() -> Vec<u8> {
    let mut buf = Buf::default();
    buf.chunk_pod(
        1,
        &RawHardware {
            h_ifname: *b"eth0\0\0\0\0\0\0\0\0\0\0\0\0",
            h_rports_tqh_first: 6,
            ..Default::default()
        },
    );
    buf.marker(2);
    buf.marker(3);
    buf.marker(4);
    buf.marker(5);

    // Two ports refer to chassis 777. The second is read first, and brings it.
    buf.chunk_pod(
        6,
        &RawPort {
            tqe_next: 100,
            p_chassis: 777,
            p_id_subtype: 5,
            p_id: 900,
            p_ttl: 60,
            ..empty_port()
        },
    );
    buf.chunk_pod(
        100,
        &RawPort {
            p_chassis: 777,
            p_id_subtype: 5,
            p_id: 901,
            p_ttl: 60,
            ..empty_port()
        },
    );
    buf.chunk_pod(
        777,
        &RawChassis {
            c_id_subtype: 6,
            c_id: 950,
            c_name: 0,
            ..Default::default()
        },
    );
    buf.chunk(950, b"switch-1");
    buf.cstring(901, "eth2");
    buf.marker(1400);
    buf.marker(1401);
    buf.marker(1402);
    buf.cstring(900, "eth1");
    buf.marker(1500);
    buf.marker(1501);
    buf.marker(1502);
    buf.into_vec()
}

#[test]
fn decode_hardware_two_neighbors_sharing_one_chassis() {
    let details = decode_hardware(&two_neighbors_sharing_one_chassis()).unwrap();
    assert_eq!(details.neighbors.len(), 2);
    assert!(Arc::ptr_eq(
        &details.neighbors[0].chassis,
        &details.neighbors[1].chassis
    ));
    assert_eq!(details.neighbors[0].chassis.id, b"switch-1");
}

#[test]
fn neighbors_come_in_list_order() {
    let details = decode_hardware(&two_neighbors_sharing_one_chassis()).unwrap();
    assert_eq!(details.neighbors[0].port_id, b"eth1\0");
    assert_eq!(details.neighbors[1].port_id, b"eth2\0");
    assert_eq!(
        details.neighbors[0].port_id_subtype,
        PortIdSubtype::IfName
    );
    assert_eq!(
        details.neighbors[0].chassis.id_subtype,
        ChassisIdSubtype::IfName
    );
}

#[test]
fn decode_hardware_rejects_truncated_payload() {
    let err = decode_hardware(&[0u8; 4]).unwrap_err();
    assert!(matches!(err, Error::Protocol(_)));
}

#[test]
fn short_messages_are_malformed() {
    let header = 2 * std::mem::size_of::<usize>();
    for n in [0, 1, header - 1] {
        let b = vec![0u8; n];
        let words = format!("truncated message: need {header} more bytes at offset 0 (have {n})");
        assert_eq!(protocol_message(decode_interfaces(&b)), words);
        assert_eq!(protocol_message(decode_hardware(&b)), words);
        assert_eq!(protocol_message(decode_neighbor_change(&b)), words);
    }
}

#[test]
fn no_prefix_of_a_message_is_a_message() {
    let whole = two_neighbors_sharing_one_chassis();
    for n in 0..whole.len() {
        protocol_message(decode_hardware(&whole[..n]));
    }
}

#[test]
fn no_prefix_of_a_list_is_a_list() {
    let mut buf = Buf::default();
    buf.chunk_pod(
        1,
        &RawInterfaceList {
            tqh_first: 2,
            tqh_last: 0,
        },
    );
    buf.chunk_pod(
        2,
        &RawInterface {
            name: 3,
            ..Default::default()
        },
    );
    buf.cstring(3, "eth0");
    let whole = buf.into_vec();
    assert_eq!(decode_interfaces(&whole).unwrap()[0].name, "eth0");
    for n in 0..whole.len() {
        protocol_message(decode_interfaces(&whole[..n]));
    }
}

#[test]
fn what_follows_a_message_does_not_matter() {
    let mut b = two_neighbors_sharing_one_chassis();
    let details = decode_hardware(&b).unwrap();
    b.extend_from_slice(&[0xff; 40]);
    assert_eq!(decode_hardware(&b).unwrap(), details);

    let mut buf = Buf::default();
    buf.chunk_pod(1, &RawInterfaceList::default());
    buf.chunk(2, b"more");
    assert_eq!(decode_interfaces(&buf.into_vec()).unwrap(), Vec::new());
}

#[test]
fn decode_neighbor_change_deleted_with_no_port_data() {
    let mut buf = Buf::default();
    buf.chunk_pod(
        1,
        &RawNeighborChange {
            ifname: 100,
            ifalias: 0,
            state: -1,
            neighbor: 0,
        },
    );
    buf.cstring(100, "eth0");

    let change = decode_neighbor_change(&buf.into_vec()).unwrap();
    assert_eq!(change.interface, "eth0");
    assert_eq!(change.interface_alias, None);
    assert_eq!(change.kind, NeighborChangeKind::Deleted);
    assert!(change.neighbor.is_none());
}

#[test]
fn decode_neighbor_change_added_with_full_neighbor() {
    let mut buf = Buf::default();
    buf.chunk_pod(
        1,
        &RawNeighborChange {
            ifname: 100,
            ifalias: 0,
            state: 1,
            neighbor: 200,
        },
    );
    buf.cstring(100, "eth0");
    buf.chunk_pod(
        200,
        &RawPort {
            p_chassis: 300,
            p_id_subtype: 5,
            p_id: 400,
            p_ttl: 90,
            ..empty_port()
        },
    );
    buf.chunk_pod(
        300,
        &RawChassis {
            c_id_subtype: 6,
            c_id: 500,
            c_name: 600,
            ..Default::default()
        },
    );
    buf.chunk(500, b"switch-x");
    buf.cstring(600, "switch-x-name");
    buf.chunk(400, b"eth5");
    buf.marker(700);
    buf.marker(701);
    buf.marker(702);

    let change = decode_neighbor_change(&buf.into_vec()).unwrap();
    assert_eq!(change.interface, "eth0");
    assert_eq!(change.kind, NeighborChangeKind::Added);
    let neighbor = change.neighbor.unwrap();
    assert_eq!(neighbor.ttl, 90);
    assert_eq!(neighbor.port_id, b"eth5");
    assert_eq!(neighbor.chassis.id, b"switch-x");
    assert_eq!(neighbor.chassis.name.as_deref(), Some("switch-x-name"));
}

#[test]
fn what_follows_a_notification_does_not_matter() {
    let mut buf = Buf::default();
    buf.chunk_pod(
        1,
        &RawNeighborChange {
            ifname: 2,
            ..Default::default()
        },
    );
    buf.cstring(2, "eth0");
    let mut b = buf.into_vec();
    let change = decode_neighbor_change(&b).unwrap();
    b.extend_from_slice(&[0xff; 9]);
    assert_eq!(decode_neighbor_change(&b).unwrap(), change);
    assert_eq!(change.kind, NeighborChangeKind::Updated);
    b.truncate(b.len() - 10);
    protocol_message(decode_neighbor_change(&b));
}

#[test]
fn a_nameless_change_has_an_empty_name() {
    let mut buf = Buf::default();
    buf.chunk_pod(
        1,
        &RawNeighborChange {
            ifname: 0,
            ifalias: 5,
            state: 42,
            neighbor: 0,
        },
    );
    buf.cstring(5, "uplink");
    let change = decode_neighbor_change(&buf.into_vec()).unwrap();
    assert_eq!(change.interface, "");
    assert_eq!(change.interface_alias.as_deref(), Some("uplink"));
    assert_eq!(change.kind, NeighborChangeKind::Other(42));
}

#[test]
fn a_notified_neighbor_has_no_successor() {
    let mut buf = Buf::default();
    buf.chunk_pod(
        1,
        &RawNeighborChange {
            neighbor: 2,
            ..Default::default()
        },
    );
    buf.chunk_pod(
        2,
        &RawPort {
            tqe_next: 3,
            ..empty_port()
        },
    );
    assert_eq!(
        protocol_message(decode_neighbor_change(&buf.into_vec())),
        "notified neighbor unexpectedly chained to another port"
    );
}

#[test]
fn a_local_port_has_no_successor() {
    let mut buf = Buf::default();
    buf.chunk_pod(
        1,
        &RawHardware {
            h_lport: RawPort {
                tqe_next: 3,
                ..empty_port()
            },
            ..Default::default()
        },
    );
    buf.marker(2);
    assert_eq!(
        protocol_message(decode_hardware(&buf.into_vec())),
        "local port unexpectedly chained to another port"
    );
}

#[test]
fn a_neighbor_has_a_chassis() {
    let mut buf = Buf::default();
    buf.chunk_pod(
        1,
        &RawNeighborChange {
            neighbor: 2,
            ..Default::default()
        },
    );
    buf.chunk_pod(2, &empty_port());
    buf.marker(3);
    buf.marker(4);
    buf.marker(5);
    assert_eq!(
        protocol_message(decode_neighbor_change(&buf.into_vec())),
        "neighbor port has no associated chassis"
    );
}

/// Everything that a port can refer to, in the order of the chunks.
#[test]
fn every_chunk_of_a_port_is_read() {
    let mut name = [b'x'; 16];
    name[15] = b'y';
    let mut raw = RawHardware {
        h_ifname: name,
        h_ifalias: 90,
        h_lladdr: [1, 2, 3, 4, 5, 6],
        h_lport: RawPort {
            p_chassis: 10,
            p_id: 20,
            p_descr: 21,
            p_vlan_advertise_pattern: 22,
            p_vlans_tqh_first: 30,
            p_ppvids_tqh_first: 40,
            p_pids_tqh_first: 50,
            ..empty_port()
        },
        ..Default::default()
    };
    raw.h_lport.p_med_location[1] = RawMedLoc {
        data: 25,
        data_len: 3,
        ..Default::default()
    };
    let mut buf = Buf::default();
    buf.chunk_pod(1, &raw);
    buf.marker(2);
    buf.chunk_pod(
        10,
        &RawChassis {
            c_id_subtype: 99,
            c_descr: 11,
            c_cap_available: 0x14,
            c_cap_enabled: 0x04,
            c_mgmt_tqh_first: 12,
            c_med_hw: 13,
            c_med_fw: 14,
            c_med_sw: 15,
            c_med_sn: 16,
            c_med_manuf: 17,
            c_med_model: 18,
            c_med_asset: 19,
            ..Default::default()
        },
    );
    buf.cstring(11, "a chassis");
    buf.chunk_pod(
        12,
        &RawMgmt {
            tqe_next: 13,
            m_family: 2,
            m_addr: [7; 16],
            m_addrsize: 1000,
            m_iface: 1,
            ..Default::default()
        },
    );
    buf.chunk_pod(
        13,
        &RawMgmt {
            m_family: -1,
            m_addrsize: 2,
            ..Default::default()
        },
    );
    for (orig, s) in [
        (13, "hw"),
        (14, "fw"),
        (15, "sw"),
        (16, "sn"),
        (17, "manuf"),
        (18, "model"),
        (19, "asset"),
    ] {
        buf.cstring(orig, s);
    }
    buf.chunk(20, b"id");
    buf.cstring(21, "descr");
    buf.cstring(22, "vlan*");
    buf.marker(23);
    buf.marker(24);
    buf.chunk(25, b"loc");
    buf.marker(26);
    buf.chunk_pod(
        30,
        &RawVlan {
            tqe_next: 31,
            v_name: 33,
            ..Default::default()
        },
    );
    buf.chunk_pod(
        31,
        &RawVlan {
            v_name: 32,
            ..Default::default()
        },
    );
    buf.cstring(32, "second");
    buf.cstring(33, "first");
    buf.chunk_pod(
        40,
        &RawPpvid {
            tqe_next: 41,
            ..Default::default()
        },
    );
    buf.chunk_pod(41, &RawPpvid::default());
    buf.chunk_pod(
        50,
        &RawPi {
            tqe_next: 51,
            p_pi: 52,
            ..Default::default()
        },
    );
    buf.chunk_pod(51, &RawPi::default());
    buf.chunk(52, b"pi");
    buf.cstring(90, "uplink");

    let details = decode_hardware(&buf.into_vec()).unwrap();
    assert_eq!(details.name, "xxxxxxxxxxxxxxxy");
    assert_eq!(details.alias.as_deref(), Some("uplink"));
    assert_eq!(details.mac_address, [1, 2, 3, 4, 5, 6]);
    assert!(details.neighbors.is_empty());
    let chassis = details.local_chassis.unwrap();
    assert_eq!(chassis.id_subtype, ChassisIdSubtype::Other(99));
    assert_eq!(chassis.id, b"");
    assert_eq!(chassis.name, None);
    assert_eq!(chassis.description.as_deref(), Some("a chassis"));
    assert_eq!(chassis.capabilities_available.0, 0x14);
    assert_eq!(chassis.capabilities_enabled.0, 0x04);
    let addresses = &chassis.management_addresses;
    assert_eq!(addresses.len(), 2);
    assert_eq!(addresses[0].ip(), Some(IpAddr::V6([7; 16])));
    assert_eq!(addresses[1].raw_octets(), [0, 0]);
    assert_eq!(addresses[1].family, u32::MAX);
    assert_eq!(
        chassis.med,
        MedInventory {
            hardware_revision: Some("hw".into()),
            firmware_revision: Some("fw".into()),
            software_revision: Some("sw".into()),
            serial_number: Some("sn".into()),
            manufacturer: Some("manuf".into()),
            model: Some("model".into()),
            asset_id: Some("asset".into()),
        }
    );
}

#[test]
fn a_neighbor_can_have_the_local_chassis() {
    let mut buf = Buf::default();
    buf.chunk_pod(
        1,
        &RawHardware {
            h_lport: RawPort {
                p_chassis: 7,
                ..empty_port()
            },
            h_rports_tqh_first: 8,
            ..Default::default()
        },
    );
    buf.marker(2);
    buf.chunk_pod(
        7,
        &RawChassis {
            c_name: 9,
            ..Default::default()
        },
    );
    buf.cstring(9, "here");
    buf.marker(3);
    buf.marker(4);
    buf.marker(5);
    buf.chunk_pod(
        8,
        &RawPort {
            p_chassis: 7,
            ..empty_port()
        },
    );
    buf.marker(10);
    buf.marker(11);
    buf.marker(12);
    let details = decode_hardware(&buf.into_vec()).unwrap();
    let local = details.local_chassis.unwrap();
    assert_eq!(local.name.as_deref(), Some("here"));
    assert_eq!(local.med, MedInventory::default());
    assert!(Arc::ptr_eq(&local, &details.neighbors[0].chassis));
}

#[test]
fn neighbors_share_a_chassis_only_by_reference() {
    let mut buf = Buf::default();
    buf.chunk_pod(
        1,
        &RawHardware {
            h_rports_tqh_first: 6,
            ..Default::default()
        },
    );
    for orig in 2..6 {
        buf.marker(orig);
    }
    for (tqe_next, p_chassis) in [(7, 20), (8, 21), (0, 20)] {
        buf.chunk_pod(
            6,
            &RawPort {
                tqe_next,
                p_chassis,
                ..empty_port()
            },
        );
    }
    // The last neighbor brings chassis 20, the one before it brings 21.
    for orig in [20, 21] {
        buf.chunk_pod(orig, &RawChassis::default());
        buf.marker(30);
        buf.marker(31);
        buf.marker(32);
    }
    buf.marker(30);
    buf.marker(31);
    buf.marker(32);
    let neighbors = decode_hardware(&buf.into_vec()).unwrap().neighbors;
    assert_eq!(neighbors.len(), 3);
    assert!(Arc::ptr_eq(&neighbors[0].chassis, &neighbors[2].chassis));
    assert!(!Arc::ptr_eq(&neighbors[0].chassis, &neighbors[1].chassis));
}

#[test]
fn interface_name_request_roundtrips_through_the_decoder() {
    let payload = encode_interface_name_request("eth0");
    let mut cursor = Cursor::new(&payload);
    assert_eq!(
        read_opt_cstring(&mut cursor, 1).unwrap(),
        Some("eth0".to_string())
    );
}

/// What `lldpcli configure ports eth0 lldp portdescription 'test-desc-XYZ'`
/// sends on a 64-bit machine.
#[test]
fn set_port_description_request_matches_a_real_lldpd_capture() {
    let expected: &[u8] = b"\x01\x00\x00\x00\x00\x00\x00\x00\x96\x00\x00\x00\x00\x00\x00\x00\x02\x00\x00\x00\x00\x00\x00\x00\x00\x00\x00\x00\x00\x00\x00\x00\x03\x00\x00\x00\x00\x00\x00\x00\x00\x00\x00\x00\x00\x00\x00\x00\x00\x00\x00\x00\x00\x00\x00\x00\xff\xff\xff\xff\x00\x00\x00\x00\x00\x00\x00\x00\x00\x00\x00\x00\x00\x00\x00\x00\x00\x00\x00\x00\x00\x00\x00\x00\x00\x00\x00\x00\x00\x00\x00\x00\x00\x00\x00\x00\x02\x00\x00\x00\x00\x00\x00\x00\x15\x00\x00\x00\x00\x00\x00\x00\x65\x74\x68\x30\x00\x00\x00\x00\x03\x00\x00\x00\x00\x00\x00\x00\x1e\x00\x00\x00\x00\x00\x00\x00\x74\x65\x73\x74\x2d\x64\x65\x73\x63\x2d\x58\x59\x5a\x00";
    assert_eq!(expected.len(), 150);

    let actual = encode_set_port_description_request("eth0", "test-desc-XYZ");
    assert_eq!(actual, expected);
}

#[test]
fn set_port_description_request_roundtrips_through_the_decoder() {
    let payload = encode_set_port_description_request("gr\u{fc}n", "");
    let mut cursor = Cursor::new(&payload);
    let set: RawPortSet = read_chunk_pod(&mut cursor).unwrap();
    assert_eq!((set.ifname, set.local_descr), (2, 3));
    assert_eq!((set.rxtx, set.vlan_tx_enabled), (0, -1));
    assert_eq!(
        read_opt_cstring(&mut cursor, set.ifname).unwrap().unwrap(),
        "gr\u{fc}n"
    );
    assert_eq!(
        read_opt_cstring(&mut cursor, set.local_descr)
            .unwrap()
            .unwrap(),
        ""
    );
    assert_eq!(cursor.pos, payload.len());
}
