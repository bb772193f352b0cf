use std::sync::Arc;

use rlldpctl::error::Malformed;
use rlldpctl::text::{push_decimal, read_text};
use rlldpctl::wire::bytes::{host_is_little, ne_to_u64, u64_to_ne};
use rlldpctl::{
    Capabilities, Chassis, ChassisIdSubtype, Error, IpAddr, ManagementAddress, MedInventory,
    Neighbor, NeighborChangeKind, PortIdSubtype,
};

fn chassis(id: &[u8]) -> Chassis {
    Chassis {
        id_subtype: ChassisIdSubtype::Local,
        id: id.to_vec(),
        name: None,
        description: None,
        capabilities_available: Capabilities(0),
        capabilities_enabled: Capabilities(0),
        management_addresses: Vec::new(),
        med: MedInventory::default(),
    }
}

#[test]
fn identifiers_are_text_where_they_can_be() {
    assert_eq!(chassis(b"switch-1").id_str(), Some("switch-1"));
    assert_eq!(chassis(&[0xde, 0xad, 0xbe]).id_str(), None);
    let mut neighbor = Neighbor {
        chassis: Arc::new(chassis(b"")),
        port_id_subtype: PortIdSubtype::IfName,
        port_id: "pört".as_bytes().to_vec(),
        port_description: None,
        ttl: 1,
    };
    assert_eq!(neighbor.port_id_str(), Some("pört"));
    neighbor.port_id = vec![0xff];
    assert_eq!(neighbor.port_id_str(), None);
}

#[test]
fn addresses_of_both_families() {
    let v4 = ManagementAddress::new(1, vec![192, 0, 2, 1, 9, 9], 3);
    assert_eq!(v4.ip(), Some(IpAddr::V4([192, 0, 2, 1])));
    assert_eq!(v4.raw_octets(), [192, 0, 2, 1, 9, 9]);
    assert_eq!(v4.interface_index, 3);
    let octets: Vec<u8> = (1..=16).collect();
    let v6 = ManagementAddress::new(2, octets.clone(), 0);
    assert_eq!(
        v6.ip(),
        Some(IpAddr::V6([
            1, 2, 3, 4, 5, 6, 7, 8, 9, 10, 11, 12, 13, 14, 15, 16
        ]))
    );
    assert_eq!(v6.raw_octets(), octets);
}

#[test]
fn other_addresses_are_octets_only() {
    assert_eq!(ManagementAddress::new(1, vec![1, 2, 3], 0).ip(), None);
    assert_eq!(ManagementAddress::new(2, vec![0; 15], 0).ip(), None);
    assert_eq!(ManagementAddress::new(6, vec![0; 16], 0).ip(), None);
    assert_eq!(
        ManagementAddress::new(6, vec![1, 2], 0).raw_octets(),
        [1, 2]
    );
}

#[test]
fn capabilities_are_bits() {
    let c = Capabilities(Capabilities::BRIDGE | Capabilities::ROUTER);
    assert!(c.contains(Capabilities::BRIDGE));
    assert!(c.contains(Capabilities::ROUTER));
    assert!(c.contains(0x0014));
    assert!(!c.contains(Capabilities::TELEPHONE));
    assert!(!c.contains(Capabilities::BRIDGE | Capabilities::TELEPHONE));
    assert!(Capabilities(0x07ff).contains(
        Capabilities::OTHER
            | Capabilities::REPEATER
            | Capabilities::WLAN_ACCESS_POINT
            | Capabilities::DOCSIS_CABLE_DEVICE
            | Capabilities::STATION_ONLY
            | Capabilities::CVLAN_COMPONENT
            | Capabilities::SVLAN_COMPONENT
            | Capabilities::TWO_PORT_MAC_RELAY
    ));
}

#[test]
fn numbers_name_change_kinds() {
    assert_eq!(NeighborChangeKind::from(1), NeighborChangeKind::Added);
    assert_eq!(NeighborChangeKind::from(0), NeighborChangeKind::Updated);
    assert_eq!(NeighborChangeKind::from(-1), NeighborChangeKind::Deleted);
    assert_eq!(NeighborChangeKind::from(7), NeighborChangeKind::Other(7));
}

#[test]
fn numbers_name_chassis_id_subtypes() {
    let all = [
        ChassisIdSubtype::Other(0),
        ChassisIdSubtype::ChassisComponent,
        ChassisIdSubtype::IfAlias,
        ChassisIdSubtype::PortComponent,
        ChassisIdSubtype::MacAddress,
        ChassisIdSubtype::NetworkAddress,
        ChassisIdSubtype::IfName,
        ChassisIdSubtype::Local,
        ChassisIdSubtype::Other(8),
    ];
    for (n, subtype) in all.into_iter().enumerate() {
        assert_eq!(ChassisIdSubtype::from(n as u8), subtype);
    }
}

#[test]
fn numbers_name_port_id_subtypes() {
    let all = [
        PortIdSubtype::Unknown,
        PortIdSubtype::IfAlias,
        PortIdSubtype::PortComponent,
        PortIdSubtype::MacAddress,
        PortIdSubtype::NetworkAddress,
        PortIdSubtype::IfName,
        PortIdSubtype::AgentCircuitId,
        PortIdSubtype::Local,
        PortIdSubtype::Other(8),
    ];
    for (n, subtype) in all.into_iter().enumerate() {
        assert_eq!(PortIdSubtype::from(n as u8), subtype);
    }
}

#[test]
fn text_is_read_with_replacements() {
    assert_eq!(read_text("grün".as_bytes()), "grün");
    assert_eq!(read_text(b"a\xc3"), "a\u{FFFD}");
    assert_eq!(read_text(b""), "");
}

#[test]
fn numbers_are_written_in_decimal() {
    for n in [0, 7, 10, 99, 100, 524288, usize::MAX] {
        let mut s = "n=".to_string();
        push_decimal(&mut s, n);
        assert_eq!(s, format!("n={n}"));
    }
}

#[test]
fn numbers_are_bytes_in_host_order() {
    assert_eq!(host_is_little(), 1u16.to_ne_bytes()[0] == 1);
    assert_eq!(u64_to_ne(0x0102, 2), 0x0102u16.to_ne_bytes().to_vec());
    assert_eq!(u64_to_ne(0x01020304, 4), 0x01020304u32.to_ne_bytes().to_vec());
    assert_eq!(ne_to_u64(&0x01020304u32.to_ne_bytes()), 0x01020304);
}

#[test]
fn faults_are_put_into_words() {
    let cases = [
        (
            Malformed::Truncated {
                need: 16,
                offset: 8,
                have: 10,
            },
            "truncated message: need 16 more bytes at offset 8 (have 10)",
        ),
        (
            Malformed::ShortStruct { need: 32, got: 3 },
            "chunk too small: need 32 bytes, got 3",
        ),
        (
            Malformed::ShortLeaf {
                declared: 3,
                header: 16,
            },
            "chunk declares 3 bytes, smaller than its own 16-byte header",
        ),
        (
            Malformed::ShortChunk {
                declared: 20,
                header: 16,
                content: 32,
            },
            "chunk declares 20 bytes, too small for its own 16-byte header plus the 32-byte struct it contains",
        ),
        (
            Malformed::NoChassis,
            "neighbor port has no associated chassis",
        ),
        (
            Malformed::ChainedLocalPort,
            "local port unexpectedly chained to another port",
        ),
        (
            Malformed::ChainedNeighbor,
            "notified neighbor unexpectedly chained to another port",
        ),
        (
            Malformed::Oversized { len: 9, cap: 8 },
            "reply announces a 9-byte payload, larger than the 8-byte cap",
        ),
    ];
    for (fault, words) in cases {
        assert_eq!(fault.message(), words);
        match fault.into_error() {
            Error::Protocol(m) => assert_eq!(m, words),
            other => panic!("{other:?}"),
        }
    }
}
