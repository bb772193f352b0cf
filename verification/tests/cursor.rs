use rlldpctl::error::Malformed;
use rlldpctl::wire::cursor::{
    consume_substruct_marker, pod_bytes, read_chunk_pod, read_native_usize, read_opt_bytes,
    read_opt_cstring, read_pod, Cursor,
};
use rlldpctl::wire::pod::Pod;
use rlldpctl::wire::raw::{
    RawChassis, RawHardware, RawInterface, RawInterfaceList, RawMedLoc, RawMedPolicy, RawMgmt,
    RawNeighborChange, RawPort, RawPortSet,
};

const PTR_SIZE: usize = std::mem::size_of::<usize>();

fn chunk_bytes(orig: usize, body: &[u8]) -> Vec<u8> {
    let header_len = 2 * PTR_SIZE;
    let mut out = orig.to_ne_bytes().to_vec();
    out.extend_from_slice(&(header_len + body.len()).to_ne_bytes());
    out.extend_from_slice(body);
    out
}

#[test]
fn reads_a_single_chunk() {
    let buf = chunk_bytes(1, b"hi");
    let mut c = Cursor::new(&buf);
    let (orig, body) = c.leaf().unwrap();
    assert_eq!(orig, 1);
    assert_eq!(body, b"hi");
}

#[test]
fn pads_between_chunks_to_pointer_alignment() {
    let second = chunk_bytes(2, b"second");
    let mut padded = chunk_bytes(1, b"x");
    let pad = (PTR_SIZE - padded.len() % PTR_SIZE) % PTR_SIZE;
    padded.extend(std::iter::repeat_n(0u8, pad));
    padded.extend_from_slice(&second);

    let mut c = Cursor::new(&padded);
    let (orig1, body1) = c.leaf().unwrap();
    assert_eq!((orig1, body1), (1, &b"x"[..]));
    let (orig2, body2) = c.leaf().unwrap();
    assert_eq!((orig2, body2), (2, &b"second"[..]));
}

#[test]
fn opt_cstring_strips_trailing_nul() {
    let buf = chunk_bytes(1, b"hello\0");
    let mut c = Cursor::new(&buf);
    assert_eq!(
        read_opt_cstring(&mut c, 42).unwrap(),
        Some("hello".to_string())
    );
}

#[test]
fn opt_cstring_null_pointer_reads_nothing() {
    let mut c = Cursor::new(&[]);
    assert_eq!(read_opt_cstring(&mut c, 0).unwrap(), None);
}

#[test]
fn truncated_message_is_a_protocol_error() {
    let mut c = Cursor::new(&[0u8; 3]);
    assert!(c.leaf().is_err());
}

#[test]
fn truncation_says_what_is_missing() {
    let mut c = Cursor::new(&[0u8; 3]);
    assert_eq!(
        c.leaf().unwrap_err(),
        Malformed::Truncated {
            need: 2 * PTR_SIZE,
            offset: 0,
            have: 3
        }
    );
    let mut cut = chunk_bytes(1, b"hello");
    cut.pop();
    let mut c = Cursor::new(&cut);
    assert_eq!(
        c.leaf().unwrap_err(),
        Malformed::Truncated {
            need: 5,
            offset: 2 * PTR_SIZE,
            have: 2 * PTR_SIZE + 4
        }
    );
}

#[test]
fn a_trailing_nul_is_stripped_once() {
    let buf = chunk_bytes(1, b"a\0\0");
    let mut c = Cursor::new(&buf);
    assert_eq!(read_opt_cstring(&mut c, 1).unwrap().unwrap(), "a\0");
    let buf = chunk_bytes(1, b"bare");
    let mut c = Cursor::new(&buf);
    assert_eq!(read_opt_cstring(&mut c, 1).unwrap().unwrap(), "bare");
    let buf = chunk_bytes(1, b"");
    let mut c = Cursor::new(&buf);
    assert_eq!(read_opt_cstring(&mut c, 1).unwrap().unwrap(), "");
}

#[test]
fn ill_formed_text_is_replaced() {
    let buf = chunk_bytes(1, b"sw\xffitch\0");
    let mut c = Cursor::new(&buf);
    assert_eq!(
        read_opt_cstring(&mut c, 1).unwrap().unwrap(),
        "sw\u{FFFD}itch"
    );
}

#[test]
fn opt_bytes_keeps_every_byte() {
    let buf = chunk_bytes(9, &[0xde, 0xad, 0x00]);
    let mut c = Cursor::new(&buf);
    assert_eq!(
        read_opt_bytes(&mut c, 9).unwrap(),
        Some(vec![0xde, 0xad, 0x00])
    );
    assert_eq!(c.pos, 2 * PTR_SIZE + 3);
    assert_eq!(read_opt_bytes(&mut c, 0).unwrap(), None);
    assert_eq!(c.pos, 2 * PTR_SIZE + 3);
}

#[test]
fn a_leaf_must_declare_its_header() {
    let mut buf = 1usize.to_ne_bytes().to_vec();
    buf.extend_from_slice(&3usize.to_ne_bytes());
    let mut c = Cursor::new(&buf);
    assert_eq!(
        c.leaf().unwrap_err(),
        Malformed::ShortLeaf {
            declared: 3,
            header: 2 * PTR_SIZE
        }
    );
}

#[test]
fn a_structure_must_be_declared_in_full() {
    let n = <RawInterfaceList as Pod>::size_of();
    let mut buf = 1usize.to_ne_bytes().to_vec();
    buf.extend_from_slice(&(2 * PTR_SIZE + n - 1).to_ne_bytes());
    buf.extend_from_slice(&vec![0u8; n]);
    let mut c = Cursor::new(&buf);
    let r: Result<RawInterfaceList, Malformed> = read_chunk_pod(&mut c);
    assert_eq!(
        r.unwrap_err(),
        Malformed::ShortChunk {
            declared: 2 * PTR_SIZE + n - 1,
            header: 2 * PTR_SIZE,
            content: n
        }
    );
}

#[test]
fn a_structure_may_declare_more_than_itself() {
    let list = RawInterfaceList {
        tqh_first: 7,
        tqh_last: 8,
    };
    let mut buf = 1usize.to_ne_bytes().to_vec();
    buf.extend_from_slice(&1000usize.to_ne_bytes());
    buf.extend_from_slice(&pod_bytes(&list));
    let mut c = Cursor::new(&buf);
    let got: RawInterfaceList = read_chunk_pod(&mut c).unwrap();
    assert_eq!((got.tqh_first, got.tqh_last), (7, 8));
    assert_eq!(c.pos, buf.len());
}

#[test]
fn a_marker_is_a_header() {
    let buf = chunk_bytes(4, b"");
    let mut c = Cursor::new(&buf);
    consume_substruct_marker(&mut c).unwrap();
    assert_eq!(c.pos, 2 * PTR_SIZE);
    assert!(consume_substruct_marker(&mut c).is_err());
}

#[test]
fn read_pod_needs_all_bytes() {
    let n = <RawInterface as Pod>::size_of();
    let r: Result<RawInterface, Malformed> = read_pod(&[0u8; 3]);
    assert_eq!(r.unwrap_err(), Malformed::ShortStruct { need: n, got: 3 });
    let r: Result<RawInterface, Malformed> = read_pod(&vec![0u8; n + 1]);
    assert_eq!(r.unwrap().name, 0);
}

#[test]
fn native_numbers_are_read_in_host_order() {
    assert_eq!(read_native_usize(&0x1234usize.to_ne_bytes()), 0x1234);
}

#[test]
fn pods_are_the_bytes_of_the_host() {
    assert_eq!(0x0102u16.to_bytes(), 0x0102u16.to_ne_bytes().to_vec());
    assert_eq!((-2i32).to_bytes(), (-2i32).to_ne_bytes().to_vec());
    assert_eq!((-3isize).to_bytes(), (-3isize).to_ne_bytes().to_vec());
    assert_eq!(
        0x0102030405060708u64.to_bytes(),
        0x0102030405060708u64.to_ne_bytes().to_vec()
    );
    assert_eq!(i32::from_bytes(&(-7i32).to_ne_bytes()), -7);
    assert_eq!(isize::from_bytes(&isize::MIN.to_ne_bytes()), isize::MIN);
    assert_eq!(u32::from_bytes(&77u32.to_ne_bytes()), 77);
    assert_eq!(
        RawNeighborChange {
            ifname: 1,
            ifalias: 2,
            state: -1,
            neighbor: 3
        }
        .to_bytes()[..PTR_SIZE],
        1usize.to_ne_bytes()
    );
}

#[test]
fn structures_round_trip() {
    let port = RawPort {
        p_chassis: 5,
        p_lastchange: -9,
        p_ttl: 120,
        p_id_subtype: 3,
        p_pids_tqh_last: 77,
        ..Default::default()
    };
    let bytes = pod_bytes(&port);
    assert_eq!(bytes.len(), <RawPort as Pod>::size_of());
    let back: RawPort = read_pod(&bytes).unwrap();
    assert_eq!(back.p_chassis, 5);
    assert_eq!(back.p_lastchange, -9);
    assert_eq!(back.p_ttl, 120);
    assert_eq!(back.p_id_subtype, 3);
    assert_eq!(back.p_pids_tqh_last, 77);
}

#[test]
fn sizes_are_aligned() {
    assert_eq!(
        <RawMedPolicy as Pod>::size_of() % <RawMedPolicy as Pod>::align_of(),
        0
    );
    assert_eq!(
        <RawMedLoc as Pod>::size_of() % <RawMedLoc as Pod>::align_of(),
        0
    );
    assert_eq!(<RawMgmt as Pod>::size_of() % <RawMgmt as Pod>::align_of(), 0);
    assert_eq!(<RawPort as Pod>::size_of() % <RawPort as Pod>::align_of(), 0);
    assert_eq!(
        <RawHardware as Pod>::size_of() % <RawHardware as Pod>::align_of(),
        0
    );
}

#[test]
fn sizes_are_those_of_the_c_structures() {
    if PTR_SIZE == 8 {
        assert_eq!(<RawMgmt as Pod>::size_of(), 56);
        assert_eq!(<RawMedPolicy as Pod>::size_of(), 8);
        assert_eq!(<RawMedLoc as Pod>::size_of(), 24);
        assert_eq!(<RawChassis as Pod>::size_of(), 144);
        assert_eq!(<RawPort as Pod>::size_of(), 368);
        assert_eq!(<RawInterface as Pod>::size_of(), 32);
        assert_eq!(<RawHardware as Pod>::size_of(), 632);
        assert_eq!(<RawNeighborChange as Pod>::size_of(), 32);
        assert_eq!(<RawPortSet as Pod>::size_of(), 80);
        assert_eq!(<RawPort as Pod>::align_of(), 8);
    }
}
