use rlldpctl::transport::{
    accept, align_up, announced, decode_header, encode_header, encode_request, header_len,
    HmsgType, HMSG_MAX_SIZE,
};
use rlldpctl::Error;

const PTR_SIZE: usize = std::mem::size_of::<usize>();

#[test]
fn header_len_is_two_pointers_wide() {
    assert_eq!(header_len(), 2 * PTR_SIZE);
}

#[test]
fn header_roundtrips() {
    let buf = encode_header(HmsgType::GetInterface, 42);
    assert_eq!(decode_header(&buf), (HmsgType::GetInterface.code(), 42));
}

#[test]
fn align_up_examples() {
    assert_eq!(align_up(0, 8), 0);
    assert_eq!(align_up(1, 8), 8);
    assert_eq!(align_up(8, 8), 8);
    assert_eq!(align_up(9, 8), 16);
}

#[test]
fn every_header_roundtrips() {
    let types = [
        (HmsgType::NoMessage, 0),
        (HmsgType::GetInterfaces, 3),
        (HmsgType::GetInterface, 6),
        (HmsgType::SetPort, 8),
        (HmsgType::Subscribe, 9),
        (HmsgType::Notification, 10),
    ];
    for (ty, code) in types {
        assert_eq!(ty.code(), code);
        assert!(ty.matches(code));
        assert!(!ty.matches(code + 100));
        for len in [0, 1, HMSG_MAX_SIZE, usize::MAX] {
            let buf = encode_header(ty, len);
            assert_eq!(buf.len(), header_len());
            assert_eq!(decode_header(&buf), (code, len));
        }
    }
}

#[test]
fn a_header_is_a_padded_type_and_a_length() {
    let buf = encode_header(HmsgType::SetPort, 0x0102);
    assert_eq!(buf[..4], 8i32.to_ne_bytes());
    assert!(buf[4..PTR_SIZE].iter().all(|b| *b == 0));
    assert_eq!(buf[PTR_SIZE..], 0x0102usize.to_ne_bytes());
}

#[test]
fn a_request_is_its_header_and_its_payload() {
    let out = encode_request(HmsgType::GetInterface, b"abc");
    let mut expected = encode_header(HmsgType::GetInterface, 3);
    expected.extend_from_slice(b"abc");
    assert_eq!(out, expected);
}

#[test]
fn an_announcement_is_capped() {
    let buf = encode_header(HmsgType::Notification, HMSG_MAX_SIZE);
    assert_eq!(announced(&buf).unwrap(), (10, 524288));
    let buf = encode_header(HmsgType::Notification, HMSG_MAX_SIZE + 1);
    match announced(&buf) {
        Err(Error::Protocol(m)) => assert_eq!(
            m,
            "reply announces a 524289-byte payload, larger than the 524288-byte cap"
        ),
        other => panic!("{other:?}"),
    }
}

#[test]
fn a_matching_message_is_accepted() {
    assert_eq!(
        accept(HmsgType::GetInterfaces, 3, b"abc".to_vec()).unwrap(),
        b"abc"
    );
}

#[test]
fn a_message_of_no_type_is_a_rejection() {
    assert!(matches!(
        accept(HmsgType::GetInterface, 0, b"abc".to_vec()),
        Err(Error::RequestRejected)
    ));
}

#[test]
fn another_message_is_unexpected() {
    assert!(matches!(
        accept(HmsgType::GetInterface, 3, Vec::new()),
        Err(Error::UnexpectedMessageType {
            expected: 6,
            got: 3
        })
    ));
    assert!(matches!(
        accept(HmsgType::Subscribe, -1, Vec::new()),
        Err(Error::UnexpectedMessageType {
            expected: 9,
            got: 4294967295
        })
    ));
}

#[test]
fn messages_back_to_back_read_back_in_turn() {
    let messages: [(HmsgType, &[u8]); 3] = [
        (HmsgType::Notification, b"abc"),
        (HmsgType::NoMessage, b""),
        (HmsgType::SetPort, b"\0\0"),
    ];
    let mut b = Vec::new();
    for (ty, payload) in messages {
        b.extend(encode_request(ty, payload));
    }
    let mut at = 0;
    for (ty, payload) in messages {
        let (got, len) = announced(&b[at..]).unwrap();
        at += header_len();
        assert_eq!((got, &b[at..at + len]), (ty.code(), payload));
        at += len;
    }
    assert_eq!(at, b.len());
}
