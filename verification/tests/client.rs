use rlldpctl::client::{
    acknowledged, interface_reply, interface_request, interfaces_reply, interfaces_request, keep,
    set_port_description_request, subscribe_request,
};
use rlldpctl::subscription::{header_received, next_change, payload_received, turn};
use rlldpctl::transport::{encode_header, encode_request, header_len, HmsgType, HMSG_MAX_SIZE};
use rlldpctl::wire::{encode_interface_name_request, encode_set_port_description_request};
use rlldpctl::{
    Awaiting, Error, Incoming, InterfaceDetails, NeighborChange, NeighborChangeKind, Received,
    DEFAULT_SOCKET_PATH,
};

const PTR_SIZE: usize = std::mem::size_of::<usize>();

fn push_chunk(buf: &mut Vec<u8>, orig: usize, body: &[u8]) {
    let p = (PTR_SIZE - buf.len() % PTR_SIZE) % PTR_SIZE;
    buf.extend(std::iter::repeat_n(0u8, p));
    buf.extend_from_slice(&orig.to_ne_bytes());
    buf.extend_from_slice(&(2 * PTR_SIZE + body.len()).to_ne_bytes());
    buf.extend_from_slice(body);
}

fn words(values: &[usize]) -> Vec<u8> {
    values.iter().flat_map(|v| v.to_ne_bytes()).collect()
}

fn one_interface() -> Vec<u8> {
    let mut payload = Vec::new();
    push_chunk(&mut payload, 1, &words(&[2, 0]));
    push_chunk(&mut payload, 2, &words(&[0, 0, 3, 0]));
    push_chunk(&mut payload, 3, b"eth0\0");
    payload
}

fn details(name: &str) -> InterfaceDetails {
    InterfaceDetails {
        name: name.to_string(),
        alias: None,
        mac_address: [0; 6],
        local_chassis: None,
        neighbors: Vec::new(),
    }
}

#[test]
fn lldpd_listens_at_its_usual_place() {
    assert_eq!(DEFAULT_SOCKET_PATH, "/var/run/lldpd.socket");
}

#[test]
fn requests_are_framed() {
    assert_eq!(
        interfaces_request(),
        encode_request(HmsgType::GetInterfaces, &[])
    );
    assert_eq!(subscribe_request(), encode_request(HmsgType::Subscribe, &[]));
    assert_eq!(
        interface_request("eth0"),
        encode_request(
            HmsgType::GetInterface,
            &encode_interface_name_request("eth0")
        )
    );
    assert_eq!(
        set_port_description_request("eth0", "uplink"),
        encode_request(
            HmsgType::SetPort,
            &encode_set_port_description_request("eth0", "uplink")
        )
    );
}

#[test]
fn an_interface_request_is_these_bytes() {
    let mut expected = Vec::new();
    expected.extend_from_slice(&6i32.to_ne_bytes());
    expected.resize(PTR_SIZE, 0);
    expected.extend_from_slice(&(2 * PTR_SIZE + 3).to_ne_bytes());
    expected.extend_from_slice(&words(&[1, 2 * PTR_SIZE + 3]));
    expected.extend_from_slice(b"lo\0");
    assert_eq!(interface_request("lo"), expected);
}

#[test]
fn a_list_of_interfaces_is_read_from_its_reply() {
    let list = interfaces_reply(3, one_interface()).unwrap();
    assert_eq!(list.len(), 1);
    assert_eq!(list[0].name, "eth0");
    assert_eq!(list[0].alias, None);
}

#[test]
fn a_rejection_is_no_answer_whatever_it_carries() {
    assert!(matches!(
        interfaces_reply(0, one_interface()),
        Err(Error::RequestRejected)
    ));
    assert!(matches!(
        interface_reply(0, Vec::new()),
        Err(Error::RequestRejected)
    ));
    assert!(matches!(
        acknowledged(HmsgType::SetPort, 0, Vec::new()),
        Err(Error::RequestRejected)
    ));
}

#[test]
fn another_reply_is_no_answer() {
    assert!(matches!(
        interfaces_reply(6, one_interface()),
        Err(Error::UnexpectedMessageType {
            expected: 3,
            got: 6
        })
    ));
    assert!(matches!(
        acknowledged(HmsgType::Subscribe, 8, Vec::new()),
        Err(Error::UnexpectedMessageType {
            expected: 9,
            got: 8
        })
    ));
}

#[test]
fn a_reply_that_cannot_be_read_is_a_protocol_error() {
    assert!(matches!(
        interface_reply(6, vec![1, 2, 3]),
        Err(Error::Protocol(_))
    ));
}

#[test]
fn an_empty_acknowledgement_grants_the_request() {
    assert!(acknowledged(HmsgType::SetPort, 8, Vec::new()).is_ok());
    assert!(acknowledged(HmsgType::Subscribe, 9, vec![1]).is_ok());
}

#[test]
fn interfaces_that_are_gone_are_left_out() {
    let mut all = Vec::new();
    keep(&mut all, Ok(details("eth0"))).unwrap();
    keep(&mut all, Err(Error::RequestRejected)).unwrap();
    keep(&mut all, Ok(details("eth2"))).unwrap();
    assert_eq!(all, vec![details("eth0"), details("eth2")]);
}

#[test]
fn any_other_error_ends_the_batch() {
    let mut all = vec![details("eth0")];
    let r = keep(
        &mut all,
        Err(Error::UnexpectedMessageType {
            expected: 6,
            got: 3,
        }),
    );
    assert!(matches!(
        r,
        Err(Error::UnexpectedMessageType {
            expected: 6,
            got: 3
        })
    ));
    assert_eq!(all, vec![details("eth0")]);
}

#[test]
fn only_a_closed_connection_ends_a_subscription() {
    assert!(next_change(Incoming::Closed).is_none());
    assert!(next_change(Incoming::Payload(Vec::new())).unwrap().is_err());
    assert!(matches!(
        next_change(Incoming::Failed(Error::RequestRejected)),
        Some(Err(Error::RequestRejected))
    ));
}

fn notification(kind: i32) -> Vec<u8> {
    let mut payload = Vec::new();
    let mut body = words(&[7, 0]);
    body.extend_from_slice(&kind.to_ne_bytes());
    body.resize(3 * PTR_SIZE, 0);
    body.extend_from_slice(&words(&[0]));
    push_chunk(&mut payload, 1, &body);
    push_chunk(&mut payload, 7, b"eth0\0");
    payload
}

/// A connection on which these bytes arrive before it closes.
struct Wire(Vec<u8>);

impl Wire {
    fn read(&mut self, len: usize) -> Received {
        if self.0.len() < len {
            self.0.clear();
            return Received::Ended;
        }
        let rest = self.0.split_off(len);
        Received::Bytes(std::mem::replace(&mut self.0, rest))
    }

    fn next(&mut self) -> Option<Result<NeighborChange, Error>> {
        match header_received(self.read(header_len())) {
            Awaiting::Item(item) => item,
            Awaiting::Payload { got, len } => payload_received(got, self.read(len)),
        }
    }
}

#[test]
fn a_notification_is_an_item() {
    let change = next_change(Incoming::Payload(notification(1)))
        .unwrap()
        .unwrap();
    assert_eq!(change.interface, "eth0");
    assert_eq!(change.kind, NeighborChangeKind::Added);
    assert!(change.neighbor.is_none());
}

#[test]
fn ends_cleanly_when_lldpd_closes_the_connection() {
    let mut wire = Wire(Vec::new());
    assert!(wire.next().is_none());
}

#[test]
fn surfaces_a_decode_error_without_treating_it_as_end_of_stream() {
    let ptr_size = std::mem::size_of::<usize>();
    let mut frame = vec![0u8; 4];
    frame[0..4].copy_from_slice(&10i32.to_ne_bytes());
    let pad = (ptr_size - 4 % ptr_size) % ptr_size;
    frame.extend(std::iter::repeat_n(0u8, pad));
    frame.extend_from_slice(&0usize.to_ne_bytes());
    let mut wire = Wire(frame);
    assert!(wire.next().unwrap().is_err());
}

#[test]
fn next_change_ends_cleanly_when_lldpd_closes_the_connection() {
    let mut wire = Wire(Vec::new());
    assert_eq!(turn(wire.next()).unwrap(), None);
}

#[test]
fn notifications_come_out_in_order() {
    let mut bytes = Vec::new();
    for payload in [notification(1), vec![1, 2, 3], Vec::new(), notification(-1)] {
        bytes.extend(encode_request(HmsgType::Notification, &payload));
    }
    let mut wire = Wire(bytes);
    assert_eq!(
        wire.next().unwrap().unwrap().kind,
        NeighborChangeKind::Added
    );
    assert!(matches!(wire.next(), Some(Err(Error::Protocol(_)))));
    assert!(matches!(wire.next(), Some(Err(Error::Protocol(_)))));
    assert_eq!(
        wire.next().unwrap().unwrap().kind,
        NeighborChangeKind::Deleted
    );
    assert!(wire.next().is_none());
}

#[test]
fn other_messages_are_errors_among_the_items() {
    let mut bytes = encode_request(HmsgType::NoMessage, b"x");
    bytes.extend(encode_request(HmsgType::GetInterface, b"yz"));
    bytes.extend(encode_request(HmsgType::Notification, &notification(0)));
    bytes.extend(&encode_header(HmsgType::Notification, 5)[..3]);
    let mut wire = Wire(bytes);
    assert!(matches!(wire.next(), Some(Err(Error::RequestRejected))));
    assert!(matches!(
        wire.next(),
        Some(Err(Error::UnexpectedMessageType {
            expected: 10,
            got: 6
        }))
    ));
    assert_eq!(
        wire.next().unwrap().unwrap().kind,
        NeighborChangeKind::Updated
    );
    assert!(wire.next().is_none());
}

#[test]
fn a_payload_that_stops_short_ends_the_subscription() {
    let mut bytes = encode_request(HmsgType::Notification, &notification(1));
    bytes.pop();
    assert!(Wire(bytes).next().is_none());
}

#[test]
fn too_large_an_announcement_is_an_error() {
    let mut wire = Wire(encode_header(HmsgType::Notification, HMSG_MAX_SIZE + 1));
    match wire.next() {
        Some(Err(Error::Protocol(m))) => assert_eq!(
            m,
            "reply announces a 524289-byte payload, larger than the 524288-byte cap"
        ),
        other => panic!("{other:?}"),
    }
}

#[test]
fn a_short_header_or_a_failed_read_is_no_payload() {
    assert!(matches!(
        header_received(Received::Bytes(vec![0; header_len() - 1])),
        Awaiting::Item(None)
    ));
    assert!(matches!(
        header_received(Received::Failed(Error::RequestRejected)),
        Awaiting::Item(Some(Err(Error::RequestRejected)))
    ));
    assert!(matches!(
        payload_received(10, Received::Failed(Error::RequestRejected)),
        Some(Err(Error::RequestRejected))
    ));
}

#[test]
fn subscriptions_agree() {
    let mut bytes = encode_request(HmsgType::Notification, &notification(1));
    bytes.extend(encode_request(HmsgType::Notification, b"?"));
    let mut one = Wire(bytes.clone());
    let mut other = Wire(bytes);
    let change = one.next().unwrap().unwrap();
    assert_eq!(turn(other.next()).unwrap(), Some(change));
    match (one.next(), turn(other.next())) {
        (Some(Err(Error::Protocol(a))), Err(Error::Protocol(b))) => assert_eq!(a, b),
        other => panic!("{other:?}"),
    }
    assert!(one.next().is_none());
    assert_eq!(turn(other.next()).unwrap(), None);
}
