//! Notifications of neighbor changes.
//!
//! A subscriber reads a header, as many bytes of payload as the header
//! announces, and so on; it writes nothing. [`header_received`] and
//! [`payload_received`] decide what comes of each read, so that every
//! subscription over whatever kind of connection gives the same items.

use vstd::prelude::*;

use crate::error::{Error, Malformed};
use crate::model::{NeighborChange, NeighborChangeModel};
use crate::transport;
use crate::transport::{accept, announced, HmsgType, HMSG_MAX_SIZE};
use crate::wire::abi;
use crate::wire::cursor;
use crate::wire::cursor::Step;
use crate::wire::decode;
use crate::wire::decode::decode_neighbor_change;
use crate::wire::pod;

verus! {

/// What waiting for the next notification has brought.
pub enum Incoming {
    /// A notification's payload.
    Payload(Vec<u8>),
    /// lldpd closed the connection.
    Closed,
    /// Anything else went wrong.
    Failed(Error),
}

/// The next item of a subscription. Only a closed connection ends it: a
/// notification that cannot be read is an error among the items.
pub fn next_change(incoming: Incoming) -> (r: Option<Result<NeighborChange, Error>>)
    ensures
        match incoming {
            Incoming::Payload(payload) => r is Some && decode::decoded(
                r->Some_0,
                decode::neighbor_change_step(payload@),
            ),
            Incoming::Closed => r is None,
            Incoming::Failed(e) => r == Some(Err::<NeighborChange, Error>(e)),
        },
{
    match incoming {
        Incoming::Payload(payload) => Some(decode_neighbor_change(&payload)),
        Incoming::Closed => None,
        Incoming::Failed(e) => Some(Err(e)),
    }
}

/// What one read has brought.
pub enum Received {
    /// The bytes that were asked for.
    Bytes(Vec<u8>),
    /// lldpd closed the connection before that.
    Ended,
    /// Anything else went wrong.
    Failed(Error),
}

/// What a subscriber does next.
pub enum Awaiting {
    /// Read a payload of `len` bytes, of a message of type `got`.
    Payload { got: i32, len: usize },
    /// Give this item.
    Item(Option<Result<NeighborChange, Error>>),
}

/// What comes of the bytes of one message.
pub enum Outcome {
    /// They stop short: lldpd closed the connection.
    Closed,
    /// They are a notification, which reads like this.
    Notification(Step<NeighborChangeModel>),
    /// They announce more than a message can hold.
    Oversized(usize),
    /// They are a rejection.
    Rejected,
    /// They are a message of another type.
    Unexpected(i32),
}

/// `item` is what the outcome says.
pub open spec fn comes_out(item: Option<Result<NeighborChange, Error>>, outcome: Outcome) -> bool {
    match outcome {
        Outcome::Closed => item is None,
        Outcome::Notification(step) => item is Some && decode::decoded(item->Some_0, step),
        Outcome::Oversized(len) => item is Some && item->Some_0 is Err
            && item->Some_0->Err_0.reports(Malformed::Oversized { len, cap: HMSG_MAX_SIZE }),
        Outcome::Rejected => item matches Some(Err(Error::RequestRejected)),
        Outcome::Unexpected(got) => item matches Some(
            Err(Error::UnexpectedMessageType { expected: e, got: g }),
        ) && e == HmsgType::Notification.number() && g == got as u32,
    }
}

/// The type and the length that a header announces, or what comes of it
/// without a payload.
pub open spec fn header_outcome(b: Seq<u8>) -> Result<(i32, usize), Outcome> {
    if b.len() < cursor::header_width() {
        Err(Outcome::Closed)
    } else if transport::header_payload_len(b) > HMSG_MAX_SIZE {
        Err(Outcome::Oversized(transport::header_payload_len(b)))
    } else {
        Ok((transport::header_type(b), transport::header_payload_len(b)))
    }
}

/// What comes of a message of type `got`.
pub open spec fn payload_outcome(got: i32, payload: Seq<u8>) -> Outcome {
    if got == 0 {
        Outcome::Rejected
    } else if got != HmsgType::Notification.number() {
        Outcome::Unexpected(got)
    } else {
        Outcome::Notification(decode::neighbor_change_step(payload))
    }
}

/// `r` is what a subscriber does next, once reading a header has brought
/// `header`.
pub open spec fn follows_header(header: Received, r: Awaiting) -> bool {
    match header {
        Received::Bytes(b) => match (r, header_outcome(b@)) {
            (Awaiting::Payload { got, len }, Ok(announced)) => announced == (got, len),
            (Awaiting::Item(item), Err(outcome)) => comes_out(item, outcome),
            _ => false,
        },
        Received::Ended => r matches Awaiting::Item(item) && item is None,
        Received::Failed(e) => r == Awaiting::Item(Some(Err::<NeighborChange, Error>(e))),
    }
}

/// `item` is what a subscriber gives, once reading the payload of a message
/// of type `got` has brought `payload`.
pub open spec fn follows_payload(
    got: i32,
    payload: Received,
    item: Option<Result<NeighborChange, Error>>,
) -> bool {
    match payload {
        Received::Bytes(b) => comes_out(item, payload_outcome(got, b@)),
        Received::Ended => item is None,
        Received::Failed(e) => item == Some(Err::<NeighborChange, Error>(e)),
    }
}

/// Takes in what reading a header has brought.
pub fn header_received(header: Received) -> (r: Awaiting)
    ensures
        follows_header(header, r),
{
    let bytes = match header {
        Received::Bytes(bytes) => bytes,
        Received::Ended => {
            return Awaiting::Item(next_change(Incoming::Closed));
        },
        Received::Failed(e) => {
            return Awaiting::Item(next_change(Incoming::Failed(e)));
        },
    };
    if bytes.len() < 2 * pod::ptr_size() {
        return Awaiting::Item(next_change(Incoming::Closed));
    }
    match announced(&bytes) {
        Ok((got, len)) => Awaiting::Payload { got, len },
        Err(e) => Awaiting::Item(next_change(Incoming::Failed(e))),
    }
}

/// Takes in what reading the payload of a message of type `got` has brought.
pub fn payload_received(got: i32, payload: Received) -> (r: Option<
    Result<NeighborChange, Error>,
>)
    ensures
        follows_payload(got, payload, r),
{
    let incoming = match payload {
        Received::Bytes(bytes) => match accept(HmsgType::Notification, got, bytes) {
            Ok(payload) => Incoming::Payload(payload),
            Err(e) => Incoming::Failed(e),
        },
        Received::Ended => Incoming::Closed,
        Received::Failed(e) => Incoming::Failed(e),
    };
    next_change(incoming)
}

/// `r` is `item`, with the end of the subscription as a success.
pub open spec fn turned(
    item: Option<Result<NeighborChange, Error>>,
    r: Result<Option<NeighborChange>, Error>,
) -> bool {
    match (item, r) {
        (None, Ok(None)) => true,
        (Some(Ok(change)), Ok(Some(same))) => change == same,
        (Some(Err(e)), Err(same)) => e == same,
        _ => false,
    }
}

/// The item, with the end of the subscription as a success.
pub fn turn(item: Option<Result<NeighborChange, Error>>) -> (r: Result<
    Option<NeighborChange>,
    Error,
>)
    ensures
        turned(item, r),
{
    match item {
        None => Ok(None),
        Some(Ok(change)) => Ok(Some(change)),
        Some(Err(e)) => Err(e),
    }
}

/// What a subscriber gets to whom lldpd sends `b` and then closes the
/// connection: a header, and the payload that it announces, each unless the
/// bytes stop short of it.
pub open spec fn next_outcome(b: Seq<u8>) -> Outcome {
    let head = cursor::header_width() as int;
    match header_outcome(
        if b.len() < head {
            b
        } else {
            b.take(head)
        },
    ) {
        Err(outcome) => outcome,
        Ok((got, len)) => if b.len() < head + len {
            Outcome::Closed
        } else {
            payload_outcome(got, b.subrange(head, head + len))
        },
    }
}

/// What that subscriber has not yet read by then.
pub open spec fn unread(b: Seq<u8>) -> Seq<u8> {
    let head = cursor::header_width() as int;
    if b.len() < head {
        Seq::empty()
    } else {
        match header_outcome(b.take(head)) {
            Err(_) => b.skip(head),
            Ok((_, len)) => if b.len() < head + len {
                Seq::empty()
            } else {
                b.skip(head + len)
            },
        }
    }
}

/// What is unread after `n` items.
pub open spec fn unread_after(b: Seq<u8>, n: nat) -> Seq<u8>
    decreases n,
{
    if n == 0 {
        b
    } else {
        unread_after(unread(b), (n - 1) as nat)
    }
}

/// The parts of a header are in the header alone.
proof fn lemma_header_alone(b: Seq<u8>)
    requires
        b.len() >= cursor::header_width(),
    ensures
        transport::header_type(b.take(cursor::header_width() as int)) == transport::header_type(b),
        transport::header_payload_len(b.take(cursor::header_width() as int))
            == transport::header_payload_len(b),
{
    transport::lemma_length_offset();
    pod::lemma_ptr_width();
    let w = pod::ptr_width() as int;
    let head = b.take(2 * w);
    assert(head.subrange(0, 4) =~= b.subrange(0, 4));
    assert(head.subrange(w, 2 * w) =~= b.subrange(w, 2 * w));
}

/// `received` is what reading `n` bytes brings, where `b` comes before lldpd
/// closes the connection.
pub open spec fn brings(b: Seq<u8>, n: nat, received: Received) -> bool {
    if b.len() < n {
        received is Ended
    } else {
        received matches Received::Bytes(bytes) && bytes@ == b.take(n as int)
    }
}

/// What comes behind that read.
pub open spec fn behind(b: Seq<u8>, n: nat) -> Seq<u8> {
    if b.len() < n {
        Seq::empty()
    } else {
        b.skip(n as int)
    }
}

/// A subscriber that reads a header, takes it in with [`header_received`],
/// and where that says so reads the payload and takes it in with
/// [`payload_received`], gives the item that `next_outcome` says, and leaves
/// unread what `unread` says.
pub proof fn reads_give_the_next_item(
    b: Seq<u8>,
    header: Received,
    first: Awaiting,
    payload: Received,
    item: Option<Result<NeighborChange, Error>>,
)
    requires
        brings(b, cursor::header_width(), header),
        follows_header(header, first),
        match first {
            Awaiting::Item(only) => item == only,
            Awaiting::Payload { got, len } => brings(
                behind(b, cursor::header_width()),
                len as nat,
                payload,
            ) && follows_payload(got, payload, item),
        },
    ensures
        comes_out(item, next_outcome(b)),
        unread(b) == (match first {
            Awaiting::Item(_) => behind(b, cursor::header_width()),
            Awaiting::Payload { got: _, len } => behind(
                behind(b, cursor::header_width()),
                len as nat,
            ),
        }),
{
    let head = cursor::header_width() as int;
    if let Awaiting::Payload { got, len } = first {
        if b.len() >= head + len {
            assert(b.skip(head).take(len as int) =~= b.subrange(head, head + len));
            assert(b.skip(head).skip(len as int) =~= b.skip(head + len));
        }
    }
}

/// Messages that lldpd sends back to back are taken one after the other: what
/// one of them holds neither ends the subscription nor shifts the others. The
/// subscription ends behind the last of them, when the connection closes,
/// even in the midst of a header.
pub proof fn messages_are_taken_in_order(
    messages: Seq<(HmsgType, Seq<u8>)>,
    rest: Seq<u8>,
    n: nat,
)
    requires
        transport::all_up_to(messages, HMSG_MAX_SIZE),
        rest.len() < cursor::header_width(),
        n <= messages.len(),
    ensures
        unread_after(transport::frames(messages) + rest, n) == transport::frames(
            messages.skip(n as int),
        ) + rest,
        next_outcome(unread_after(transport::frames(messages) + rest, n)) == (if n
            < messages.len() {
            payload_outcome(messages[n as int].0.number(), messages[n as int].1)
        } else {
            Outcome::Closed
        }),
    decreases n,
{
    let b = transport::frames(messages) + rest;
    if messages.len() == 0 {
        assert(messages.skip(0) =~= messages);
        assert(b =~= rest);
    } else {
        let (ty, payload) = messages[0];
        let tail = messages.drop_first();
        assert(messages[0].1.len() <= HMSG_MAX_SIZE);
        assert(transport::all_up_to(messages, usize::MAX));
        transport::frames_read_back(messages, rest, 0);
        assert(transport::after_messages(b, 0) == b);
        lemma_header_alone(b);
        if n == 0 {
            assert(messages.skip(0) =~= messages);
        } else {
            transport::frames_read_back(messages, rest, 1);
            assert(transport::after_messages(b, 1) == transport::after_message(b)) by {
                reveal_with_fuel(transport::after_messages, 2);
            }
            assert(messages.skip(1) =~= tail);
            assert(unread(b) == transport::frames(tail) + rest);
            assert forall|i: int| 0 <= i < tail.len() implies (#[trigger] tail[i]).1.len()
                <= HMSG_MAX_SIZE by {
                assert(tail[i] == messages[i + 1]);
            }
            messages_are_taken_in_order(tail, rest, (n - 1) as nat);
            assert(tail.skip(n - 1) =~= messages.skip(n as int));
            assert(n < messages.len() ==> tail[n - 1] == messages[n as int]);
        }
    }
}

/// Notifications with these payloads.
pub open spec fn notifications(payloads: Seq<Seq<u8>>) -> Seq<(HmsgType, Seq<u8>)> {
    payloads.map_values(|p: Seq<u8>| (HmsgType::Notification, p))
}

/// To a subscriber to whom lldpd sends notifications and then closes the
/// connection, the `n`-th item is what the `n`-th payload reads like, whether
/// it can be read or not, and behind the last of them the subscription ends.
pub proof fn notifications_come_out_in_order(payloads: Seq<Seq<u8>>, n: nat)
    requires
        forall|i: int| 0 <= i < payloads.len() ==> (#[trigger] payloads[i]).len() <= HMSG_MAX_SIZE,
        n <= payloads.len(),
    ensures
        next_outcome(unread_after(transport::frames(notifications(payloads)), n)) == (if n
            < payloads.len() {
            Outcome::Notification(decode::neighbor_change_step(payloads[n as int]))
        } else {
            Outcome::Closed
        }),
{
    let messages = notifications(payloads);
    let b = transport::frames(messages);
    assert forall|i: int| 0 <= i < messages.len() implies (#[trigger] messages[i]).1.len()
        <= HMSG_MAX_SIZE by {
        assert(messages[i].1 == payloads[i]);
    }
    pod::lemma_ptr_width();
    messages_are_taken_in_order(messages, Seq::empty(), n);
    assert(b + Seq::<u8>::empty() =~= b);
}

/// `r` says what `item` says.
pub open spec fn agrees(
    item: Option<Result<NeighborChange, Error>>,
    r: Result<Option<NeighborChange>, Error>,
) -> bool {
    match (item, r) {
        (None, Ok(None)) => true,
        (Some(Ok(change)), Ok(Some(other))) => change.deep_view() == other.deep_view(),
        (Some(Err(e)), Err(other)) => e.same_as(other),
        _ => false,
    }
}

/// Two subscriptions that receive the same bytes agree in every item, also
/// where one of them turns its items: the end of the one is `Ok(None)` of the
/// other, a change is the same change, and an error the same error.
pub proof fn subscriptions_agree(
    b: Seq<u8>,
    n: nat,
    item: Option<Result<NeighborChange, Error>>,
    other: Option<Result<NeighborChange, Error>>,
    r: Result<Option<NeighborChange>, Error>,
)
    requires
        comes_out(item, next_outcome(unread_after(b, n))),
        comes_out(other, next_outcome(unread_after(b, n))),
        turned(other, r),
    ensures
        agrees(item, r),
{
    if let Outcome::Notification(step) = next_outcome(unread_after(b, n)) {
        decode::decodings_agree(item->Some_0, other->Some_0, step);
    }
}

/// What an item is for each outcome: only a closed connection ends a
/// subscription.
pub proof fn only_closing_ends_a_subscription(
    item: Option<Result<NeighborChange, Error>>,
    outcome: Outcome,
)
    requires
        comes_out(item, outcome),
    ensures
        item is None <==> outcome is Closed,
        outcome is Rejected ==> (item matches Some(Err(Error::RequestRejected))),
        outcome matches Outcome::Unexpected(got) ==> (item matches Some(
            Err(Error::UnexpectedMessageType { expected, got: g }),
        ) && expected == 10 && g == (if got >= 0 {
            got as int
        } else {
            got + 0x1_0000_0000
        })),
        outcome matches Outcome::Oversized(len) ==> (item matches Some(Err(Error::Protocol(m)))
            && m@ == (Malformed::Oversized { len, cap: 524288 }).text()),
        outcome matches Outcome::Notification(step) ==> (item matches Some(Ok(change))
            && step.at.fault is None && change.deep_view() == step.value) || (item matches Some(
            Err(Error::Protocol(m)),
        ) && step.at.fault is Some && m@ == step.at.fault->Some_0.text()),
{
    if let Outcome::Unexpected(got) = outcome {
        assert(got >= 0 ==> (got as u32) == got) by (bit_vector);
        assert(got < 0 ==> (got as u32) == got + 0x1_0000_0000) by (bit_vector);
    }
}

/// Turning an item keeps what it says: the end is a success without a change,
/// a change is a success with it, and an error stays that error.
pub proof fn turning_keeps_the_item(
    item: Option<Result<NeighborChange, Error>>,
    r: Result<Option<NeighborChange>, Error>,
)
    requires
        turned(item, r),
    ensures
        item is None <==> r == Ok::<Option<NeighborChange>, Error>(None),
        item matches Some(Ok(change)) ==> r == Ok::<Option<NeighborChange>, Error>(Some(change)),
        item matches Some(Err(e)) ==> r == Err::<Option<NeighborChange>, Error>(e),
{
}

/// What a header of a subscriber's message leads to: the announced length
/// decides whether the payload is read.
pub proof fn headers_are_capped(b: Seq<u8>)
    ensures
        b.len() < 2 * pod::ptr_width() ==> header_outcome(b) == Err::<(i32, usize), Outcome>(
            Outcome::Closed,
        ),
        b.len() >= 2 * pod::ptr_width() ==> ({
            let len = abi::number_at(b, pod::ptr_width() as int, pod::ptr_width());
            let ty = abi::signed_32(abi::number_at(b, 0, 4));
            if len > 524288 {
                header_outcome(b) == Err::<(i32, usize), Outcome>(Outcome::Oversized(len as usize))
            } else {
                header_outcome(b) matches Ok((got, n)) && got == ty && n == len
            }
        }),
{
    if b.len() >= 2 * pod::ptr_width() {
        transport::headers_are_read_in_place(b);
    }
}

/// What a message of a subscriber is, by its type.
pub proof fn messages_are_told_by_their_type(got: i32, payload: Seq<u8>)
    ensures
        got == 0 ==> payload_outcome(got, payload) is Rejected,
        got == 10 ==> payload_outcome(got, payload) == Outcome::Notification(
            decode::neighbor_change_step(payload),
        ),
        got != 0 && got != 10 ==> payload_outcome(got, payload) == Outcome::Unexpected(got),
{
}

/// A read that fails is an item that says so, and does not end the
/// subscription; a read that finds the connection closed does.
pub proof fn failed_reads_are_items(
    e: Error,
    got: i32,
    failed: Awaiting,
    failed_item: Option<Result<NeighborChange, Error>>,
    ended: Awaiting,
    ended_item: Option<Result<NeighborChange, Error>>,
)
    requires
        follows_header(Received::Failed(e), failed),
        follows_payload(got, Received::Failed(e), failed_item),
        follows_header(Received::Ended, ended),
        follows_payload(got, Received::Ended, ended_item),
    ensures
        failed matches Awaiting::Item(Some(Err(f))) && f == e,
        failed_item matches Some(Err(f)) && f == e,
        ended matches Awaiting::Item(None),
        ended_item is None,
{
}

} // verus!
