//! Requests and what their replies mean.
//!
//! A request is bytes to send. A reply is a message type and a payload, read
//! off the connection as [`crate::transport`] says. One connection carries one
//! request at a time.

use vstd::prelude::*;

use crate::error::Error;
use crate::model::{Interface, InterfaceDetails};
use crate::transport;
use crate::transport::{accept, encode_request, HmsgType};
use crate::wire::cursor::Step;
use crate::wire::decode;
use crate::wire::decode::{decode_hardware, decode_interfaces};
use crate::wire::encode;
use crate::wire::encode::{encode_interface_name_request, encode_set_port_description_request};

verus! {

/// Where lldpd listens, unless it is told otherwise.
pub const DEFAULT_SOCKET_PATH: &'static str = "/var/run/lldpd.socket";

/// `r` is what one who waits for `expected` makes of a message of type `got`,
/// when reading its payload gives `step`.
pub open spec fn replied<T: DeepView>(
    r: Result<T, Error>,
    expected: HmsgType,
    got: i32,
    step: Step<T::V>,
) -> bool {
    if got == 0 {
        r matches Err(Error::RequestRejected)
    } else if got != expected.number() {
        r matches Err(Error::UnexpectedMessageType { expected: e, got: g }) && e
            == expected.number() && g == got as u32
    } else {
        decode::decoded(r, step)
    }
}

/// The request for the list of interfaces.
pub fn interfaces_request() -> (v: Vec<u8>)
    ensures
        v@ == transport::frame(HmsgType::GetInterfaces, Seq::empty()),
{
    let nothing: Vec<u8> = Vec::new();
    encode_request(HmsgType::GetInterfaces, &nothing)
}

/// The list of interfaces in a reply.
pub fn interfaces_reply(got: i32, payload: Vec<u8>) -> (r: Result<Vec<Interface>, Error>)
    ensures
        replied(r, HmsgType::GetInterfaces, got, decode::interfaces_step(payload@)),
{
    let payload = accept(HmsgType::GetInterfaces, got, payload)?;
    decode_interfaces(&payload)
}

/// The request for one interface's details.
pub fn interface_request(ifname: &str) -> (v: Vec<u8>)
    ensures
        v@ == transport::frame(
            HmsgType::GetInterface,
            encode::leaf_chunk(1, encode::c_string(ifname@)),
        ),
{
    encode_request(HmsgType::GetInterface, &encode_interface_name_request(ifname))
}

/// One interface's details in a reply. An interface that lldpd does not know
/// is [`Error::RequestRejected`].
pub fn interface_reply(got: i32, payload: Vec<u8>) -> (r: Result<InterfaceDetails, Error>)
    ensures
        replied(r, HmsgType::GetInterface, got, decode::hardware_step(payload@)),
        r matches Ok(details) ==> decode::shares_chassis(
            details,
            decode::hardware_references(payload@),
        ),
{
    let payload = accept(HmsgType::GetInterface, got, payload)?;
    decode_hardware(&payload)
}

/// The request to override a port's description.
pub fn set_port_description_request(ifname: &str, description: &str) -> (v: Vec<u8>)
    ensures
        v@ == transport::frame(
            HmsgType::SetPort,
            encode::leaf_chunk(1, encode::port_set_content(ifname@, description@)),
        ),
{
    encode_request(
        HmsgType::SetPort,
        &encode_set_port_description_request(ifname, description),
    )
}

/// The request for notifications.
pub fn subscribe_request() -> (v: Vec<u8>)
    ensures
        v@ == transport::frame(HmsgType::Subscribe, Seq::empty()),
{
    let nothing: Vec<u8> = Vec::new();
    encode_request(HmsgType::Subscribe, &nothing)
}

/// Whether a reply grants the request `ty`, which asks for no data: its
/// payload does not matter.
pub fn acknowledged(ty: HmsgType, got: i32, payload: Vec<u8>) -> (r: Result<(), Error>)
    ensures
        match r {
            Ok(_) => got != 0 && got == ty.number(),
            Err(Error::RequestRejected) => got == 0,
            Err(Error::UnexpectedMessageType { expected: e, got: g }) => got != 0 && got
                != ty.number() && e == ty.number() && g == got as u32,
            Err(_) => false,
        },
{
    accept(ty, got, payload)?;
    Ok(())
}

/// The details gathered once one more interface has been asked for: an
/// interface that is gone by then is left out, and any other error ends it.
pub open spec fn kept(
    details: Seq<InterfaceDetails>,
    answer: Result<InterfaceDetails, Error>,
) -> Result<Seq<InterfaceDetails>, Error> {
    match answer {
        Ok(found) => Ok(details.push(found)),
        Err(Error::RequestRejected) => Ok(details),
        Err(e) => Err(e),
    }
}

/// What comes of asking for several interfaces in turn.
pub open spec fn batch(answers: Seq<Result<InterfaceDetails, Error>>) -> Result<
    Seq<InterfaceDetails>,
    Error,
>
    decreases answers.len(),
{
    if answers.len() == 0 {
        Ok(Seq::empty())
    } else {
        match batch(answers.drop_last()) {
            Ok(details) => kept(details, answers.last()),
            Err(e) => Err(e),
        }
    }
}

/// Takes in the answer on one more interface.
pub fn keep(details: &mut Vec<InterfaceDetails>, answer: Result<InterfaceDetails, Error>) -> (r:
    Result<(), Error>)
    ensures
        match (r, kept(old(details)@, answer)) {
            (Ok(_), Ok(all)) => final(details)@ == all,
            (Err(e), Err(error)) => e == error && final(details)@ == old(details)@,
            _ => false,
        },
{
    match answer {
        Ok(found) => {
            details.push(found);
            Ok(())
        },
        Err(Error::RequestRejected) => Ok(()),
        Err(e) => Err(e),
    }
}

/// An answer that does not end a batch.
pub open spec fn is_harmless(answer: Result<InterfaceDetails, Error>) -> bool {
    answer is Ok || answer matches Err(Error::RequestRejected)
}

/// The details among the answers.
pub open spec fn found(answers: Seq<Result<InterfaceDetails, Error>>) -> Seq<InterfaceDetails> {
    answers.filter(|a: Result<InterfaceDetails, Error>| a is Ok).map_values(
        |a: Result<InterfaceDetails, Error>| a->Ok_0,
    )
}

/// Interfaces that disappear while the others are asked for do not fail the
/// batch: it gives all the details that were found, in the order of asking.
pub proof fn batch_gives_what_was_found(answers: Seq<Result<InterfaceDetails, Error>>)
    requires
        forall|i: int| 0 <= i < answers.len() ==> is_harmless(#[trigger] answers[i]),
    ensures
        batch(answers) == Ok::<Seq<InterfaceDetails>, Error>(found(answers)),
    decreases answers.len(),
{
    reveal(Seq::filter);
    if answers.len() == 0 {
        assert(found(answers) =~= Seq::empty());
    } else {
        let before = answers.drop_last();
        let last = answers.last();
        assert(is_harmless(answers[answers.len() - 1]));
        assert forall|i: int| 0 <= i < before.len() implies is_harmless(#[trigger] before[i]) by {
            assert(is_harmless(answers[i]));
        }
        batch_gives_what_was_found(before);
        if last is Ok {
            assert(found(answers) =~= found(before).push(last->Ok_0));
        } else {
            assert(found(answers) =~= found(before));
        }
    }
}

/// The first answer that is neither details nor a rejection is what the batch
/// gives, whatever comes after it.
pub proof fn batch_fails_with_the_first_error(
    answers: Seq<Result<InterfaceDetails, Error>>,
    n: int,
)
    requires
        0 <= n < answers.len(),
        !is_harmless(answers[n]),
        forall|i: int| 0 <= i < n ==> is_harmless(#[trigger] answers[i]),
    ensures
        batch(answers) == Err::<Seq<InterfaceDetails>, Error>(answers[n]->Err_0),
    decreases answers.len(),
{
    let before = answers.drop_last();
    if n == answers.len() - 1 {
        assert forall|i: int| 0 <= i < before.len() implies is_harmless(#[trigger] before[i]) by {
            assert(is_harmless(answers[i]));
        }
        batch_gives_what_was_found(before);
    } else {
        assert forall|i: int| 0 <= i < n implies is_harmless(#[trigger] before[i]) by {
            assert(is_harmless(answers[i]));
        }
        batch_fails_with_the_first_error(before, n);
    }
}

/// A reply of type `NONE` is a rejection, a reply of another type than was
/// asked for is an error that says so, and any other reply is read.
pub proof fn replies_are_told_by_their_type<T: DeepView>(
    r: Result<T, Error>,
    expected: HmsgType,
    got: i32,
    step: Step<T::V>,
)
    requires
        replied(r, expected, got, step),
    ensures
        got == 0 ==> (r matches Err(Error::RequestRejected)),
        got != 0 && got != expected.number() ==> (r matches Err(
            Error::UnexpectedMessageType { expected: e, got: g },
        ) && e == expected.number() && g == (if got > 0 {
            got as int
        } else {
            got + 0x1_0000_0000
        })),
        got != 0 && got == expected.number() && step.at.fault is None ==> (r matches Ok(v)
            && v.deep_view() == step.value),
        got != 0 && got == expected.number() && step.at.fault is Some ==> (r matches Err(
            Error::Protocol(m),
        ) && m@ == step.at.fault->Some_0.text()),
{
    assert(got > 0 ==> (got as u32) == got) by (bit_vector);
    assert(got < 0 ==> (got as u32) == got + 0x1_0000_0000) by (bit_vector);
}

} // verus!
