//! The framing of messages: a header, and then as many bytes of payload as
//! the header announces.
//!
//! The header is C's `struct { enum type; size_t len; }`: a 4-byte message
//! type, zero bytes up to the pointer width, and a pointer-wide length.

use vstd::prelude::*;
use vstd::slice::slice_subrange;

use crate::error::{Error, Malformed};
use crate::wire::abi;
use crate::wire::cursor;
use crate::wire::layout;
use crate::wire::pod;
use crate::wire::pod::Pod;

pub use crate::wire::layout::align_up;

verus! {

/// The message types that are spoken here.
#[derive(Debug, Clone, Copy, PartialEq, Eq, Structural)]
pub enum HmsgType {
    /// lldpd's `NONE`, by which it rejects a request.
    NoMessage,
    GetInterfaces,
    GetInterface,
    SetPort,
    Subscribe,
    Notification,
}

impl HmsgType {
    /// lldpd's number for the type.
    pub open spec fn number(self) -> i32 {
        match self {
            HmsgType::NoMessage => 0,
            HmsgType::GetInterfaces => 3,
            HmsgType::GetInterface => 6,
            HmsgType::SetPort => 8,
            HmsgType::Subscribe => 9,
            HmsgType::Notification => 10,
        }
    }

    /// lldpd's number for the type.
    pub fn code(self) -> (n: i32)
        ensures
            n == self.number(),
    {
        match self {
            HmsgType::NoMessage => 0,
            HmsgType::GetInterfaces => 3,
            HmsgType::GetInterface => 6,
            HmsgType::SetPort => 8,
            HmsgType::Subscribe => 9,
            HmsgType::Notification => 10,
        }
    }

    pub fn matches(self, got: i32) -> (r: bool)
        ensures
            r == (got == self.number()),
    {
        self.code() == got
    }
}

/// The largest payload that is trusted: lldpd builds none that is larger.
pub const HMSG_MAX_SIZE: usize = 524288;

/// The offset of the length in a header.
pub open spec fn length_offset() -> nat {
    layout::align_up_to(4, pod::ptr_width())
}

/// A message header.
pub open spec fn header(ty: i32, len: usize) -> Seq<u8> {
    layout::zero_pad(ty.encode(), pod::ptr_width()) + len.encode()
}

/// A message: its header and its payload.
pub open spec fn frame(ty: HmsgType, payload: Seq<u8>) -> Seq<u8> {
    header(ty.number(), payload.len() as usize) + payload
}

/// The type in a header.
pub open spec fn header_type(b: Seq<u8>) -> i32 {
    i32::decode(b.subrange(0, 4))
}

/// The length in a header.
pub open spec fn header_payload_len(b: Seq<u8>) -> usize {
    usize::decode(
        b.subrange(length_offset() as int, (length_offset() + pod::ptr_width()) as int),
    )
}

pub(crate) proof fn lemma_length_offset()
    ensures
        length_offset() == pod::ptr_width(),
{
    pod::lemma_ptr_width();
    let w = pod::ptr_width();
    if w == 4 {
        assert(layout::align_up_to(4, 4) == 4);
    } else {
        assert(layout::align_up_to(4, 8) == 8);
    }
}

/// A header is as long as a chunk header, and gives back the type and the
/// length that went into it, whatever follows.
pub proof fn header_reads_back(ty: i32, len: usize, rest: Seq<u8>)
    ensures
        header(ty, len).len() == 2 * pod::ptr_width(),
        header_type(header(ty, len) + rest) == ty,
        header_payload_len(header(ty, len) + rest) == len,
{
    lemma_length_offset();
    ty.lemma_round_trip();
    len.lemma_round_trip();
    pod::lemma_ptr_width();
    let b = header(ty, len) + rest;
    assert(b.subrange(0, 4) =~= ty.encode());
    assert(b.subrange(
        length_offset() as int,
        (length_offset() + pod::ptr_width()) as int,
    ) =~= len.encode());
}

/// A message gives back its type and its payload, whatever follows it.
pub proof fn frame_reads_back(ty: HmsgType, payload: Seq<u8>, rest: Seq<u8>)
    requires
        payload.len() <= usize::MAX,
    ensures
        ({
            let b = frame(ty, payload) + rest;
            let n = header_payload_len(b) as int;
            &&& header_type(b) == ty.number()
            &&& n == payload.len()
            &&& b.subrange(cursor::header_width() as int, cursor::header_width() + n) == payload
        }),
{
    let head = header(ty.number(), payload.len() as usize);
    let b = frame(ty, payload) + rest;
    header_reads_back(ty.number(), payload.len() as usize, payload + rest);
    assert(b =~= head + (payload + rest));
    assert(b.subrange(
        cursor::header_width() as int,
        (cursor::header_width() + payload.len()) as int,
    ) =~= payload);
}

/// The bytes behind the first message of `b`.
pub open spec fn after_message(b: Seq<u8>) -> Seq<u8> {
    b.skip(cursor::header_width() + header_payload_len(b))
}

/// The bytes behind the first `n` messages of `b`.
pub open spec fn after_messages(b: Seq<u8>, n: nat) -> Seq<u8>
    decreases n,
{
    if n == 0 {
        b
    } else {
        after_messages(after_message(b), (n - 1) as nat)
    }
}

/// Messages back to back.
pub open spec fn frames(messages: Seq<(HmsgType, Seq<u8>)>) -> Seq<u8>
    decreases messages.len(),
{
    if messages.len() == 0 {
        Seq::empty()
    } else {
        frame(messages[0].0, messages[0].1) + frames(messages.drop_first())
    }
}

/// No payload is larger than `limit`.
pub open spec fn all_up_to(messages: Seq<(HmsgType, Seq<u8>)>, limit: usize) -> bool {
    forall|i: int| 0 <= i < messages.len() ==> (#[trigger] messages[i]).1.len() <= limit
}

/// Messages back to back read back one after the other: each by the length
/// that it announces, whatever its payload holds. Behind the last of them
/// comes what was put there.
pub proof fn frames_read_back(messages: Seq<(HmsgType, Seq<u8>)>, rest: Seq<u8>, n: nat)
    requires
        all_up_to(messages, usize::MAX),
        n <= messages.len(),
    ensures
        after_messages(frames(messages) + rest, n) == frames(messages.skip(n as int)) + rest,
        n < messages.len() ==> ({
            let b = after_messages(frames(messages) + rest, n);
            let (ty, payload) = messages[n as int];
            &&& header_type(b) == ty.number()
            &&& header_payload_len(b) == payload.len()
            &&& b.len() >= cursor::header_width() + payload.len()
            &&& b.subrange(
                cursor::header_width() as int,
                (cursor::header_width() + payload.len()) as int,
            ) == payload
        }),
    decreases n,
{
    let b = frames(messages) + rest;
    if messages.len() > 0 {
        let (ty, payload) = messages[0];
        let tail = messages.drop_first();
        let behind = frames(tail) + rest;
        assert(b =~= frame(ty, payload) + behind);
        frame_reads_back(ty, payload, behind);
        header_reads_back(ty.number(), payload.len() as usize, payload);
        if n == 0 {
            assert(messages.skip(0) =~= messages);
        } else {
            assert(after_message(b) =~= behind);
            assert forall|i: int| 0 <= i < tail.len() implies (#[trigger] tail[i]).1.len()
                <= usize::MAX by {
                assert(tail[i] == messages[i + 1]);
            }
            frames_read_back(tail, rest, (n - 1) as nat);
            assert(tail.skip(n - 1) =~= messages.skip(n as int));
            assert(n < messages.len() ==> tail[n - 1] == messages[n as int]);
        }
    } else {
        assert(messages.skip(0) =~= messages);
    }
}

/// A number stands for one type at most.
pub proof fn numbers_are_distinct(a: HmsgType, b: HmsgType)
    ensures
        a.number() == b.number() ==> a == b,
{
}

/// The length of a header.
pub fn header_len() -> (n: usize)
    ensures
        n == length_offset() + pod::ptr_width(),
        n == 2 * pod::ptr_width(),
{
    proof {
        lemma_length_offset();
    }
    let w = pod::ptr_size();
    align_up(4, w) + w
}

/// The header of a message with a payload of `payload_len` bytes.
pub fn encode_header(ty: HmsgType, payload_len: usize) -> (v: Vec<u8>)
    ensures
        v@ == header(ty.number(), payload_len),
{
    let mut buf = ty.code().to_bytes();
    layout::pad_to(&mut buf, pod::ptr_size());
    layout::append(&mut buf, &payload_len.to_bytes());
    buf
}

/// The type and the payload's length in a header.
pub fn decode_header(buf: &[u8]) -> (r: (i32, usize))
    requires
        buf@.len() >= 2 * pod::ptr_width(),
    ensures
        r.0 == header_type(buf@),
        r.1 == header_payload_len(buf@),
{
    proof {
        lemma_length_offset();
        assert(buf@.len() == buf.len());
    }
    let w = pod::ptr_size();
    let at = align_up(4, w);
    let ty = i32::from_bytes(slice_subrange(buf, 0, 4));
    let len = usize::from_bytes(slice_subrange(buf, at, at + w));
    (ty, len)
}

/// The bytes that make a request.
pub fn encode_request(ty: HmsgType, payload: &[u8]) -> (v: Vec<u8>)
    ensures
        v@ == frame(ty, payload@),
{
    assert(payload@.len() == payload.len());
    let mut out = encode_header(ty, payload.len());
    layout::append(&mut out, payload);
    out
}

/// What a header announces: the type of the message, and how many bytes of
/// payload are to be read. More than a message can hold is an error.
pub fn announced(buf: &[u8]) -> (r: Result<(i32, usize), Error>)
    requires
        buf@.len() >= 2 * pod::ptr_width(),
    ensures
        match r {
            Ok((ty, len)) => ty == header_type(buf@) && len == header_payload_len(buf@) && len
                <= HMSG_MAX_SIZE,
            Err(e) => header_payload_len(buf@) > HMSG_MAX_SIZE && e.reports(
                Malformed::Oversized { len: header_payload_len(buf@), cap: HMSG_MAX_SIZE },
            ),
        },
{
    let (ty, len) = decode_header(buf);
    if len > HMSG_MAX_SIZE {
        return Err(Malformed::Oversized { len, cap: HMSG_MAX_SIZE }.into_error());
    }
    Ok((ty, len))
}

/// What a message of type `got` is to one who waits for `expected`: its
/// payload, or an error. lldpd says no with a message of type `NONE`.
pub fn accept(expected: HmsgType, got: i32, payload: Vec<u8>) -> (r: Result<Vec<u8>, Error>)
    ensures
        match r {
            Ok(v) => got != 0 && got == expected.number() && v@ == payload@,
            Err(Error::RequestRejected) => got == 0,
            Err(Error::UnexpectedMessageType { expected: e, got: g }) => got != 0 && got
                != expected.number() && e == expected.number() && g == got as u32,
            Err(_) => false,
        },
{
    if HmsgType::NoMessage.matches(got) {
        return Err(Error::RequestRejected);
    }
    if !expected.matches(got) {
        return Err(
            Error::UnexpectedMessageType {
                expected: expected.code() as u32,
                got: #[verifier::truncate] (got as u32),
            },
        );
    }
    Ok(payload)
}

/// These are lldpd's numbers for the types, and its limit on a payload.
pub proof fn types_have_these_numbers(ty: HmsgType)
    ensures
        ty is NoMessage <==> ty.number() == 0,
        ty is GetInterfaces <==> ty.number() == 3,
        ty is GetInterface <==> ty.number() == 6,
        ty is SetPort <==> ty.number() == 8,
        ty is Subscribe <==> ty.number() == 9,
        ty is Notification <==> ty.number() == 10,
        HMSG_MAX_SIZE == 512 * 1024,
{
}

/// A header is read from its bytes: the type from the first four, and the
/// length from as many as a pointer has, behind as many.
pub proof fn headers_are_read_in_place(b: Seq<u8>)
    requires
        b.len() >= 2 * pod::ptr_width(),
    ensures
        header_type(b) == abi::signed_32(abi::number_at(b, 0, 4)),
        header_payload_len(b) == abi::number_at(b, pod::ptr_width() as int, pod::ptr_width()),
{
    lemma_length_offset();
    pod::lemma_ptr_width();
    abi::i32_in_place(b, 0);
    abi::usize_in_place(b, pod::ptr_width() as int);
}

/// A header is as long as two pointers, and what stands between the type and
/// the length is zero.
pub proof fn headers_are_padded_with_zeros(ty: i32, len: usize, i: int)
    requires
        4 <= i < pod::ptr_width(),
    ensures
        header(ty, len).len() == 2 * pod::ptr_width(),
        header(ty, len)[i] == 0,
{
    header_reads_back(ty, len, Seq::empty());
    ty.lemma_round_trip();
    lemma_length_offset();
}

} // verus!
