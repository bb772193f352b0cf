//! What can go wrong, and how it is put into words.

use vstd::prelude::*;

use crate::text;

verus! {

/// `std::io::Error`, carried along as it is.
#[verifier::external_type_specification]
#[verifier::external_body]
pub struct ExIoError(std::io::Error);

/// Errors of the control protocol.
#[derive(Debug)]
pub enum Error {
    /// Could not connect to (or lost connection with) the lldpd control socket.
    Io(std::io::Error),
    /// The daemon answered with a message type that was not asked for.
    UnexpectedMessageType { expected: u32, got: u32 },
    /// lldpd could not honor the request (interface not found, or feature
    /// disabled).
    RequestRejected,
    /// The bytes do not have the shape of lldpd's control protocol. That
    /// protocol changes from version to version, so this is what a daemon of
    /// another version gives.
    Protocol(String),
}

impl Error {
    /// This error says, in words, that `fault` was found.
    pub open spec fn reports(self, fault: Malformed) -> bool {
        self is Protocol && self->Protocol_0@ == fault.text()
    }

    /// The two errors say the same.
    pub open spec fn same_as(self, other: Error) -> bool {
        match (self, other) {
            (Error::Io(e), Error::Io(f)) => e == f,
            (
                Error::UnexpectedMessageType { expected, got },
                Error::UnexpectedMessageType { expected: also_expected, got: also_got },
            ) => expected == also_expected && got == also_got,
            (Error::RequestRejected, Error::RequestRejected) => true,
            (Error::Protocol(m), Error::Protocol(n)) => m@ == n@,
            _ => false,
        }
    }
}

/// Why bytes are not a message.
#[derive(Clone, Copy, Debug, PartialEq, Eq, Structural)]
pub enum Malformed {
    /// `need` bytes were to follow at `offset`, beyond the `have` there are.
    Truncated { need: usize, offset: usize, have: usize },
    /// Fewer bytes than the structure takes.
    ShortStruct { need: usize, got: usize },
    /// A chunk that declares less than its own header.
    ShortLeaf { declared: usize, header: usize },
    /// A chunk that declares less than its header and its structure.
    ShortChunk { declared: usize, header: usize, content: usize },
    /// A neighbor without a chassis.
    NoChassis,
    /// A local port with a successor.
    ChainedLocalPort,
    /// A notified port with a successor.
    ChainedNeighbor,
    /// A reply that announces more than a message can hold.
    Oversized { len: usize, cap: usize },
}

impl Malformed {
    /// The wording of the error.
    pub open spec fn text(self) -> Seq<char> {
        match self {
            Malformed::Truncated { need, offset, have } => "truncated message: need "@
                + text::decimal_text(need as nat) + " more bytes at offset "@ + text::decimal_text(
                offset as nat,
            ) + " (have "@ + text::decimal_text(have as nat) + ")"@,
            Malformed::ShortStruct { need, got } => "chunk too small: need "@
                + text::decimal_text(need as nat) + " bytes, got "@ + text::decimal_text(
                got as nat,
            ),
            Malformed::ShortLeaf { declared, header } => "chunk declares "@
                + text::decimal_text(declared as nat) + " bytes, smaller than its own "@
                + text::decimal_text(header as nat) + "-byte header"@,
            Malformed::ShortChunk { declared, header, content } => "chunk declares "@
                + text::decimal_text(declared as nat) + " bytes, too small for its own "@
                + text::decimal_text(header as nat) + "-byte header plus the "@
                + text::decimal_text(content as nat) + "-byte struct it contains"@,
            Malformed::NoChassis => "neighbor port has no associated chassis"@,
            Malformed::ChainedLocalPort => "local port unexpectedly chained to another port"@,
            Malformed::ChainedNeighbor =>
                "notified neighbor unexpectedly chained to another port"@,
            Malformed::Oversized { len, cap } => "reply announces a "@
                + text::decimal_text(len as nat) + "-byte payload, larger than the "@
                + text::decimal_text(cap as nat) + "-byte cap"@,
        }
    }

    /// Puts the error into words.
    pub fn message(&self) -> (s: String)
        ensures
            s@ == self.text(),
    {
        let mut s = String::new();
        match *self {
            Malformed::Truncated { need, offset, have } => {
                s.append("truncated message: need ");
                text::push_decimal(&mut s, need);
                s.append(" more bytes at offset ");
                text::push_decimal(&mut s, offset);
                s.append(" (have ");
                text::push_decimal(&mut s, have);
                s.append(")");
            },
            Malformed::ShortStruct { need, got } => {
                s.append("chunk too small: need ");
                text::push_decimal(&mut s, need);
                s.append(" bytes, got ");
                text::push_decimal(&mut s, got);
            },
            Malformed::ShortLeaf { declared, header } => {
                s.append("chunk declares ");
                text::push_decimal(&mut s, declared);
                s.append(" bytes, smaller than its own ");
                text::push_decimal(&mut s, header);
                s.append("-byte header");
            },
            Malformed::ShortChunk { declared, header, content } => {
                s.append("chunk declares ");
                text::push_decimal(&mut s, declared);
                s.append(" bytes, too small for its own ");
                text::push_decimal(&mut s, header);
                s.append("-byte header plus the ");
                text::push_decimal(&mut s, content);
                s.append("-byte struct it contains");
            },
            Malformed::NoChassis => {
                s.append("neighbor port has no associated chassis");
            },
            Malformed::ChainedLocalPort => {
                s.append("local port unexpectedly chained to another port");
            },
            Malformed::ChainedNeighbor => {
                s.append("notified neighbor unexpectedly chained to another port");
            },
            Malformed::Oversized { len, cap } => {
                s.append("reply announces a ");
                text::push_decimal(&mut s, len);
                s.append("-byte payload, larger than the ");
                text::push_decimal(&mut s, cap);
                s.append("-byte cap");
            },
        }
        assert(s@ =~= self.text());
        s
    }

    /// The error to report.
    pub fn into_error(self) -> (e: Error)
        ensures
            e.reports(self),
    {
        Error::Protocol(self.message())
    }
}

/// Each fault says what is wrong, with its numbers in decimal.
pub proof fn faults_say_what_is_wrong(a: usize, b: usize, c: usize)
    ensures
        ({
            let a_text = text::decimal_text(a as nat);
            let b_text = text::decimal_text(b as nat);
            let c_text = text::decimal_text(c as nat);
            &&& (Malformed::Truncated { need: a, offset: b, have: c }).text()
                == "truncated message: need "@ + a_text + " more bytes at offset "@ + b_text
                + " (have "@ + c_text + ")"@
            &&& (Malformed::ShortStruct { need: a, got: b }).text() == "chunk too small: need "@
                + a_text + " bytes, got "@ + b_text
            &&& (Malformed::ShortLeaf { declared: a, header: b }).text() == "chunk declares "@
                + a_text + " bytes, smaller than its own "@ + b_text + "-byte header"@
            &&& (Malformed::ShortChunk { declared: a, header: b, content: c }).text()
                == "chunk declares "@ + a_text + " bytes, too small for its own "@ + b_text
                + "-byte header plus the "@ + c_text + "-byte struct it contains"@
            &&& (Malformed::NoChassis).text() == "neighbor port has no associated chassis"@
            &&& (Malformed::ChainedLocalPort).text()
                == "local port unexpectedly chained to another port"@
            &&& (Malformed::ChainedNeighbor).text()
                == "notified neighbor unexpectedly chained to another port"@
            &&& (Malformed::Oversized { len: a, cap: b }).text() == "reply announces a "@ + a_text
                + "-byte payload, larger than the "@ + b_text + "-byte cap"@
        }),
{
}

/// An error reports a fault by being a protocol error with the fault's words.
pub proof fn reports_are_protocol_errors(e: Error, fault: Malformed)
    ensures
        e.reports(fault) <==> (e matches Error::Protocol(m) && m@ == fault.text()),
{
}

} // verus!
