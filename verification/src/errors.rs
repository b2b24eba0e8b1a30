//! The error taxonomy of the engine: parse and decode failures are
//! recoverable and confined to one datagram, encode failures are confined
//! to one reply, and cancellation is a distinct, caller-requested outcome.

use vstd::prelude::*;

verus! {

/// A top-level outcome of running the server: the caller asked it to stop.
#[derive(PartialEq, Debug)]
pub enum Error {
    CancelledError { reason: String },
}

impl Clone for Error {
    /// Cloning keeps the reason.
    fn clone(&self) -> (res: Self)
        ensures
            res == *self,
    {
        match self {
            Error::CancelledError { reason } => Error::CancelledError { reason: reason.clone() },
        }
    }
}

impl Error {
    /// A human-readable description of the error.
    pub fn message(&self) -> (r: &str)
        ensures
            self matches Error::CancelledError { reason } ==> r@ == reason@,
    {
        match self {
            Error::CancelledError { reason } => reason.as_str(),
        }
    }
}

/// Why a raw datagram could not be split into header and attribute fields.
#[derive(Clone, Copy, PartialEq, Eq, Structural, Debug)]
pub enum ParseError {
    /// Fewer bytes than the 20-byte RADIUS header.
    TooShort,
    /// The length field is below 20 or beyond the end of the datagram.
    BadLength,
    /// An attribute header is truncated or its length byte is below 2
    /// or runs past the attribute section.
    BadAttribute,
}

/// Why a parse tree could not be turned into a packet.
#[derive(Clone, Copy, PartialEq, Eq, Structural, Debug)]
pub enum DecodeError {
    /// The numeric packet code is not in the closed code enumeration.
    UnknownCode,
    /// A field has the wrong size for its type.
    Malformed,
    /// A text-bearing field holds bytes that are not valid UTF-8.
    Encoding,
}

/// Why a packet could not be serialized to wire bytes.
#[derive(Clone, Copy, PartialEq, Eq, Structural, Debug)]
pub enum EncodeError {
    /// An attribute's payload would push its TLV beyond 255 bytes.
    AttributeTooLong,
    /// A `FramedMTU` value outside the protocol range `[64, 65535]`.
    MtuOutOfRange,
    /// The authenticator field is not exactly 16 bytes.
    InvalidAuthenticator,
    /// The whole packet would exceed the 65535-byte protocol ceiling.
    PacketTooLong,
}

} // verus!
