//! The ways in which building or decoding protocol values can fail.

use crate::packet::FmtpType;
use vstd::prelude::*;

verus! {

/// Why a protocol value could not be built or decoded.
#[derive(Clone, Copy, Debug, PartialEq, Eq, Structural)]
pub enum FmtpError {
    /// An identifier must be between 1 and 32 bytes long.
    IdentifierLength,
    /// An identifier must only hold bytes of the ASCII range.
    IdentifierNotAscii,
    /// A payload must not exceed 10240 bytes (a packet's declared length, 10245).
    PayloadTooLarge,
    /// A packet built from data must carry at least one byte.
    EmptyPayload,
    /// Fewer bytes were given than a packet header takes (5), or than the header declares.
    PacketTooShort,
    /// The header's version is not 2, its reserved byte is not 0, its type is unknown, or
    /// it declares a length shorter than itself.
    InvalidHeader,
    /// Only operational and operator packets carry a message.
    NotAMessage(FmtpType),
    /// A system packet whose payload is neither startup, shutdown nor heartbeat.
    UnexpectedSystemPayload,
}

} // verus!
