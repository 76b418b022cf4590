//! Error taxonomy of the protocol core.
//!
//! Codec errors (`MalformedVarInt`, `FrameTooLarge`, `DecompressionError`,
//! `UnknownPacketId`, `MalformedPacket`) and `ProtocolViolation` terminate the
//! offending session only. `VerifyTokenMismatch` and `AuthFailure` abort a
//! login attempt. `DuplicateIdentity` rejects a registration.

use vstd::prelude::*;

verus! {

#[derive(Clone, Copy, Debug, PartialEq, Eq, Structural)]
pub enum ProtocolError {
    /// A varint had a continuation bit on its fifth byte (so a sixth byte
    /// would be needed), ended mid-sequence, or exceeded the 32-bit range.
    MalformedVarInt,
    /// A frame announced a length over the maximum this core accepts.
    FrameTooLarge,
    /// A compressed frame body did not inflate to exactly its declared length.
    DecompressionError,
    /// No schema entry exists for (state, direction, id).
    UnknownPacketId,
    /// A packet body did not match the schema entry's field layout.
    MalformedPacket,
    /// A packet arrived that is not valid for the session's current state.
    ProtocolViolation,
    /// The decrypted verify token did not equal the one sent.
    VerifyTokenMismatch,
    /// The external authentication service rejected the join.
    AuthFailure,
    /// The name or UUID is already registered.
    DuplicateIdentity,
}

impl ProtocolError {
    /// A short stable description, usable by unverified callers for logging.
    pub fn describe(&self) -> (r: &'static str)
    {
        match self {
            ProtocolError::MalformedVarInt => "malformed varint",
            ProtocolError::FrameTooLarge => "frame too large",
            ProtocolError::DecompressionError => "decompression error",
            ProtocolError::UnknownPacketId => "unknown packet id",
            ProtocolError::MalformedPacket => "malformed packet",
            ProtocolError::ProtocolViolation => "protocol violation",
            ProtocolError::VerifyTokenMismatch => "verify token mismatch",
            ProtocolError::AuthFailure => "authentication failure",
            ProtocolError::DuplicateIdentity => "duplicate identity",
        }
    }
}

} // verus!
