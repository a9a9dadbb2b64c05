//! What can go wrong: in a frame, in the handshake, underneath.

use vstd::prelude::*;

verus! {

/// The ways in which a peer can break the protocol.
#[derive(Debug, Clone, Copy, PartialEq, Eq, Structural)]
pub enum ProtocolViolation {
    /// The frame is not a text frame.
    NonTextFrame,
    /// The text does not begin with a decimal digit.
    MissingCode,
    /// The leading digits denote a number above `u64::MAX`.
    CodeTooLarge,
    /// The remainder is not empty and is no JSON document.
    InvalidJson,
    /// A handshake packet arrived in a phase that does not expect it.
    OutOfSequence,
}

/// What can go wrong in the life of a session.
#[derive(Debug, Clone, Copy, PartialEq, Eq, Structural)]
pub enum SessionError {
    /// The peer broke the protocol.
    Protocol(ProtocolViolation),
    /// The connection underneath failed.
    Transport,
    /// A session was asked for before a credential was established.
    Precondition,
}

} // verus!
