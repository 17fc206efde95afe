//! The error taxonomy of the handshake.  No kind is recoverable in place:
//! every one aborts the connection attempt.

use vstd::prelude::*;
use crate::codec::DecodeError;
use crate::connection_authentication::AuthenticationError;

verus! {

/// A MAC-protected message failed its checks; fatal.
#[derive(Debug, Clone, Copy, PartialEq, Eq, Structural)]
pub enum VerificationError {
    /// The message's sequence number differs from the tracked one.
    SequenceMismatch,
    /// The message's MAC does not match the receiving key.
    MacKey,
}

/// Any failure the handshake can surface.
#[derive(Debug, Clone, Copy, PartialEq, Eq, Structural)]
pub enum StellarError {
    /// A peer certificate failed verification.
    AuthenticationError(AuthenticationError),
    /// The peer's bytes do not decode.
    DecodeError(DecodeError),
    /// The peer closed the connection without completing a message.
    ConnectionResetByPeer,
    /// The stream ended while more handshake messages were owed.
    ExpectedMoreMessages,
    /// An authenticated message failed its sequence or MAC check.
    Verification(VerificationError),
}

} // verus!
