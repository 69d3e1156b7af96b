//! Failures that the operations of the library report.

use vstd::prelude::*;

verus! {

/// Why an operation failed.
#[derive(Clone, Copy, Debug, PartialEq, Eq, Structural)]
pub enum PeerError {
    /// A bind or candidate address is not well formed.
    AddressError,
    /// An advertised candidate address is not well formed.
    InvalidCandidate,
    /// An offer, relay description or payload could not be decoded.
    MalformedMessage,
    /// The transport handshake did not complete.
    HandshakeFailure,
    /// The operation used a stream half that is already finished.
    StreamClosed,
    /// A transport-level read failed.
    StreamError,
    /// A session identifier is not a 128-bit UUID.
    InvalidSessionId,
    /// A shared key is not exactly 32 bytes long.
    InvalidKeyLength,
    /// A peer's public key is malformed.
    InvalidPeerKey,
    /// An encrypted frame failed its integrity check.
    AuthenticationFailed,
}

impl PeerError {
    /// A short human-readable description.
    pub fn message(&self) -> (r: &'static str) {
        match self {
            PeerError::AddressError => "invalid socket address",
            PeerError::InvalidCandidate => "invalid candidate",
            PeerError::MalformedMessage => "malformed message",
            PeerError::HandshakeFailure => "handshake failed",
            PeerError::StreamClosed => "send stream closed",
            PeerError::StreamError => "stream read failed",
            PeerError::InvalidSessionId => "invalid session_id",
            PeerError::InvalidKeyLength => "shared_key must be 32 bytes",
            PeerError::InvalidPeerKey => "invalid peer public key",
            PeerError::AuthenticationFailed => "authentication failed",
        }
    }
}

} // verus!
