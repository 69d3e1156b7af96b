//! Peer-to-peer transport core: socket addresses, connection offers,
//! stream half-close state, relay sessions and the framing of
//! end-to-end encrypted relay payloads.

pub mod address;
pub mod error;
pub mod stream;
pub mod session;
pub mod e2ee;
pub mod offer;
pub mod relay;
pub mod framing;
