//! Reliable, ordered and authenticated peer-to-peer links over datagrams.
//!
//! The library holds the acknowledgement bookkeeping, the packet wire format,
//! the ordering buffer and receive path, the sender's window, the framing and
//! sealing of encrypted payloads, identities, and the decisions of the
//! handshake, the authentication challenge and the connection manager.
pub mod acknowledgement;
pub mod acknowledgment;
pub mod config;
pub mod encryption;
pub mod error;
pub mod identity;
pub mod link;
pub mod packet;
pub mod peer;
pub mod tracker;
pub mod util;
