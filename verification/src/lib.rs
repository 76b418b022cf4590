//! Core of a server for a versioned, stateful binary network protocol:
//! packet framing and codec (length-prefixed frames with optional mid-stream
//! compression and encryption), the per-connection protocol state machine,
//! login negotiation, a registry of logged-in sessions with uniqueness
//! invariants, and the dispatch of decoded packets to shared-state effects.

pub mod cipher;
pub mod compress;
pub mod dispatcher;
pub mod error;
pub mod frame;
pub mod login;
pub mod packet;
pub mod player;
pub mod registry;
pub mod session;
pub mod varint;
pub mod wire;
