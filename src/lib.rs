//! A relay for signaling messages between connected peers.
//!
//! Each peer that connects is given a fresh identity and an outbound channel;
//! every text message a peer sends is pushed onto the outbound channel of
//! every other registered peer, never back onto its own.
pub mod channel;
pub mod dispatch;
pub mod ids;
pub mod registry;
pub mod relay;
pub mod session;
