//! Verified core of a rendezvous/signaling relay.
//!
//! Clients register under a username, optionally join named rooms, and exchange
//! opaque text messages that are routed by the protocol tag embedded in each
//! message. The wire transport, command-line handling, logging and the
//! push-notification delivery mechanism are external collaborators; this crate
//! keeps the registries and decides, for each inbound event, exactly which
//! connections receive which text and which push delivery is requested.

pub mod conn;
pub mod network;
pub mod room;
pub mod server;
pub mod text;
