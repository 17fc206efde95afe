//! Peer-handshake layer of a federated-ledger overlay network.
//!
//! The crate provides the binary wire codec used by the protocol, the
//! length-prefixed message framing that reassembles records from a byte
//! stream, and the handshake state machine that authenticates both peers
//! and derives the per-direction MAC keys.

pub mod codec;
pub mod crypto;
pub mod errors;
pub mod compound_types;
pub mod connection_authentication;
pub mod frame;
pub mod keychain;
pub mod messages;
pub mod misc;
pub mod node_config;
pub mod remote_node_info;
pub mod stellar_protocol;
pub mod types;
