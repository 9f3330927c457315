//! The relay connection: what dialling a relay address does, and the dispatch
//! decisions of the relay stream protocol (its framing lives in
//! `crate::framing`).
pub mod p2p;
pub mod p2p_protocol_stream;
