//! The internal API of a remote desktop server.
//!
//! Commands for the remote desktop ability arrive over zenoh and are acknowledged there; the
//! server's account is reported to those who ask on the loopback address; the server gives
//! itself its options, its identity and a new password for each day. This crate holds what
//! is decided and computed on the way, with its contracts and the laws that follow from
//! them; what talks to the network, the clock and the configuration stands around it.

pub mod ability;
pub mod account;
pub mod ack;
pub mod date;
pub mod identity;
pub mod json;
pub mod options;
pub mod password;
pub mod service;
pub mod session;
pub mod setup;
pub mod subscription;
pub mod text;
pub mod worker;
pub mod worker_laws;
