//! Client library for the NSQ message broker.
//!
//! The library speaks the NSQ TCP v2 wire protocol: it encodes outbound
//! commands, decodes length-delimited inbound frames, renders the IDENTIFY
//! handshake JSON, and drives the connection through pure, verified state
//! machines (handshake, heartbeat multiplexing, producer sink, reconnect).
//! Byte-level I/O, TLS and compression transports sit outside the library
//! and feed these machines with plain values.

use vstd::prelude::*;

pub mod codec;
pub mod command;
pub mod config;
pub mod error;
pub mod handshake;
pub mod heartbeat;
pub mod identify;
pub mod json;
pub mod lookup;
pub mod producer;
pub mod reconnect;
pub mod wire;

pub use config::Config;
pub use error::Error;

verus! {

/// Identifies this client in the IDENTIFY handshake.
pub const USER_AGENT: &'static str = "nsq-rust/0.1.0";

} // verus!
