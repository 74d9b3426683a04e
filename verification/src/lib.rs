//! RemoteDesk: the verified core of a remote-desktop application.
//!
//! The library holds the wire formats (UDP framing, STUN, length-prefixed
//! messages), codec negotiation and frame compression, the session cipher,
//! the relay registry and the host/client session state machines.  Socket,
//! file and device I/O live outside it and hand plain values to it.
use vstd::prelude::*;

pub mod error;
pub mod bytes;
pub mod text;
pub mod codec;
pub mod udp;
pub mod protocol;
pub mod crypto;
pub mod relay;
pub mod proto;
pub mod config;
pub mod capture;
pub mod input;
pub mod audio;
pub mod client;
pub mod host;
pub mod status;
pub mod handshake;

verus! {

} // verus!
