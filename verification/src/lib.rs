//! A small multi-threaded HTTP/1.1 static file server core.
//!
//! The crate verifies the pieces of the server that decide things: the
//! HTTP/1.1 wire codec, the jailed-root target resolver, the per-method
//! response handler, the per-connection state machine, the event-loop
//! registry and the worker-pool message protocol. Socket, filesystem and
//! thread plumbing live outside the library and hand plain values in.

pub mod cli;
pub mod conn;
pub mod encode;
pub mod ext;
pub mod handle;
pub mod http;
pub mod laws;
pub mod log;
pub mod net;
pub mod octets;
pub mod parse;
pub mod srv;
pub mod syn;
pub mod tls;

use vstd::prelude::*;

verus! {

/// The reserved registry identity of the listening socket.
pub const SERVER_SOCKET_TOKEN: usize = 0;

} // verus!
