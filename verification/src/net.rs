//! Plain network-facing value types; sockets themselves live outside the
//! library.

use vstd::prelude::*;

verus! {

/// The transport a listening socket speaks.
#[derive(Debug, Copy, Clone, PartialEq, Eq, Structural)]
pub enum DataProtocol {
    Tcp,
    Udp,
}

/// What can go wrong binding or using a socket.
#[derive(Debug, Copy, Clone, PartialEq, Eq, Structural)]
pub enum SocketError {
    InUse,
    NotConnected,
    InsufficientPrivileges,
    Io,
}

} // verus!
