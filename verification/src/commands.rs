//! Control-plane messages: the commands the UI sends to the server and the
//! status events the server emits back, together with the plain socket
//! address the statuses carry.

use vstd::prelude::*;

verus! {

/// An IPv4 socket address, kept as plain octets and a port so that
/// contracts can speak about it directly.  The shell converts this to the
/// operating system's address type when it binds the listener.
#[derive(Clone, Copy, Debug, PartialEq, Eq, Structural)]
pub struct Address {
    pub a: u8,
    pub b: u8,
    pub c: u8,
    pub d: u8,
    pub port: u16,
}

/// Commands sent from the control plane (the tray UI) to the server.
#[derive(Clone, Copy, Debug, PartialEq, Eq, Structural)]
pub enum ServerCommand {
    Start,
    Stop,
    DisconnectClients,
}

/// Status updates emitted by the server for the control plane.  The
/// counts carried by `ClientConnected` and `ClientDisconnected` are the
/// number of clients tracked by the registry right after the change.
#[derive(Clone, Copy, Debug, PartialEq, Eq, Structural)]
pub enum ServerStatus {
    Started(Address),
    Stopped,
    ClientConnected(usize),
    ClientDisconnected(usize),
}

} // verus!
