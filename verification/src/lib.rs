//! Verified core of a remote-control relay server.
//!
//! The library owns the decision logic of the server: the lifecycle state
//! machine that reacts to control commands and network events, the registry
//! of connected clients, the certificate loader, and the decoder for the
//! JSON command envelopes that clients send.  All I/O (sockets, TLS
//! handshakes, the tray UI) lives outside, in a thin shell that performs the
//! effects this library asks for and feeds the outcomes back in as events.

pub mod commands;
pub mod input_types;
pub mod json;
pub mod laws;
pub mod message_handler;
pub mod pem;
pub mod qr;
pub mod registry;
pub mod server;
pub mod tls;
pub mod tray;

use vstd::prelude::*;

verus! {

/// The four phases of the server lifecycle.  At most one listener is bound
/// at any time; the listener exists exactly while the state is `Running`.
#[derive(Clone, Copy, Debug, PartialEq, Eq, Structural)]
pub enum ServerState {
    Stopped,
    Starting,
    Running,
    Stopping,
}

} // verus!
