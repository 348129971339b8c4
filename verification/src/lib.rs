//! Core logic of a desktop remote-control companion: a WebSocket command
//! server that lets a phone or browser drive the host's media keys, volume,
//! brightness, keyboard and mouse.
//!
//! This crate holds the verified part: the wire-protocol codec (JSON frames),
//! the command dispatcher, the connection registry, the server and session
//! state machines, the text-input throttle and the modifier-key store.  The
//! unverified shell around it (socket handling, the OS input bindings) lives
//! outside and only calls into these functions with plain values.

use vstd::prelude::*;

pub mod bytestr;
pub mod command;
pub mod dispatch;
pub mod executor;
pub mod keys;
pub mod modifiers;
pub mod parse;
pub mod qr;
pub mod registry;
pub mod server;
pub mod throttle;
pub mod wire;

verus! {

/// Uniform result of one executor operation or control call, as handed to the
/// unverified shell: a status word and a human-readable message.
pub struct CommandResponse {
    pub status: String,
    pub message: String,
}

/// Snapshot of the server's externally visible state.
pub struct ServerStatus {
    pub running: bool,
    pub port: u16,
    pub clients: usize,
    pub local_ip: Option<String>,
}

/// Whether the OS grants the input-simulation layer the permissions it needs.
/// The check is optimistic: the operation itself reports failure if the
/// permission is in fact missing.
pub fn check_accessibility_permissions() -> (r: bool)
    ensures
        r,
{
    true
}

} // verus!
