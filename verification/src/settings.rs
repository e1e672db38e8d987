//! The parameters that a process is started with and never changes.

use vstd::prelude::*;

verus! {

/// The parameter bundle. The three scalars are held as the bits of their
/// single-precision encoding.
#[derive(Clone, Copy, Debug, PartialEq, Eq, Structural)]
pub struct Settings {
    /// Change of heading per tick while a turn control is held.
    pub rotation_speed: u32,
    /// Share of the velocity that a tick takes away.
    pub drag: u32,
    /// Thrust per tick while the throttle is held.
    pub acceleration: u32,
    pub print_fps: bool,
    pub fullscreen: bool,
    /// Milliseconds between two sends of a client's input, and between two
    /// snapshots of the server.
    pub message_interval_ms: u64,
    /// Milliseconds of silence after which the server evicts a session.
    pub client_timeout_ms: u64,
}

} // verus!
