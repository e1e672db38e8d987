//! Authoritative core of a small networked vehicle simulation: the fixed-step
//! clock, the wire messages, the server's session table and the client's
//! store of remote craft.
//!
//! Scalars of the simulation (positions, angles, rates) are carried as the
//! 32 bits of their IEEE 754 single-precision encoding. The library moves and
//! compares these words; it never does arithmetic on them.

pub mod client;
pub mod clock;
pub mod common;
pub mod endpoint;
pub mod wire;
pub mod sessions;
pub mod server;
pub mod settings;
pub mod simulation;
