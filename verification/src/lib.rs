//! Core engine of a pomodoro notification daemon.
//!
//! The library covers the stateful parts of the system: the binary
//! message codec, the datagram framing of the local transport, the
//! liveness handshake that detects a running daemon instance, the
//! durable notification store, the per-notification scheduling state
//! machine, the task registry, and the dispatcher that routes command
//! output back to its origin.  Socket, console and timer plumbing live
//! outside the library and hand it plain values.

pub mod dispatch;
pub mod error;
pub mod framing;
pub mod ipc;
pub mod notification;
pub mod probe;
pub mod registry;
pub mod scheduler;
pub mod store;
pub mod wire;
