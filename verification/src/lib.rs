//! Typed remote-memory access layer.
//!
//! A local tool inspects the memory of a separate, privileged target process
//! through a narrow request/response channel.  This crate resolves
//! module-relative addresses, walks chained pointer offsets, fetches bytes
//! across the channel and exposes them either as point-in-time snapshots or as
//! live views that re-read remote memory on every access.

pub mod addr;
pub mod bytes;
pub mod channel;
pub mod error;
pub mod handle;
pub mod laws;
pub mod module;
pub mod schema;
pub mod testing;
pub mod views;
