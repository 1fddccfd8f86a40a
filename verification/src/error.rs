//! The failure conditions of the access layer.

use vstd::prelude::*;

verus! {

/// Everything that can go wrong while reading remote memory.
///
/// A missed pattern search is not an error: it is reported as `Ok(None)`.
#[derive(Debug, Clone, Copy, PartialEq, Eq, Structural)]
pub enum MemoryError {
    /// The module identifier could not be resolved to a base and size.
    InvalidModule,
    /// A read relative to an owned buffer reached past its end.
    /// `offset` and `length` describe the attempted read, `size` the buffer.
    OutOfBounds { offset: u64, length: u64, size: u64 },
    /// The operation needed the owning session, but it has been torn down.
    HandleDropped,
    /// The channel could not serve a request.  `address` and `length`
    /// describe the rejected read; a malformed request carries length 0.
    ChannelFailure { address: u64, length: u64 },
    /// Remote bytes could not be interpreted as the requested encoding,
    /// or a schema type has no fixed byte size.
    DecodeFailure,
}

} // verus!
