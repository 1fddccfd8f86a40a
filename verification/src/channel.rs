//! The privileged communication channel, as a capability contract.
//!
//! The intermediary that actually touches the target process is outside this
//! crate; everything the access layer needs from it is captured by the
//! [`Channel`] trait: raw range reads, pattern search, a protection toggle
//! and the module table.  The crate ships one verified in-process
//! implementation for exercising the layer (see [`crate::testing`]); a real
//! driver binding implements the same trait.

use vstd::prelude::*;
use crate::addr::{bytes_at, readable};
use crate::error::MemoryError;
use crate::module::CS2ModuleInfo;

verus! {

/// A byte pattern with wildcards: position `i` must hold `bytes[i]`
/// wherever `mask[i]` is true, and may hold anything elsewhere.
pub struct Pattern {
    pub bytes: Vec<u8>,
    pub mask: Vec<bool>,
}

impl Pattern {
    /// One mask entry per byte, and at least one byte.
    pub open spec fn wf(&self) -> bool {
        self.bytes@.len() == self.mask@.len() && 1 <= self.bytes@.len()
    }

    pub fn new(bytes: Vec<u8>, mask: Vec<bool>) -> (r: Option<Pattern>)
        ensures
            r matches Some(p) ==> p.wf() && p.bytes == bytes && p.mask == mask,
            r is None ==> !(bytes@.len() == mask@.len() && 1 <= bytes@.len()),
    {
        if bytes.len() == mask.len() && 1 <= bytes.len() {
            Some(Pattern { bytes, mask })
        } else {
            None
        }
    }

    pub fn len(&self) -> (r: usize)
        ensures
            r == self.bytes@.len(),
    {
        self.bytes.len()
    }
}

/// The pattern matches remote memory at `a`: the whole window is readable
/// and every fixed position holds its byte.
pub open spec fn pattern_matches_at(mem: Map<u64, u8>, p: Pattern, a: u64) -> bool {
    &&& readable(mem, a, p.bytes@.len() as nat)
    &&& forall|i: int|
        0 <= i < p.bytes@.len() && #[trigger] p.mask@[i] ==> bytes_at(
            mem,
            a,
            p.bytes@.len() as nat,
        )[i] == p.bytes@[i]
}

/// `[a, a + n)` lies inside the window `[base, base + size)`.
pub open spec fn in_window(base: u64, size: u64, a: u64, n: nat) -> bool {
    base <= a && a + n <= base + size
}

/// The request/response capability of the privileged intermediary.
///
/// The three spec functions model what the channel can currently serve: the
/// remote memory image, the attached process's module table, and whether the
/// local process has asked to be shielded from inspection.  Reads take the
/// channel mutably (an implementation may keep transport state) but never
/// change any of the three.
pub trait Channel: Sized {
    /// The remote memory this channel can currently serve.
    spec fn mem(&self) -> Map<u64, u8>;

    /// The module table of the attached process.
    spec fn modules(&self) -> CS2ModuleInfo;

    /// Whether protection has been requested for the local process.
    spec fn protection(&self) -> bool;

    /// One raw range read: fill all of `buf` from remote memory at
    /// `address`.  Succeeds exactly when the whole range is readable; a
    /// failed read leaves `buf` untouched.
    fn read_into(&mut self, address: u64, buf: &mut Vec<u8>) -> (r: Result<(), MemoryError>)
        ensures
            final(self).mem() == old(self).mem(),
            final(self).modules() == old(self).modules(),
            final(self).protection() == old(self).protection(),
            r == (if readable(old(self).mem(), address, old(buf)@.len() as nat) {
                Ok::<(), MemoryError>(())
            } else {
                Err::<(), MemoryError>(
                    MemoryError::ChannelFailure { address, length: old(buf)@.len() as u64 },
                )
            }),
            r is Ok ==> final(buf)@ == bytes_at(old(self).mem(), address, old(buf)@.len() as nat),
            r is Err ==> final(buf)@ == old(buf)@,
    ;

    /// Ask the intermediary to toggle inspection shielding of the local
    /// process.  Fire-and-forget: on success the request has been taken,
    /// nothing is verified afterwards.
    fn toggle_protection(&mut self, enabled: bool) -> (r: Result<(), MemoryError>)
        ensures
            final(self).mem() == old(self).mem(),
            final(self).modules() == old(self).modules(),
            r is Ok ==> final(self).protection() == enabled,
            r matches Err(e) ==> final(self).protection() == old(self).protection() && e matches
                MemoryError::ChannelFailure { .. },
    ;

    /// Fetch the module table of the attached process.
    fn query_modules(&mut self) -> (r: Result<CS2ModuleInfo, MemoryError>)
        ensures
            final(self).mem() == old(self).mem(),
            final(self).modules() == old(self).modules(),
            final(self).protection() == old(self).protection(),
            r matches Ok(t) ==> t == old(self).modules(),
            r matches Err(e) ==> e matches MemoryError::ChannelFailure { .. },
    ;

    /// Search the window `[base, base + size)` for a byte pattern.  A hit
    /// is the lowest matching address; an absent pattern is `Ok(None)`,
    /// never an error.
    fn find_pattern(&mut self, base: u64, size: u64, pattern: &Pattern) -> (r: Result<
        Option<u64>,
        MemoryError,
    >)
        requires
            pattern.wf(),
            base + size <= u64::MAX,
        ensures
            final(self).mem() == old(self).mem(),
            final(self).modules() == old(self).modules(),
            final(self).protection() == old(self).protection(),
            r matches Ok(Some(a)) ==> {
                &&& in_window(base, size, a, pattern.bytes@.len() as nat)
                &&& pattern_matches_at(old(self).mem(), *pattern, a)
                &&& forall|b: u64|
                    in_window(base, size, b, pattern.bytes@.len() as nat) && b < a
                        ==> !pattern_matches_at(old(self).mem(), *pattern, b)
            },
            r matches Ok(None) ==> forall|b: u64|
                in_window(base, size, b, pattern.bytes@.len() as nat)
                    ==> !pattern_matches_at(old(self).mem(), *pattern, b),
            r matches Err(e) ==> e matches MemoryError::ChannelFailure { .. },
    ;
}

} // verus!
