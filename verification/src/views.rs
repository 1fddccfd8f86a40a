//! Memory views — the two "readable byte window" capabilities — and the
//! session slot that views reach their session through.

use vstd::prelude::*;
use crate::addr::{bytes_at, read_result, readable, resolve_address, wrap_add};
use crate::channel::Channel;
use crate::error::MemoryError;
use crate::handle::{zero_vec, CS2Handle};
use crate::module::Module;

verus! {

/// Requests of at most this many bytes are materialised as snapshots by
/// [`CS2Handle::reference_memory`]; larger (or unsized) requests stay live.
/// 64 KiB balances round-trip cost against copying: hot small structures are
/// kept local, large ones are not copied needlessly.
pub const SNAPSHOT_LIMIT: usize = 65536;

/// The snapshot variant: an immutable copy of remote bytes captured by one
/// bulk read.  Reading it back is a local, bounds-checked copy; the session
/// is needed only for follow-on reference requests.
pub struct CSMemoryHandleCached {
    pub buffer: Vec<u8>,
}

/// The live variant: an absolute remote address and nothing else.  Every
/// read re-issues a channel request, so it always reflects current remote
/// state and has no buffer to go stale.
pub struct CSMemoryHandleReference {
    pub address: u64,
}

/// A readable byte window over the target process, in exactly two shapes,
/// selected structurally at construction time by the size threshold.
pub enum MemoryHandle {
    Cached(CSMemoryHandleCached),
    Reference(CSMemoryHandleReference),
}

/// What a view looks like to a contract: a snapshot is its bytes, a live
/// reference its address.
pub enum WindowModel {
    Snapshot(Seq<u8>),
    Live(u64),
}

/// The owner of a session.  Views hold no reference of their own back to
/// the session: each operation looks the session up here, transiently, and
/// fails with `HandleDropped` once the session has been torn down.  The
/// slot therefore plays the role of a weak back-reference — views never
/// extend the session's lifetime, and outliving it is safe.
pub struct SessionSlot<C: Channel> {
    pub handle: Option<CS2Handle<C>>,
}

impl<C: Channel> SessionSlot<C> {
    /// The session is still alive.
    pub open spec fn is_attached(&self) -> bool {
        self.handle is Some
    }

    pub open spec fn session(&self) -> CS2Handle<C>
        recommends
            self.is_attached(),
    {
        self.handle->0
    }

    /// The remote memory behind the slot; empty once torn down.
    pub open spec fn mem_view(&self) -> Map<u64, u8> {
        if self.is_attached() {
            self.session().mem()
        } else {
            Map::empty()
        }
    }

    pub open spec fn wf(&self) -> bool {
        self.is_attached() ==> self.session().wf()
    }

    /// Read operations change neither the attachment nor the session state.
    pub open spec fn same_slot(pre: Self, post: Self) -> bool {
        &&& post.is_attached() == pre.is_attached()
        &&& (pre.is_attached() ==> CS2Handle::same_session(pre.session(), post.session())
            && post.session().module_info == pre.session().module_info)
    }

    /// Take ownership of a session.
    pub fn attach(handle: CS2Handle<C>) -> (r: Self)
        ensures
            r.is_attached(),
            r.session() == handle,
    {
        SessionSlot { handle: Some(handle) }
    }

    /// A slot whose session is already gone.
    pub fn detached() -> (r: Self)
        ensures
            !r.is_attached(),
    {
        SessionSlot { handle: None }
    }

    /// Tear the session down: every later operation that needs it fails
    /// with `HandleDropped`.
    pub fn tear_down(&mut self)
        ensures
            !final(self).is_attached(),
    {
        self.handle = None;
    }
}

impl CSMemoryHandleCached {
    /// Copy `buf.len()` bytes out of the snapshot, starting at `offset`.
    /// A request past the end of the owned buffer fails with `OutOfBounds`,
    /// never a silent truncation.
    pub fn read_slice(&self, offset: u64, buf: &mut Vec<u8>) -> (r: Result<(), MemoryError>)
        ensures
            r == (if offset + old(buf)@.len() <= self.buffer@.len() {
                Ok::<(), MemoryError>(())
            } else {
                Err::<(), MemoryError>(
                    MemoryError::OutOfBounds {
                        offset,
                        length: old(buf)@.len() as u64,
                        size: self.buffer@.len() as u64,
                    },
                )
            }),
            r is Ok ==> final(buf)@ == self.buffer@.subrange(
                offset as int,
                offset + old(buf)@.len(),
            ),
            r is Err ==> final(buf)@ == old(buf)@,
    {
        let n = buf.len();
        let blen = self.buffer.len();
        if offset > blen as u64 || n as u64 > blen as u64 - offset {
            return Err(
                MemoryError::OutOfBounds { offset, length: n as u64, size: blen as u64 },
            );
        }
        let start = offset as usize;
        let piece = vstd::slice::slice_subrange(self.buffer.as_slice(), start, start + n);
        let mut out: Vec<u8> = Vec::new();
        let mut i: usize = 0;
        while i < n
            invariant
                i <= n,
                piece@.len() == n,
                out@ == piece@.take(i as int),
            decreases n - i,
        {
            let b = *vstd::slice::slice_index_get(piece, i);
            out.push(b);
            proof {
                assert(out@ =~= piece@.take(i + 1));
            }
            i = i + 1;
        }
        proof {
            assert(piece@.take(n as int) =~= piece@);
        }
        *buf = out;
        Ok(())
    }
}

impl MemoryHandle {
    /// The contract-level shape of this view.
    pub open spec fn model(&self) -> WindowModel {
        match self {
            MemoryHandle::Cached(c) => WindowModel::Snapshot(c.buffer@),
            MemoryHandle::Reference(l) => WindowModel::Live(l.address),
        }
    }

    /// What reading `n` bytes at `offset` through a window yields, given
    /// the current remote memory and whether the session is still attached.
    pub open spec fn window_read(
        w: WindowModel,
        attached: bool,
        mem: Map<u64, u8>,
        offset: u64,
        n: nat,
    ) -> Result<Seq<u8>, MemoryError> {
        match w {
            WindowModel::Snapshot(bytes) => if offset + n <= bytes.len() {
                Ok(bytes.subrange(offset as int, offset + n))
            } else {
                Err(
                    MemoryError::OutOfBounds {
                        offset,
                        length: n as u64,
                        size: bytes.len() as u64,
                    },
                )
            },
            WindowModel::Live(address) => if !attached {
                Err(MemoryError::HandleDropped)
            } else {
                let a = wrap_add(address, offset);
                if readable(mem, a, n) {
                    Ok(bytes_at(mem, a, n))
                } else {
                    Err(MemoryError::ChannelFailure { address: a, length: n as u64 })
                }
            },
        }
    }

    /// Fill `buf` from the window at `offset`.  A snapshot serves the copy
    /// locally — even after the session is gone; a live reference re-reads
    /// current remote memory through the slot and fails with
    /// `HandleDropped` once the session has been torn down.
    pub fn read_slice<C: Channel>(
        &self,
        slot: &mut SessionSlot<C>,
        offset: u64,
        buf: &mut Vec<u8>,
    ) -> (r: Result<(), MemoryError>)
        requires
            old(slot).wf(),
        ensures
            final(slot).wf(),
            SessionSlot::same_slot(*old(slot), *final(slot)),
            ({
                match Self::window_read(
                    self.model(),
                    old(slot).is_attached(),
                    old(slot).mem_view(),
                    offset,
                    old(buf)@.len() as nat,
                ) {
                    Ok(bytes) => r == Ok::<(), MemoryError>(()) && final(buf)@ == bytes,
                    Err(e) => r == Err::<(), MemoryError>(e) && final(buf)@ == old(buf)@,
                }
            }),
    {
        match self {
            MemoryHandle::Cached(c) => c.read_slice(offset, buf),
            MemoryHandle::Reference(l) => {
                match slot.handle.take() {
                    None => Err(MemoryError::HandleDropped),
                    Some(mut h) => {
                        let a = l.address.wrapping_add(offset);
                        let mut offs: Vec<u64> = Vec::new();
                        offs.push(a);
                        proof {
                            assert(offs@.skip(1) =~= Seq::<u64>::empty());
                            assert(resolve_address(h.mem(), 0, offs@) == Ok::<u64, MemoryError>(
                                wrap_add(0, a),
                            ));
                            assert(wrap_add(0, a) == a);
                        }
                        let r = h.read_raw(Module::Absolute, offs.as_slice(), buf);
                        slot.handle = Some(h);
                        r
                    },
                }
            },
        }
    }

    /// Ask the backing session for a new reference view; fails with
    /// `HandleDropped` once the session has been torn down.
    pub fn reference_memory<C: Channel>(
        &self,
        slot: &mut SessionSlot<C>,
        address: u64,
        length: Option<usize>,
    ) -> (r: Result<MemoryHandle, MemoryError>)
        requires
            old(slot).wf(),
        ensures
            final(slot).wf(),
            SessionSlot::same_slot(*old(slot), *final(slot)),
            !old(slot).is_attached() ==> r == Err::<MemoryHandle, MemoryError>(
                MemoryError::HandleDropped,
            ),
            old(slot).is_attached() ==> matches_reference_result(
                old(slot).mem_view(),
                address,
                length,
                r,
            ),
    {
        match slot.handle.take() {
            None => Err(MemoryError::HandleDropped),
            Some(mut h) => {
                let r = h.reference_memory(address, length);
                slot.handle = Some(h);
                r
            },
        }
    }

    /// Ask the backing session for a fresh snapshot of `length` bytes at an
    /// absolute address; fails with `HandleDropped` once the session has
    /// been torn down.
    pub fn read_memory<C: Channel>(
        &self,
        slot: &mut SessionSlot<C>,
        address: u64,
        length: usize,
    ) -> (r: Result<MemoryHandle, MemoryError>)
        requires
            old(slot).wf(),
        ensures
            final(slot).wf(),
            SessionSlot::same_slot(*old(slot), *final(slot)),
            !old(slot).is_attached() ==> r == Err::<MemoryHandle, MemoryError>(
                MemoryError::HandleDropped,
            ),
            old(slot).is_attached() ==> matches_snapshot_result(
                old(slot).mem_view(),
                seq![address],
                length as nat,
                r,
            ),
    {
        match slot.handle.take() {
            None => Err(MemoryError::HandleDropped),
            Some(mut h) => {
                let mut offs: Vec<u64> = Vec::new();
                offs.push(address);
                proof {
                    assert(offs@ =~= seq![address]);
                }
                let r = h.read_memory(offs.as_slice(), length);
                slot.handle = Some(h);
                r
            },
        }
    }
}

/// `r` is what a snapshot read of `n` bytes through `offsets` must return.
pub open spec fn matches_snapshot_result(
    mem: Map<u64, u8>,
    offsets: Seq<u64>,
    n: nat,
    r: Result<MemoryHandle, MemoryError>,
) -> bool {
    match read_result(mem, 0, offsets, n) {
        Ok(bytes) => r matches Ok(MemoryHandle::Cached(c)) && c.buffer@ == bytes,
        Err(e) => r == Err::<MemoryHandle, MemoryError>(e),
    }
}

/// `r` is what a reference request must return: sized requests up to
/// [`SNAPSHOT_LIMIT`] become snapshots, everything else stays live.
pub open spec fn matches_reference_result(
    mem: Map<u64, u8>,
    address: u64,
    size: Option<usize>,
    r: Result<MemoryHandle, MemoryError>,
) -> bool {
    if size is Some && size->0 <= SNAPSHOT_LIMIT {
        matches_snapshot_result(mem, seq![address], size->0 as nat, r)
    } else {
        r == Ok::<MemoryHandle, MemoryError>(
            MemoryHandle::Reference(CSMemoryHandleReference { address }),
        )
    }
}

impl<C: Channel> CS2Handle<C> {
    /// One bulk read of `size` bytes at a chained absolute address,
    /// captured as an immutable snapshot view.
    pub fn read_memory(&mut self, offsets: &[u64], size: usize) -> (r: Result<
        MemoryHandle,
        MemoryError,
    >)
        requires
            old(self).wf(),
        ensures
            final(self).wf(),
            Self::same_session(*old(self), *final(self)),
            matches_snapshot_result(old(self).mem(), offsets@, size as nat, r),
    {
        let mut buffer = zero_vec(size);
        match self.read_raw(Module::Absolute, offsets, &mut buffer) {
            Ok(()) => Ok(MemoryHandle::Cached(CSMemoryHandleCached { buffer })),
            Err(e) => Err(e),
        }
    }

    /// Reference an absolute address as a view.  A request of known size up
    /// to [`SNAPSHOT_LIMIT`] bytes is served as a snapshot (cheaper to keep
    /// hot data local); larger or unsized requests stay live.
    pub fn reference_memory(&mut self, address: u64, size: Option<usize>) -> (r: Result<
        MemoryHandle,
        MemoryError,
    >)
        requires
            old(self).wf(),
        ensures
            final(self).wf(),
            Self::same_session(*old(self), *final(self)),
            matches_reference_result(old(self).mem(), address, size, r),
    {
        if let Some(n) = size {
            if n <= SNAPSHOT_LIMIT {
                let mut offs: Vec<u64> = Vec::new();
                offs.push(address);
                proof {
                    assert(offs@ =~= seq![address]);
                }
                return self.read_memory(offs.as_slice(), n);
            }
        }
        Ok(MemoryHandle::Reference(CSMemoryHandleReference { address }))
    }
}

} // verus!
