//! The glue the external schema-decoding framework plugs into: typed values
//! decoded over a byte window, either self-contained (snapshot) or live.

use vstd::prelude::*;
use crate::addr::{read_result, reference_address, wrap_add};
use crate::bytes::PlainValue;
use crate::channel::Channel;
use crate::error::MemoryError;
use crate::handle::{zero_vec, CS2Handle};
use crate::module::Module;
use crate::views::{
    matches_reference_result, CSMemoryHandleReference, MemoryHandle, SessionSlot, WindowModel,
    SNAPSHOT_LIMIT,
};

verus! {

/// A typed value the external schema framework knows how to lay out over a
/// byte window.  Downstream decoders implement this for their structures;
/// the crate implements it for flat plain values and for [`ObjectView`].
pub trait SchemaValue<C: Channel>: Sized {
    /// The fixed byte size of one value, if it has one.  A type without a
    /// fixed size cannot go through the whole-structure snapshot path.
    spec fn spec_value_size() -> Option<usize>;

    /// What `from_memory` must yield over a window shape, an offset and the
    /// remote memory at decode time.
    spec fn from_memory_post(
        window: WindowModel,
        offset: u64,
        mem: Map<u64, u8>,
        r: Result<Self, MemoryError>,
    ) -> bool;

    fn value_size() -> (r: Option<usize>)
        ensures
            r == Self::spec_value_size(),
    ;

    /// Decode a value over a byte window.  The handle serves any remote
    /// reads the decoding needs; it is only read through, never changed.
    fn from_memory(memory: MemoryHandle, offset: u64, handle: &mut CS2Handle<C>) -> (r: Result<
        Self,
        MemoryError,
    >)
        requires
            old(handle).wf(),
        ensures
            final(handle).wf(),
            CS2Handle::same_session(*old(handle), *final(handle)),
            Self::from_memory_post(memory.model(), offset, old(handle).mem(), r),
    ;
}

/// What decoding one flat plain value at `offset` over a window yields:
/// the bytes of the window at that offset, decoded little-endian.
pub open spec fn plain_from_memory_post<T: PlainValue>(
    window: WindowModel,
    offset: u64,
    mem: Map<u64, u8>,
    r: Result<T, MemoryError>,
) -> bool {
    match MemoryHandle::window_read(window, true, mem, offset, T::spec_size()) {
        Ok(bytes) => r matches Ok(v) && v == T::spec_decode(bytes),
        Err(e) => r == Err::<T, MemoryError>(e),
    }
}

/// Decode one flat plain value over a window: the shared body of the
/// primitive `SchemaValue` implementations.
fn plain_from_memory<T: PlainValue, C: Channel>(
    memory: MemoryHandle,
    offset: u64,
    handle: &mut CS2Handle<C>,
) -> (r: Result<T, MemoryError>)
    requires
        old(handle).wf(),
    ensures
        final(handle).wf(),
        CS2Handle::same_session(*old(handle), *final(handle)),
        plain_from_memory_post::<T>(memory.model(), offset, old(handle).mem(), r),
{
    let size = T::size();
    match memory {
        MemoryHandle::Cached(c) => {
            let mut buf = zero_vec(size);
            match c.read_slice(offset, &mut buf) {
                Ok(()) => Ok(T::decode(buf.as_slice())),
                Err(e) => Err(e),
            }
        },
        MemoryHandle::Reference(l) => {
            let a = l.address.wrapping_add(offset);
            let mut offs: Vec<u64> = Vec::new();
            offs.push(a);
            proof {
                assert(offs@.skip(1) =~= Seq::<u64>::empty());
                assert(wrap_add(0, a) == a);
            }
            handle.read::<T>(Module::Absolute, offs.as_slice())
        },
    }
}

impl<C: Channel> SchemaValue<C> for u64 {
    open spec fn spec_value_size() -> Option<usize> {
        Some(8usize)
    }

    open spec fn from_memory_post(
        window: WindowModel,
        offset: u64,
        mem: Map<u64, u8>,
        r: Result<u64, MemoryError>,
    ) -> bool {
        plain_from_memory_post::<u64>(window, offset, mem, r)
    }

    fn value_size() -> Option<usize> {
        Some(8)
    }

    fn from_memory(memory: MemoryHandle, offset: u64, handle: &mut CS2Handle<C>) -> Result<
        u64,
        MemoryError,
    > {
        plain_from_memory::<u64, C>(memory, offset, handle)
    }
}

impl<C: Channel> SchemaValue<C> for u32 {
    open spec fn spec_value_size() -> Option<usize> {
        Some(4usize)
    }

    open spec fn from_memory_post(
        window: WindowModel,
        offset: u64,
        mem: Map<u64, u8>,
        r: Result<u32, MemoryError>,
    ) -> bool {
        plain_from_memory_post::<u32>(window, offset, mem, r)
    }

    fn value_size() -> Option<usize> {
        Some(4)
    }

    fn from_memory(memory: MemoryHandle, offset: u64, handle: &mut CS2Handle<C>) -> Result<
        u32,
        MemoryError,
    > {
        plain_from_memory::<u32, C>(memory, offset, handle)
    }
}

/// A decoded value that keeps its backing window and reads each field on
/// demand — the shape a generated schema class takes.  Over a snapshot the
/// fields come from the captured bytes, whatever happens to the session;
/// over a live reference every field access fetches the bytes as they are
/// at that moment.
pub struct ObjectView {
    pub memory: MemoryHandle,
    pub offset: u64,
}

impl<C: Channel> SchemaValue<C> for ObjectView {
    /// An open-ended structure has no fixed byte size: it cannot go through
    /// the whole-structure snapshot path, only through references.
    open spec fn spec_value_size() -> Option<usize> {
        None::<usize>
    }

    open spec fn from_memory_post(
        window: WindowModel,
        offset: u64,
        mem: Map<u64, u8>,
        r: Result<ObjectView, MemoryError>,
    ) -> bool {
        r matches Ok(v) && v.memory.model() == window && v.offset == offset
    }

    fn value_size() -> Option<usize> {
        None
    }

    fn from_memory(memory: MemoryHandle, offset: u64, _handle: &mut CS2Handle<C>) -> Result<
        ObjectView,
        MemoryError,
    > {
        Ok(ObjectView { memory, offset })
    }
}

impl ObjectView {
    /// Read one flat field of the structure, at `field_offset` from the
    /// structure's start.  Over a live window this is a fresh remote read
    /// of the bytes as they are now, and it fails with `HandleDropped` once
    /// the session is gone; over a snapshot it reads the captured bytes.
    pub fn field<T: PlainValue, C: Channel>(
        &self,
        slot: &mut SessionSlot<C>,
        field_offset: u64,
    ) -> (r: Result<T, MemoryError>)
        requires
            old(slot).wf(),
        ensures
            final(slot).wf(),
            SessionSlot::same_slot(*old(slot), *final(slot)),
            ({
                match MemoryHandle::window_read(
                    self.memory.model(),
                    old(slot).is_attached(),
                    old(slot).mem_view(),
                    wrap_add(self.offset, field_offset),
                    T::spec_size(),
                ) {
                    Ok(bytes) => r matches Ok(v) && v == T::spec_decode(bytes),
                    Err(e) => r == Err::<T, MemoryError>(e),
                }
            }),
    {
        let off = self.offset.wrapping_add(field_offset);
        let size = T::size();
        let mut buf = zero_vec(size);
        match self.memory.read_slice(slot, off, &mut buf) {
            Ok(()) => Ok(T::decode(buf.as_slice())),
            Err(e) => Err(e),
        }
    }
}

impl<C: Channel> CS2Handle<C> {
    /// Snapshot-decode a whole structure: one bulk read of exactly the
    /// type's byte size at the chained absolute address, then a value that
    /// is entirely self-contained — its fields read from the copied bytes
    /// only.  A type without a fixed size is a `DecodeFailure`.
    pub fn read_schema<T: SchemaValue<C>>(&mut self, offsets: &[u64]) -> (r: Result<
        T,
        MemoryError,
    >)
        requires
            old(self).wf(),
        ensures
            final(self).wf(),
            Self::same_session(*old(self), *final(self)),
            ({
                match T::spec_value_size() {
                    None => r == Err::<T, MemoryError>(MemoryError::DecodeFailure),
                    Some(n) => match read_result(old(self).mem(), 0, offsets@, n as nat) {
                        Ok(bytes) => T::from_memory_post(
                            WindowModel::Snapshot(bytes),
                            0,
                            old(self).mem(),
                            r,
                        ),
                        Err(e) => r == Err::<T, MemoryError>(e),
                    },
                }
            }),
    {
        let size = match T::value_size() {
            Some(n) => n,
            None => {
                return Err(MemoryError::DecodeFailure);
            },
        };
        let memory = match self.read_memory(offsets, size) {
            Ok(m) => m,
            Err(e) => {
                return Err(e);
            },
        };
        T::from_memory(memory, 0, self)
    }

    /// Live-decode a structure: resolve the final address (dereferencing
    /// all but the last offset, exactly as the chained read does), then
    /// decode over a reference view of it.  Small sized structures are
    /// still materialised as snapshots by the size threshold; everything
    /// else stays live, so every later field access re-reads current
    /// remote bytes.
    pub fn reference_schema<T: SchemaValue<C>>(&mut self, offsets: &[u64]) -> (r: Result<
        T,
        MemoryError,
    >)
        requires
            old(self).wf(),
        ensures
            final(self).wf(),
            Self::same_session(*old(self), *final(self)),
            ({
                let mem = old(self).mem();
                match reference_address(mem, offsets@) {
                    Ok(a) => {
                        let size = T::spec_value_size();
                        if size is Some && size->0 <= SNAPSHOT_LIMIT {
                            match read_result(mem, 0, seq![a], size->0 as nat) {
                                Ok(bytes) => T::from_memory_post(
                                    WindowModel::Snapshot(bytes),
                                    0,
                                    mem,
                                    r,
                                ),
                                Err(e) => r == Err::<T, MemoryError>(e),
                            }
                        } else {
                            T::from_memory_post(WindowModel::Live(a), 0, mem, r)
                        }
                    },
                    Err(e) => r == Err::<T, MemoryError>(e),
                }
            }),
    {
        if offsets.len() == 0 {
            return Err(MemoryError::ChannelFailure { address: 0, length: 0 });
        }
        let address = if offsets.len() == 1 {
            offsets[0]
        } else {
            let prefix = vstd::slice::slice_subrange(offsets, 0, offsets.len() - 1);
            proof {
                assert(prefix@ =~= offsets@.take(offsets@.len() - 1));
            }
            let base = match self.read::<u64>(Module::Absolute, prefix) {
                Ok(b) => b,
                Err(e) => {
                    return Err(e);
                },
            };
            base.wrapping_add(offsets[offsets.len() - 1])
        };
        let memory = match self.reference_memory(address, T::value_size()) {
            Ok(m) => m,
            Err(e) => {
                return Err(e);
            },
        };
        T::from_memory(memory, 0, self)
    }
}

} // verus!
