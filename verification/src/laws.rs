//! The laws of the access layer: properties that relate several operations,
//! stated over the same spec functions the operations' contracts use and
//! proved once and for all.

use vstd::prelude::*;
use crate::addr::{
    bytes_at, lemma_reference_address_is_chain, ptr_at, read_result, readable, reference_address,
    resolve_address, wrap_add,
};
use crate::bytes::PlainValue;
use crate::error::MemoryError;
use crate::schema::plain_from_memory_post;
use crate::views::{matches_reference_result, MemoryHandle, WindowModel, SNAPSHOT_LIMIT};

verus! {

/// A plain read and a whole-structure snapshot read of a one-element chain
/// resolve to the same address and copy the same byte range, so a flat
/// value read either way is the same value.  `r1` is constrained exactly as
/// `CS2Handle::read::<u64>` constrains its result for a module of base
/// `base` and the one-element chain `[offset]`; `r2` exactly as
/// `CS2Handle::read_schema::<u64>` does for the absolute form of the same
/// address, `[base + offset]`.
pub proof fn lemma_read_agrees_with_read_schema(
    mem: Map<u64, u8>,
    base: u64,
    offset: u64,
    r1: Result<u64, MemoryError>,
    r2: Result<u64, MemoryError>,
)
    requires
        match read_result(mem, base, seq![offset], <u64 as PlainValue>::spec_size()) {
            Ok(bytes) => r1 matches Ok(v) && v == <u64 as PlainValue>::spec_decode(bytes),
            Err(e) => r1 == Err::<u64, MemoryError>(e),
        },
        match read_result(mem, 0, seq![wrap_add(base, offset)], 8) {
            Ok(bytes) => plain_from_memory_post::<u64>(WindowModel::Snapshot(bytes), 0, mem, r2),
            Err(e) => r2 == Err::<u64, MemoryError>(e),
        },
    ensures
        r1 == r2,
{
    let a = wrap_add(base, offset);
    assert(seq![offset].skip(1) =~= Seq::<u64>::empty());
    assert(seq![a].skip(1) =~= Seq::<u64>::empty());
    assert(resolve_address(mem, base, seq![offset]) == Ok::<u64, MemoryError>(a));
    assert(wrap_add(0, a) == a);
    assert(resolve_address(mem, 0, seq![a]) == Ok::<u64, MemoryError>(a));
    match read_result(mem, 0, seq![a], 8) {
        Ok(bytes) => {
            assert(bytes.len() == 8);
            assert(bytes.subrange(0, 8) =~= bytes);
        },
        Err(_) => {},
    }
}

/// Snapshot decoding and live decoding agree while the backing bytes do not
/// change: for any chain, `read_schema::<u64>` and `reference_schema::<u64>`
/// over the same remote memory return the same result — the same value on
/// success, and the same error otherwise.  `r1` is constrained exactly as
/// `read_schema::<u64>` constrains its result, `r2` exactly as
/// `reference_schema::<u64>` does.
pub proof fn lemma_read_schema_agrees_with_reference_schema(
    mem: Map<u64, u8>,
    offsets: Seq<u64>,
    r1: Result<u64, MemoryError>,
    r2: Result<u64, MemoryError>,
)
    requires
        offsets.len() >= 1,
        match read_result(mem, 0, offsets, 8) {
            Ok(bytes) => plain_from_memory_post::<u64>(WindowModel::Snapshot(bytes), 0, mem, r1),
            Err(e) => r1 == Err::<u64, MemoryError>(e),
        },
        match reference_address(mem, offsets) {
            Ok(a) => match read_result(mem, 0, seq![a], 8) {
                Ok(bytes) => plain_from_memory_post::<u64>(
                    WindowModel::Snapshot(bytes),
                    0,
                    mem,
                    r2,
                ),
                Err(e) => r2 == Err::<u64, MemoryError>(e),
            },
            Err(e) => r2 == Err::<u64, MemoryError>(e),
        },
    ensures
        r1 == r2,
{
    lemma_reference_address_is_chain(mem, offsets);
    match resolve_address(mem, 0, offsets) {
        Ok(a) => {
            assert(seq![a].skip(1) =~= Seq::<u64>::empty());
            assert(resolve_address(mem, 0, seq![a]) == Ok::<u64, MemoryError>(wrap_add(0, a)));
            assert(wrap_add(0, a) == a);
            match read_result(mem, 0, offsets, 8) {
                Ok(bytes) => {
                    assert(read_result(mem, 0, seq![a], 8) == Ok::<Seq<u8>, MemoryError>(bytes));
                    assert(bytes.subrange(0, 8) =~= bytes);
                },
                Err(_) => {},
            }
        },
        Err(_) => {},
    }
}

/// A live window has no cache: a read through it is a function of the
/// remote bytes at that moment, so after remote memory changes, the next
/// read returns the bytes of the changed memory, not of the old one.
pub proof fn lemma_live_window_no_cache(
    address: u64,
    offset: u64,
    n: nat,
    mem1: Map<u64, u8>,
    mem2: Map<u64, u8>,
)
    requires
        readable(mem1, wrap_add(address, offset), n),
        readable(mem2, wrap_add(address, offset), n),
    ensures
        MemoryHandle::window_read(WindowModel::Live(address), true, mem1, offset, n)
            == Ok::<Seq<u8>, MemoryError>(bytes_at(mem1, wrap_add(address, offset), n)),
        MemoryHandle::window_read(WindowModel::Live(address), true, mem2, offset, n)
            == Ok::<Seq<u8>, MemoryError>(bytes_at(mem2, wrap_add(address, offset), n)),
{
}

/// Overwriting one remote byte is visible, byte for byte, to the very next
/// live read that covers it, and to no position that it does not cover.
pub proof fn lemma_live_read_sees_update(
    a: u64,
    n: nat,
    mem: Map<u64, u8>,
    addr: u64,
    val: u8,
)
    requires
        readable(mem, a, n),
    ensures
        readable(mem.insert(addr, val), a, n),
        forall|i: int|
            0 <= i < n && wrap_add(a, i as u64) == addr ==> #[trigger] bytes_at(
                mem.insert(addr, val),
                a,
                n,
            )[i] == val,
        forall|i: int|
            0 <= i < n && wrap_add(a, i as u64) != addr ==> #[trigger] bytes_at(
                mem.insert(addr, val),
                a,
                n,
            )[i] == bytes_at(mem, a, n)[i],
{
    let mem2 = mem.insert(addr, val);
    assert forall|i: u64| i < n implies #[trigger] mem2.dom().contains(wrap_add(a, i)) by {
        assert(mem.dom().contains(wrap_add(a, i)));
    }
}

/// The size threshold selects the view shape: a successful reference
/// request of known size up to [`SNAPSHOT_LIMIT`] bytes (the boundary
/// included) is snapshot-backed, and any other successful request is
/// live-backed.
pub proof fn lemma_reference_threshold(
    mem: Map<u64, u8>,
    address: u64,
    size: Option<usize>,
    r: Result<MemoryHandle, MemoryError>,
)
    requires
        matches_reference_result(mem, address, size, r),
        r is Ok,
    ensures
        (size is Some && size->0 <= SNAPSHOT_LIMIT) ==> r->Ok_0 is Cached,
        !(size is Some && size->0 <= SNAPSHOT_LIMIT) ==> (r->Ok_0 matches
            MemoryHandle::Reference(l) && l.address == address),
{
}

/// Any live operation issued once the backing session has been torn down
/// fails with `HandleDropped` — it neither hangs nor reads anything.
pub proof fn lemma_torn_down_fails(address: u64, offset: u64, n: nat, mem: Map<u64, u8>)
    ensures
        MemoryHandle::window_read(WindowModel::Live(address), false, mem, offset, n)
            == Err::<Seq<u8>, MemoryError>(MemoryError::HandleDropped),
{
}

/// Chain resolution, spelled out for a three-element chain `[a, b, c]`: the
/// address of the final read is `*(*(base + a) + b) + c` — the first two
/// offsets are dereferenced as pointers, the last is purely additive.
pub proof fn lemma_chain_of_three(mem: Map<u64, u8>, base: u64, a: u64, b: u64, c: u64)
    requires
        readable(mem, wrap_add(base, a), 8),
        readable(mem, wrap_add(ptr_at(mem, wrap_add(base, a)), b), 8),
    ensures
        resolve_address(mem, base, seq![a, b, c]) == Ok::<u64, MemoryError>(
            wrap_add(ptr_at(mem, wrap_add(ptr_at(mem, wrap_add(base, a)), b)), c),
        ),
{
    let offs = seq![a, b, c];
    let a1 = wrap_add(base, a);
    let a2 = wrap_add(ptr_at(mem, a1), b);
    let a3 = wrap_add(ptr_at(mem, a2), c);
    assert(offs.skip(1) =~= seq![b, c]);
    assert(seq![b, c].skip(1) =~= seq![c]);
    assert(seq![c].skip(1) =~= Seq::<u64>::empty());
    assert(crate::addr::chain_address(mem, a3, seq![c].skip(1)) == Ok::<u64, MemoryError>(a3));
    assert(crate::addr::chain_address(mem, a2, seq![c]) == Ok::<u64, MemoryError>(a3));
    assert(crate::addr::chain_address(mem, a1, seq![b, c]) == Ok::<u64, MemoryError>(a3));
}

} // verus!
