//! The model of remote memory and the resolution of chained pointer offsets.
//!
//! Remote memory is a partial map from 64-bit addresses to bytes: an address
//! outside the map's domain is a dead page, and a read touching it fails.

use vstd::prelude::*;
use crate::bytes::le_val;
use crate::error::MemoryError;

verus! {

/// Address arithmetic wraps around the 64-bit space.
pub open spec fn wrap_add(a: u64, b: u64) -> u64 {
    if a + b > u64::MAX {
        (a + b - 0x1_0000_0000_0000_0000) as u64
    } else {
        (a + b) as u64
    }
}

/// The bytes `[a, a + n)` are all present in remote memory.
pub open spec fn readable(mem: Map<u64, u8>, a: u64, n: nat) -> bool {
    forall|i: u64| i < n ==> #[trigger] mem.dom().contains(wrap_add(a, i))
}

/// The `n` bytes of remote memory starting at `a`.
pub open spec fn bytes_at(mem: Map<u64, u8>, a: u64, n: nat) -> Seq<u8> {
    Seq::new(n, |i: int| mem[wrap_add(a, i as u64)])
}

/// The pointer-sized little-endian value stored at `a`.
pub open spec fn ptr_at(mem: Map<u64, u8>, a: u64) -> u64 {
    le_val(bytes_at(mem, a, 8)) as u64
}

/// Resolve the tail of an offset chain.  `cur` is the address reached so
/// far; each remaining offset is added after dereferencing `cur` as a
/// pointer.  A dereference of an unreadable address fails the whole chain.
pub open spec fn chain_address(mem: Map<u64, u8>, cur: u64, rest: Seq<u64>) -> Result<
    u64,
    MemoryError,
>
    decreases rest.len(),
{
    if rest.len() == 0 {
        Ok(cur)
    } else if readable(mem, cur, 8) {
        chain_address(mem, wrap_add(ptr_at(mem, cur), rest[0]), rest.skip(1))
    } else {
        Err(MemoryError::ChannelFailure { address: cur, length: 8 })
    }
}

/// The address an offset chain denotes.  The module base is added to the
/// first offset; every element but the last is dereferenced as a pointer;
/// the last is a plain additive offset.  A chain of length 1 is the
/// module-relative address itself.  An empty chain addresses nothing and is
/// rejected as a malformed request.
pub open spec fn resolve_address(mem: Map<u64, u8>, base: u64, offsets: Seq<u64>) -> Result<
    u64,
    MemoryError,
> {
    if offsets.len() == 0 {
        Err(MemoryError::ChannelFailure { address: base, length: 0 })
    } else {
        chain_address(mem, wrap_add(base, offsets[0]), offsets.skip(1))
    }
}

/// What a raw chained read of `n` bytes returns: the bytes at the resolved
/// address, or the error of the first failing request.
pub open spec fn read_result(mem: Map<u64, u8>, base: u64, offsets: Seq<u64>, n: nat) -> Result<
    Seq<u8>,
    MemoryError,
> {
    match resolve_address(mem, base, offsets) {
        Ok(a) => if readable(mem, a, n) {
            Ok(bytes_at(mem, a, n))
        } else {
            Err(MemoryError::ChannelFailure { address: a, length: n as u64 })
        },
        Err(e) => Err(e),
    }
}

/// The address a live reference to an offset chain denotes: a chain of
/// length 1 is taken as the absolute address itself, never dereferenced;
/// a longer chain dereferences everything but the last element (one raw
/// pointer read of the prefix) and then adds the last offset.
pub open spec fn reference_address(mem: Map<u64, u8>, offsets: Seq<u64>) -> Result<
    u64,
    MemoryError,
> {
    if offsets.len() == 0 {
        Err(MemoryError::ChannelFailure { address: 0, length: 0 })
    } else if offsets.len() == 1 {
        Ok(offsets[0])
    } else {
        match read_result(mem, 0, offsets.take(offsets.len() - 1), 8) {
            Ok(bytes) => Ok(wrap_add(le_val(bytes) as u64, offsets[offsets.len() - 1])),
            Err(e) => Err(e),
        }
    }
}

/// Peeling the last offset off a chain tail: resolving `init + [last]`
/// dereferences the address that `init` reaches and adds `last`.
pub proof fn lemma_chain_split_last(mem: Map<u64, u8>, cur: u64, init: Seq<u64>, last: u64)
    ensures
        chain_address(mem, cur, init.push(last)) == match chain_address(mem, cur, init) {
            Ok(p) => if readable(mem, p, 8) {
                Ok(wrap_add(ptr_at(mem, p), last))
            } else {
                Err(MemoryError::ChannelFailure { address: p, length: 8 })
            },
            Err(e) => Err(e),
        },
    decreases init.len(),
{
    let rest = init.push(last);
    if init.len() == 0 {
        assert(rest[0] == last);
        assert(rest.skip(1) =~= Seq::<u64>::empty());
        if readable(mem, cur, 8) {
            let next = wrap_add(ptr_at(mem, cur), last);
            assert(chain_address(mem, cur, rest) == chain_address(mem, next, rest.skip(1)));
            assert(chain_address(mem, next, rest.skip(1)) == Ok::<u64, MemoryError>(next));
        }
        assert(chain_address(mem, cur, init) == Ok::<u64, MemoryError>(cur));
    } else {
        assert(rest[0] == init[0]);
        assert(rest.skip(1) =~= init.skip(1).push(last));
        if readable(mem, cur, 8) {
            let next = wrap_add(ptr_at(mem, cur), init[0]);
            lemma_chain_split_last(mem, next, init.skip(1), last);
            assert(chain_address(mem, cur, rest) == chain_address(mem, next, rest.skip(1)));
            assert(chain_address(mem, cur, init) == chain_address(mem, next, init.skip(1)));
        }
    }
}

/// The live-reference path and the chained-read path agree: for any
/// non-empty chain, the address a live reference denotes is exactly the
/// address the chained read dereferences to, module translation aside.
pub proof fn lemma_reference_address_is_chain(mem: Map<u64, u8>, offsets: Seq<u64>)
    requires
        offsets.len() >= 1,
    ensures
        reference_address(mem, offsets) == resolve_address(mem, 0, offsets),
{
    let n = offsets.len() as int;
    if offsets.len() == 1 {
        assert(offsets.skip(1) =~= Seq::<u64>::empty());
        assert(wrap_add(0, offsets[0]) == offsets[0]);
    } else {
        let prefix = offsets.take(n - 1);
        let last = offsets[n - 1];
        assert(offsets.skip(1) =~= prefix.skip(1).push(last));
        assert(prefix[0] == offsets[0]);
        lemma_chain_split_last(mem, wrap_add(0, offsets[0]), prefix.skip(1), last);
        match resolve_address(mem, 0, prefix) {
            Ok(p) => {
                assert(le_val(bytes_at(mem, p, 8)) as u64 == ptr_at(mem, p));
            },
            Err(_) => {},
        }
    }
}

} // verus!
