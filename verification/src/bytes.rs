//! Little-endian interpretation of raw bytes as flat fixed-size values.

use vstd::prelude::*;

verus! {

/// 256 to the power `n`; the number of byte strings of length `n`.
pub open spec fn pow256(n: nat) -> nat
    decreases n,
{
    if n == 0 {
        1
    } else {
        256 * pow256((n - 1) as nat)
    }
}

/// The unsigned value of `bytes` read little-endian.
pub open spec fn le_val(bytes: Seq<u8>) -> nat
    decreases bytes.len(),
{
    if bytes.len() == 0 {
        0
    } else {
        (bytes[0] + 256 * le_val(bytes.skip(1))) as nat
    }
}

pub proof fn lemma_le_val_bound(bytes: Seq<u8>)
    ensures
        le_val(bytes) < pow256(bytes.len()),
    decreases bytes.len(),
{
    if bytes.len() > 0 {
        lemma_le_val_bound(bytes.skip(1));
    }
}

pub proof fn lemma_pow256_increases(a: nat, b: nat)
    requires
        a <= b,
    ensures
        pow256(a) <= pow256(b),
    decreases b,
{
    if a < b && b > 0 {
        lemma_pow256_increases(a, (b - 1) as nat);
    }
}

/// `pow256(8)` is one past `u64::MAX`: any eight bytes fit a `u64`.
pub proof fn lemma_pow256_8()
    ensures
        pow256(1) == 0x100,
        pow256(2) == 0x1_0000,
        pow256(4) == 0x1_0000_0000,
        pow256(8) == 0x1_0000_0000_0000_0000,
{
    assert(pow256(0) == 1);
    assert(pow256(1) == 256);
    assert(pow256(2) == 0x1_0000);
    assert(pow256(3) == 0x100_0000);
    assert(pow256(4) == 0x1_0000_0000);
    assert(pow256(5) == 0x100_0000_0000);
    assert(pow256(6) == 0x1_0000_0000_0000);
    assert(pow256(7) == 0x100_0000_0000_0000);
}

/// Read up to eight bytes as a little-endian unsigned value.
pub fn le_decode(bytes: &[u8]) -> (r: u64)
    requires
        bytes@.len() <= 8,
    ensures
        r as nat == le_val(bytes@),
{
    let ghost all = bytes@;
    let mut acc: u64 = 0;
    let mut i: usize = bytes.len();
    proof {
        assert(all.skip(i as int) =~= Seq::<u8>::empty());
    }
    while i > 0
        invariant
            i <= all.len() <= 8,
            bytes@ == all,
            acc as nat == le_val(all.skip(i as int)),
        decreases i,
    {
        proof {
            lemma_le_val_bound(all.skip(i as int));
            lemma_pow256_increases(all.skip(i as int).len(), 7);
            lemma_pow256_8();
            assert(all.skip(i - 1).skip(1) =~= all.skip(i as int));
            assert(le_val(all.skip(i - 1)) == all[i - 1] + 256 * le_val(all.skip(i as int)));
        }
        i = i - 1;
        acc = acc * 256 + (bytes[i] as u64);
    }
    proof {
        assert(all.skip(0) =~= all);
    }
    acc
}

/// A flat fixed-size plain value: something a raw remote read can produce by
/// reinterpreting a small little-endian byte window.
pub trait PlainValue: Sized {
    /// How many bytes one value occupies.
    spec fn spec_size() -> nat;

    /// The value denoted by a byte window of exactly `spec_size()` bytes.
    spec fn spec_decode(bytes: Seq<u8>) -> Self;

    fn size() -> (r: usize)
        ensures
            r as nat == Self::spec_size(),
            1 <= r <= 8,
    ;

    fn decode(bytes: &[u8]) -> (r: Self)
        requires
            bytes@.len() == Self::spec_size(),
        ensures
            r == Self::spec_decode(bytes@),
    ;
}

impl PlainValue for u8 {
    open spec fn spec_size() -> nat {
        1
    }

    open spec fn spec_decode(bytes: Seq<u8>) -> u8 {
        (le_val(bytes) % 0x100) as u8
    }

    fn size() -> usize {
        1
    }

    fn decode(bytes: &[u8]) -> u8 {
        proof {
            lemma_le_val_bound(bytes@);
            lemma_pow256_8();
        }
        let r = le_decode(bytes);
        r as u8
    }
}

impl PlainValue for u16 {
    open spec fn spec_size() -> nat {
        2
    }

    open spec fn spec_decode(bytes: Seq<u8>) -> u16 {
        (le_val(bytes) % 0x1_0000) as u16
    }

    fn size() -> usize {
        2
    }

    fn decode(bytes: &[u8]) -> u16 {
        proof {
            lemma_le_val_bound(bytes@);
            lemma_pow256_8();
        }
        let r = le_decode(bytes);
        r as u16
    }
}

impl PlainValue for u32 {
    open spec fn spec_size() -> nat {
        4
    }

    open spec fn spec_decode(bytes: Seq<u8>) -> u32 {
        (le_val(bytes) % 0x1_0000_0000) as u32
    }

    fn size() -> usize {
        4
    }

    fn decode(bytes: &[u8]) -> u32 {
        proof {
            lemma_le_val_bound(bytes@);
            lemma_pow256_8();
        }
        let r = le_decode(bytes);
        r as u32
    }
}

impl PlainValue for u64 {
    open spec fn spec_size() -> nat {
        8
    }

    open spec fn spec_decode(bytes: Seq<u8>) -> u64 {
        le_val(bytes) as u64
    }

    fn size() -> usize {
        8
    }

    fn decode(bytes: &[u8]) -> u64 {
        proof {
            lemma_le_val_bound(bytes@);
            lemma_pow256_8();
        }
        le_decode(bytes)
    }
}

} // verus!
