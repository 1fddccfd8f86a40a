//! A verified in-process channel: one contiguous image of remote memory held
//! in a local buffer.  It backs the crate's tests, and doubles as the
//! reference model of what a real driver binding must provide.

use vstd::prelude::*;
use crate::addr::{bytes_at, readable, wrap_add};
use crate::channel::{in_window, pattern_matches_at, Channel, Pattern};
use crate::error::MemoryError;
use crate::module::CS2ModuleInfo;

verus! {

/// A channel serving the window `[base, base + data.len())` from a local
/// buffer.  Every range-read request is appended to `reads`, so a test can
/// check which addresses an operation dereferenced and how many round trips
/// it took.
pub struct TestChannel {
    pub base: u64,
    pub data: Vec<u8>,
    pub table: CS2ModuleInfo,
    pub protected: bool,
    /// The start address of every range read served so far, in request order.
    pub reads: Vec<u64>,
}

/// The domain of an image: every address of the window that does not run
/// past the end of the address space.
pub open spec fn image_contains(img_base: u64, img_len: nat, a: u64) -> bool {
    img_base <= a && a - img_base < img_len
}

/// The memory image serving `data` at `img_base`.
pub open spec fn image_of(img_base: u64, data: Seq<u8>) -> Map<u64, u8> {
    Map::new(
        |a: u64| image_contains(img_base, data.len(), a),
        |a: u64| data[a - img_base],
    )
}

impl TestChannel {
    /// The memory image this channel serves.
    pub open spec fn spec_mem(&self) -> Map<u64, u8> {
        image_of(self.base, self.data@)
    }

    pub fn new(base: u64, data: Vec<u8>, table: CS2ModuleInfo) -> (r: TestChannel)
        ensures
            r.base == base,
            r.data == data,
            r.table == table,
            r.protected == false,
            r.reads@.len() == 0,
    {
        TestChannel { base, data, table, protected: false, reads: Vec::new() }
    }

    /// How many range reads this channel has served.
    pub fn read_count(&self) -> (r: usize)
        ensures
            r == self.reads@.len(),
    {
        self.reads.len()
    }

    /// The address of the `i`th range read served.
    pub fn read_at(&self, i: usize) -> (r: u64)
        requires
            i < self.reads@.len(),
        ensures
            r == self.reads@[i as int],
    {
        self.reads[i]
    }

    /// Overwrite one byte of the image, to let a test change remote memory
    /// between two accesses.
    pub fn poke(&mut self, address: u64, value: u8)
        requires
            old(self).spec_mem().dom().contains(address),
        ensures
            final(self).spec_mem() == old(self).spec_mem().insert(address, value),
            final(self).base == old(self).base,
            final(self).table == old(self).table,
            final(self).protected == old(self).protected,
            final(self).reads == old(self).reads,
    {
        let dlen = self.data.len();
        let idx = address - self.base;
        assert(idx < dlen);
        self.data[idx as usize] = value;
        proof {
            assert(self.spec_mem() =~= old(self).spec_mem().insert(address, value));
        }
    }
}

impl Channel for TestChannel {
    open spec fn mem(&self) -> Map<u64, u8> {
        self.spec_mem()
    }

    open spec fn modules(&self) -> CS2ModuleInfo {
        self.table
    }

    open spec fn protection(&self) -> bool {
        self.protected
    }

    fn read_into(&mut self, address: u64, buf: &mut Vec<u8>) -> (r: Result<(), MemoryError>) {
        let ghost m = old(self).spec_mem();
        let n = buf.len();
        self.reads.push(address);
        proof {
            assert(self.spec_mem() =~= m);
        }
        let mut out: Vec<u8> = Vec::new();
        let mut i: usize = 0;
        while i < n
            invariant
                i <= n,
                n == old(buf)@.len(),
                buf@ == old(buf)@,
                out@.len() == i,
                self.base == old(self).base,
                self.data == old(self).data,
                self.table == old(self).table,
                self.protected == old(self).protected,
                m == self.spec_mem(),
                forall|j: u64|
                    j < i ==> #[trigger] m.dom().contains(wrap_add(address, j)) && out@[j as int]
                        == m[wrap_add(address, j)],
            decreases n - i,
        {
            let p = address.wrapping_add(i as u64);
            assert(p == wrap_add(address, i as u64));
            if p >= self.base && p - self.base < self.data.len() as u64 {
                let idx = p - self.base;
                out.push(self.data[idx as usize]);
                i = i + 1;
            } else {
                proof {
                    assert(!m.dom().contains(p));
                    assert(!readable(m, address, n as nat)) by {
                        if readable(m, address, n as nat) {
                            assert(m.dom().contains(wrap_add(address, i as u64)));
                        }
                    }
                }
                return Err(MemoryError::ChannelFailure { address, length: n as u64 });
            }
        }
        proof {
            assert(readable(m, address, n as nat));
            assert forall|t: int| 0 <= t < n implies out@[t] == bytes_at(m, address, n as nat)[t]
                by {
                assert(m.dom().contains(wrap_add(address, t as u64)) && out@[(t as u64) as int]
                    == m[wrap_add(address, t as u64)]);
            }
            assert(out@ =~= bytes_at(m, address, n as nat));
        }
        *buf = out;
        Ok(())
    }

    fn toggle_protection(&mut self, enabled: bool) -> (r: Result<(), MemoryError>) {
        self.protected = enabled;
        proof {
            assert(self.spec_mem() =~= old(self).spec_mem());
        }
        Ok(())
    }

    fn query_modules(&mut self) -> (r: Result<CS2ModuleInfo, MemoryError>) {
        Ok(self.table)
    }

    fn find_pattern(&mut self, base: u64, size: u64, pattern: &Pattern) -> (r: Result<
        Option<u64>,
        MemoryError,
    >) {
        let ghost m = self.spec_mem();
        let plen = pattern.bytes.len();
        let dlen = self.data.len();
        if plen > dlen {
            proof {
                lemma_candidates_exhausted(m, self.base, self.data@, *pattern, base, size, 0);
            }
            return Ok(None);
        }
        let mut k: usize = 0;
        proof {
            assert forall|b: u64|
                in_window(base, size, b, pattern.bytes@.len() as nat) && b < self.base + 0 implies !#[trigger] pattern_matches_at(
                m,
                *pattern,
                b,
            ) by {
                if pattern_matches_at(m, *pattern, b) {
                    lemma_match_is_candidate(m, self.base, self.data@, *pattern, b);
                }
            }
        }
        // Candidate addresses are `self.base + k`; anything else leaves the
        // image and cannot match.
        while k <= dlen - plen
            invariant
                self.base == old(self).base,
                self.data == old(self).data,
                self.table == old(self).table,
                self.protected == old(self).protected,
                self.reads == old(self).reads,
                m == self.spec_mem(),
                pattern.wf(),
                base + size <= u64::MAX,
                plen == pattern.bytes@.len(),
                dlen == self.data@.len(),
                1 <= plen <= dlen,
                k <= dlen - plen + 1,
                forall|b: u64|
                    in_window(base, size, b, pattern.bytes@.len() as nat) && b < self.base + k
                        ==> !#[trigger] pattern_matches_at(m, *pattern, b),
            decreases dlen - k,
        {
            let a = match self.base.checked_add(k as u64) {
                Some(a) => a,
                None => {
                    proof {
                        lemma_candidates_exhausted(
                            m,
                            self.base,
                            self.data@,
                            *pattern,
                            base,
                            size,
                            k as nat,
                        );
                    }
                    return Ok(None);
                },
            };
            if a >= base && size >= plen as u64 && a - base <= size - plen as u64 {
                assert(in_window(base, size, a, pattern.bytes@.len() as nat));
                let mut j: usize = 0;
                let mut hit = true;
                while j < plen
                    invariant
                        self.base == old(self).base,
                        self.data == old(self).data,
                        m == self.spec_mem(),
                        pattern.wf(),
                        plen == pattern.bytes@.len(),
                        dlen == self.data@.len(),
                        1 <= plen <= dlen,
                        k + plen <= dlen,
                        a == self.base + k,
                        a + plen <= base + size <= u64::MAX,
                        j <= plen,
                        hit ==> forall|i: int|
                            0 <= i < j && #[trigger] pattern.mask@[i] ==> self.data@[k + i]
                                == pattern.bytes@[i],
                        !hit ==> !pattern_matches_at(m, *pattern, a),
                    decreases plen - j,
                {
                    if pattern_mask_at(pattern, j) {
                        let expected = pattern_byte_at(pattern, j);
                        let actual = self.data[k + j];
                        if actual != expected {
                            proof {
                                lemma_mismatch_no_match(
                                    m,
                                    self.base,
                                    self.data@,
                                    *pattern,
                                    k as nat,
                                    j as nat,
                                );
                            }
                            hit = false;
                        }
                    }
                    j = j + 1;
                }
                if hit {
                    proof {
                        lemma_candidate_matches(m, self.base, self.data@, *pattern, k as nat);
                    }
                    return Ok(Some(a));
                }
            }
            proof {
                assert forall|b: u64|
                    in_window(base, size, b, pattern.bytes@.len() as nat) && b < self.base + k + 1 implies !#[trigger] pattern_matches_at(
                    m,
                    *pattern,
                    b,
                ) by {
                    if b >= self.base + k {
                        assert(b == a);
                    }
                }
            }
            k = k + 1;
        }
        proof {
            lemma_candidates_exhausted(m, self.base, self.data@, *pattern, base, size, k as nat);
        }
        Ok(None)
    }
}

fn pattern_mask_at(pattern: &Pattern, j: usize) -> (r: bool)
    requires
        pattern.wf(),
        j < pattern.bytes@.len(),
    ensures
        r == pattern.mask@[j as int],
{
    pattern.mask[j]
}

fn pattern_byte_at(pattern: &Pattern, j: usize) -> (r: u8)
    requires
        pattern.wf(),
        j < pattern.bytes@.len(),
    ensures
        r == pattern.bytes@[j as int],
{
    pattern.bytes[j]
}

/// A matching address must be an in-image candidate `img_base + k` with the
/// whole pattern inside the image.
proof fn lemma_match_is_candidate(m: Map<u64, u8>, img_base: u64, data: Seq<u8>, p: Pattern, b: u64)
    requires
        p.wf(),
        data.len() <= usize::MAX,
        m == image_of(img_base, data),
        pattern_matches_at(m, p, b),
    ensures
        img_base <= b,
        b - img_base + p.bytes@.len() <= data.len(),
        b + p.bytes@.len() <= img_base + data.len(),
{
    let plen = p.bytes@.len() as nat;
    let img_len = data.len();
    assert(readable(m, b, plen));
    assert(m.dom().contains(wrap_add(b, 0)));
    assert(wrap_add(b, 0) == b);
    assert(image_contains(img_base, img_len, b));
    let k = b - img_base;
    if k + plen > img_len {
        let i = (img_len - k) as u64;
        assert(i < plen);
        assert(m.dom().contains(wrap_add(b, i)));
        let pos = wrap_add(b, i);
        assert(image_contains(img_base, img_len, pos));
        if b + i <= u64::MAX {
            assert(pos == img_base + img_len);
        } else {
            assert(pos == b + i - 0x1_0000_0000_0000_0000);
            assert(pos < img_base);
        }
        assert(false);
    }
}

/// Once every window address below `img_base + k` is ruled out and the
/// remaining candidates run off the image or the address space, nothing in
/// the window matches.
proof fn lemma_candidates_exhausted(
    m: Map<u64, u8>,
    img_base: u64,
    data: Seq<u8>,
    p: Pattern,
    base: u64,
    size: u64,
    k: nat,
)
    requires
        p.wf(),
        data.len() <= usize::MAX,
        m == image_of(img_base, data),
        k + p.bytes@.len() > data.len() || img_base + k > u64::MAX,
        forall|b: u64|
            in_window(base, size, b, p.bytes@.len() as nat) && img_base <= b && b < img_base + k
                ==> !#[trigger] pattern_matches_at(m, p, b),
    ensures
        forall|b: u64|
            in_window(base, size, b, p.bytes@.len() as nat) ==> !#[trigger] pattern_matches_at(
                m,
                p,
                b,
            ),
{
    assert forall|b: u64|
        in_window(base, size, b, p.bytes@.len() as nat) implies !#[trigger] pattern_matches_at(
        m,
        p,
        b,
    ) by {
        if pattern_matches_at(m, p, b) {
            lemma_match_is_candidate(m, img_base, data, p, b);
        }
    }
}

/// An in-image candidate whose fixed bytes all agree matches.
proof fn lemma_candidate_matches(m: Map<u64, u8>, img_base: u64, data: Seq<u8>, p: Pattern, k: nat)
    requires
        p.wf(),
        data.len() <= usize::MAX,
        m == image_of(img_base, data),
        k + p.bytes@.len() <= data.len(),
        img_base + k + p.bytes@.len() <= u64::MAX + 1,
        forall|i: int|
            0 <= i < p.bytes@.len() && #[trigger] p.mask@[i] ==> data[k + i] == p.bytes@[i],
    ensures
        pattern_matches_at(m, p, (img_base + k) as u64),
{
    let a = (img_base + k) as u64;
    let plen = p.bytes@.len() as nat;
    let img_len = data.len();
    assert forall|i: u64| i < plen implies #[trigger] m.dom().contains(wrap_add(a, i)) by {
        assert(wrap_add(a, i) == (img_base + k + i) as u64);
        assert(image_contains(img_base, img_len, (img_base + k + i) as u64));
    }
    assert(readable(m, a, plen));
    assert forall|i: int| 0 <= i < plen && #[trigger] p.mask@[i] implies bytes_at(m, a, plen)[i]
        == p.bytes@[i] by {
        let pos = wrap_add(a, i as u64);
        assert(pos == (img_base + k + i) as u64);
        assert(m.dom().contains(pos));
        assert(m[pos] == data[k + i]);
        assert(bytes_at(m, a, plen)[i] == m[pos]);
    }
}

/// A fixed position that disagrees rules the candidate out.
proof fn lemma_mismatch_no_match(
    m: Map<u64, u8>,
    img_base: u64,
    data: Seq<u8>,
    p: Pattern,
    k: nat,
    j: nat,
)
    requires
        p.wf(),
        data.len() <= usize::MAX,
        m == image_of(img_base, data),
        k + p.bytes@.len() <= data.len(),
        img_base + k + p.bytes@.len() <= u64::MAX + 1,
        j < p.bytes@.len(),
        p.mask@[j as int],
        data[k + j as int] != p.bytes@[j as int],
    ensures
        !pattern_matches_at(m, p, (img_base + k) as u64),
{
    let a = (img_base + k) as u64;
    let plen = p.bytes@.len() as nat;
    if pattern_matches_at(m, p, a) {
        let pos = wrap_add(a, j as u64);
        assert(pos == (img_base + k + j) as u64);
        assert(m.dom().contains(pos));
        assert(m[pos] == data[k + j as int]);
        assert(bytes_at(m, a, plen)[j as int] == m[pos]);
        assert(bytes_at(m, a, plen)[j as int] == p.bytes@[j as int]);
    }
}

} // verus!
