//! The remote session: the single entry point for cross-process reads.

use vstd::prelude::*;
use crate::addr::{bytes_at, chain_address, read_result, readable, resolve_address, wrap_add, ptr_at};
use crate::bytes::{le_decode, lemma_le_val_bound, lemma_pow256_8, PlainValue};
use crate::channel::{in_window, pattern_matches_at, Channel, Pattern};
use crate::error::MemoryError;
use crate::module::{CS2ModuleInfo, Module, ModuleInfo};

verus! {

/// The session over one attached target process: owns the channel and the
/// module table fetched at creation.  Everything that crosses the process
/// boundary goes through a method of this type.
pub struct CS2Handle<C: Channel> {
    pub channel: C,
    pub module_info: CS2ModuleInfo,
}

/// A zeroed buffer of the requested length.
pub(crate) fn zero_vec(n: usize) -> (r: Vec<u8>)
    ensures
        r@.len() == n,
{
    let mut v: Vec<u8> = Vec::new();
    while v.len() < n
        invariant
            v@.len() <= n,
        decreases n - v@.len(),
    {
        v.push(0);
    }
    v
}


/// There is a terminated C string of `k` non-zero bytes at `a`: the `k`
/// bytes and the terminator are readable, the terminator is the first zero.
pub open spec fn cstr_at(mem: Map<u64, u8>, a: u64, k: nat) -> bool {
    &&& k <= u64::MAX
    &&& readable(mem, a, k + 1)
    &&& forall|i: u64| i < k ==> #[trigger] mem[wrap_add(a, i)] != 0
    &&& mem[wrap_add(a, k as u64)] == 0
}

/// At most one `k` terminates the string at `a`.
pub proof fn lemma_cstr_unique(mem: Map<u64, u8>, a: u64, k1: nat, k2: nat)
    requires
        cstr_at(mem, a, k1),
        cstr_at(mem, a, k2),
    ensures
        k1 == k2,
{
    if k1 < k2 {
        assert(mem[wrap_add(a, k1 as u64)] != 0);
    }
    if k2 < k1 {
        assert(mem[wrap_add(a, k2 as u64)] != 0);
    }
}

/// The first length in the growth sequence `hint, hint + 8, ...` that is at
/// least `need`.
pub open spec fn grown_len(hint: nat, need: nat) -> nat
    decreases (if hint < need { need - hint } else { 0int }),
{
    if hint >= need {
        hint
    } else {
        grown_len(hint + 8, need)
    }
}

/// The growth sequence passes through each of its members exactly once: a
/// member of the sequence that covers `need`, whose predecessor does not,
/// is `grown_len(hint, need)`.
pub proof fn lemma_grown_len_exact(hint: nat, need: nat, len: nat)
    requires
        len >= hint,
        (len - hint) % 8 == 0,
        len >= need,
        len == hint || len - 8 < need,
    ensures
        grown_len(hint, need) == len,
    decreases (if hint < need { need - hint } else { 0int }),
{
    if hint >= need {
        if len != hint {
            assert(len >= hint + 8) by {
                assert((len - hint) % 8 == 0 && len - hint > 0);
            }
            assert(false);
        }
    } else {
        assert(len != hint);
        assert(len >= hint + 8) by {
            assert((len - hint) % 8 == 0 && len - hint > 0);
        }
        assert((len - (hint + 8)) % 8 == 0);
        lemma_grown_len_exact(hint + 8, need, len);
    }
}


/// The grown length always covers the need.
pub proof fn lemma_grown_len_bound(hint: nat, need: nat)
    ensures
        grown_len(hint, need) >= need,
        grown_len(hint, need) >= hint,
    decreases (if hint < need { need - hint } else { 0int }),
{
    if hint < need {
        lemma_grown_len_bound(hint + 8, need);
    }
}

/// Members of the growth sequence are 8 apart: when the needed length is
/// past a member `len`, the grown length is at least `len + 8`.
pub proof fn lemma_grown_len_step(hint: nat, need: nat, len: nat)
    requires
        len >= hint,
        (len - hint) % 8 == 0,
        need > len,
    ensures
        grown_len(hint, need) >= len + 8,
    decreases (if hint < need { need - hint } else { 0int }),
{
    if len == hint {
        lemma_grown_len_bound(hint + 8, need);
    } else {
        assert(len >= hint + 8) by {
            assert((len - hint) % 8 == 0 && len - hint > 0);
        }
        assert((len - (hint + 8)) % 8 == 0);
        lemma_grown_len_step(hint + 8, need, len);
    }
}


/// A failed read during the growth loop settles the outcome: if the string
/// is terminated at all, the failing length is exactly the grown length the
/// terminator needs, and that length is unreadable.
proof fn lemma_growth_read_failed(mem: Map<u64, u8>, a: u64, hint: nat, len: nat)
    requires
        len <= usize::MAX,
        hint <= len,
        (len - hint) % 8 == 0,
        !readable(mem, a, len),
        len == hint || forall|j: u64| j < len - 8 ==> #[trigger] mem[wrap_add(a, j)] != 0,
    ensures
        forall|k: nat| #[trigger] cstr_at(mem, a, k) ==> grown_len(hint, k + 1) == len
            && !readable(mem, a, grown_len(hint, k + 1)),
{
    assert forall|k: nat| #[trigger] cstr_at(mem, a, k) implies grown_len(hint, k + 1) == len
        && !readable(mem, a, grown_len(hint, k + 1)) by {
        if len < k + 1 {
            assert forall|i: u64| i < len implies #[trigger] mem.dom().contains(wrap_add(a, i)) by {
                assert(i < (k + 1) as nat);
            }
            assert(readable(mem, a, len));
        }
        if len != hint {
            assert(mem[wrap_add(a, k as u64)] == 0);
            assert(k >= len - 8);
        }
        lemma_grown_len_exact(hint, (k + 1) as nat, len);
    }
}

/// A terminator found during the growth loop settles the outcome: the first
/// zero of the read buffer terminates the string, it is the only terminator,
/// and the buffer length is exactly the grown length it needs.
proof fn lemma_growth_found_nul(mem: Map<u64, u8>, a: u64, hint: nat, len: nat, p: nat)
    requires
        len <= usize::MAX,
        hint <= len,
        (len - hint) % 8 == 0,
        readable(mem, a, len),
        p < len,
        bytes_at(mem, a, len)[p as int] == 0,
        forall|j: int| 0 <= j < p ==> bytes_at(mem, a, len)[j] != 0,
        len == hint || forall|j: u64| j < len - 8 ==> #[trigger] mem[wrap_add(a, j)] != 0,
    ensures
        cstr_at(mem, a, p),
        forall|k: nat| #[trigger] cstr_at(mem, a, k) ==> k == p,
        grown_len(hint, p + 1) == len,
        readable(mem, a, grown_len(hint, p + 1)),
{
    assert forall|i: u64| i < (p + 1) as nat implies #[trigger] mem.dom().contains(
        wrap_add(a, i),
    ) by {
        assert(i < len);
    }
    assert(readable(mem, a, (p + 1) as nat));
    assert forall|i: u64| i < p implies #[trigger] mem[wrap_add(a, i)] != 0 by {
        assert(bytes_at(mem, a, len)[i as int] == mem[wrap_add(a, i)]);
    }
    assert(mem[wrap_add(a, p as u64)] == 0) by {
        assert(bytes_at(mem, a, len)[p as int] == mem[wrap_add(a, p as u64)]);
    }
    assert(cstr_at(mem, a, p));
    assert forall|k: nat| #[trigger] cstr_at(mem, a, k) implies k == p by {
        lemma_cstr_unique(mem, a, k, p);
    }
    if len != hint && p < len - 8 {
        assert(mem[wrap_add(a, p as u64)] != 0);
    }
    lemma_grown_len_exact(hint, p + 1, len);
}

/// The characters that `bytes` decode to under UTF-8, when they are valid
/// UTF-8; what exactly is valid is std's business and is left unstated.
pub uninterp spec fn utf8_chars(bytes: Seq<u8>) -> Option<Seq<char>>;

/// Relies on std's `String::from_utf8`: success and result depend on the
/// bytes alone, and ASCII bytes decode to themselves, one char per byte.
#[verifier::external_body]
fn utf8_to_string(bytes: Vec<u8>) -> (r: Option<String>)
    ensures
        r is Some <==> utf8_chars(bytes@) is Some,
        r matches Some(s) ==> Some(s@) == utf8_chars(bytes@),
        (forall|i: int| 0 <= i < bytes@.len() ==> bytes@[i] < 0x80) ==> (r matches Some(s)
            && s@.len() == bytes@.len() && forall|i: int|
            0 <= i < bytes@.len() ==> s@[i] as u32 == bytes@[i] as u32),
{
    String::from_utf8(bytes).ok()
}

/// The position of the first zero byte, if any.
fn find_nul(buf: &Vec<u8>) -> (r: Option<usize>)
    ensures
        r matches Some(p) ==> p < buf@.len() && buf@[p as int] == 0 && forall|j: int|
            0 <= j < p ==> buf@[j] != 0,
        r is None ==> forall|j: int| 0 <= j < buf@.len() ==> buf@[j] != 0,
{
    let n = buf.len();
    let mut i: usize = 0;
    while i < n
        invariant
            i <= n,
            n == buf@.len(),
            forall|j: int| 0 <= j < i ==> buf@[j] != 0,
        decreases n - i,
    {
        if buf[i] == 0 {
            return Some(i);
        }
        i = i + 1;
    }
    None
}

impl<C: Channel> CS2Handle<C> {
    /// The module table is sane: no module window wraps the address space.
    pub open spec fn wf(&self) -> bool {
        self.module_info.wf()
    }

    /// The remote memory currently behind this session.
    pub open spec fn mem(&self) -> Map<u64, u8> {
        self.channel.mem()
    }

    /// Everything a read leaves alone: the module table, the remote memory
    /// model, and the protection state.
    pub open spec fn same_session(pre: Self, post: Self) -> bool {
        &&& post.module_info == pre.module_info
        &&& post.channel.mem() == pre.channel.mem()
        &&& post.channel.modules() == pre.channel.modules()
        &&& post.channel.protection() == pre.channel.protection()
    }

    /// Establish a session over a channel: ask the intermediary to shield
    /// the local process from inspection (a rejection is fatal), then fetch
    /// the module table once.  The session is never returned in a partially
    /// initialised state, and its table is fixed from here on.
    pub fn create(channel: C) -> (r: Result<CS2Handle<C>, MemoryError>)
        ensures
            r matches Ok(h) ==> {
                &&& h.wf()
                &&& h.module_info == channel.modules()
                &&& h.channel.mem() == channel.mem()
                &&& h.channel.modules() == channel.modules()
                &&& h.channel.protection()
            },
            r matches Err(e) ==> e matches MemoryError::ChannelFailure { .. } || e
                == MemoryError::InvalidModule,
            !channel.modules().wf() ==> r is Err,
            r == Err::<CS2Handle<C>, MemoryError>(MemoryError::InvalidModule)
                ==> !channel.modules().wf(),
    {
        let mut channel = channel;
        match channel.toggle_protection(true) {
            Ok(()) => {},
            Err(e) => {
                return Err(e);
            },
        }
        let table = match channel.query_modules() {
            Ok(t) => t,
            Err(e) => {
                return Err(e);
            },
        };
        if table.check() {
            Ok(CS2Handle { channel, module_info: table })
        } else {
            Err(MemoryError::InvalidModule)
        }
    }

    /// Re-issue the protection toggle on demand.
    pub fn protect_process(&mut self) -> (r: Result<(), MemoryError>)
        requires
            old(self).wf(),
        ensures
            final(self).wf(),
            final(self).module_info == old(self).module_info,
            final(self).channel.mem() == old(self).channel.mem(),
            final(self).channel.modules() == old(self).channel.modules(),
            r is Ok ==> final(self).channel.protection(),
            r matches Err(e) ==> e matches MemoryError::ChannelFailure { .. },
    {
        match self.channel.toggle_protection(true) {
            Ok(()) => Ok(()),
            Err(e) => Err(e),
        }
    }

    /// Translate an absolute address back into a module-relative offset:
    /// `Some(address - base)` if the address lies within the module's
    /// window, `None` otherwise.
    pub fn module_address(&self, module: Module, address: u64) -> (r: Option<u64>)
        requires
            self.wf(),
        ensures
            r == (if module.spec_info(self.module_info).contains(address) {
                Some((address - module.spec_info(self.module_info).base_address) as u64)
            } else {
                None::<u64>
            }),
    {
        let info = match module.get_base_offset(&self.module_info) {
            Some(info) => info,
            None => {
                return None;
            },
        };
        if address < info.base_address || address - info.base_address >= info.module_size {
            None
        } else {
            Some(address - info.base_address)
        }
    }

    /// Translate a module-relative offset into an absolute address.
    pub fn memory_address(&self, module: Module, offset: u64) -> (r: Result<u64, MemoryError>)
        requires
            self.wf(),
        ensures
            r == Ok::<u64, MemoryError>(
                wrap_add(module.spec_info(self.module_info).base_address, offset),
            ),
    {
        let info = match module.get_base_offset(&self.module_info) {
            Some(info) => info,
            None => {
                return Err(MemoryError::InvalidModule);
            },
        };
        Ok(info.base_address.wrapping_add(offset))
    }

    /// The raw chained read every typed read is built on: add the module
    /// base to the first offset, dereference every step but the last as a
    /// little-endian pointer, and fill `out` from the final address.
    pub fn read_raw(&mut self, module: Module, offsets: &[u64], out: &mut Vec<u8>) -> (r: Result<
        (),
        MemoryError,
    >)
        requires
            old(self).wf(),
        ensures
            final(self).wf(),
            Self::same_session(*old(self), *final(self)),
            ({
                let base = module.spec_info(old(self).module_info).base_address;
                match read_result(old(self).mem(), base, offsets@, old(out)@.len() as nat) {
                    Ok(bytes) => r == Ok::<(), MemoryError>(()) && final(out)@ == bytes,
                    Err(e) => r == Err::<(), MemoryError>(e) && final(out)@ == old(out)@,
                }
            }),
    {
        let ghost mem0 = self.mem();
        let info = match module.get_base_offset(&self.module_info) {
            Some(info) => info,
            None => {
                return Err(MemoryError::InvalidModule);
            },
        };
        let ghost base = info.base_address;
        if offsets.len() == 0 {
            return Err(MemoryError::ChannelFailure { address: info.base_address, length: 0 });
        }
        let mut cur: u64 = info.base_address.wrapping_add(offsets[0]);
        let mut idx: usize = 1;
        assert(resolve_address(mem0, base, offsets@) == chain_address(
            mem0,
            cur,
            offsets@.skip(1),
        ));
        while idx < offsets.len()
            invariant
                old(self).wf(),
                self.wf(),
                Self::same_session(*old(self), *self),
                mem0 == old(self).mem(),
                mem0 == self.mem(),
                base == module.spec_info(old(self).module_info).base_address,
                1 <= idx <= offsets@.len(),
                out@ == old(out)@,
                resolve_address(mem0, base, offsets@) == chain_address(
                    mem0,
                    cur,
                    offsets@.skip(idx as int),
                ),
            decreases offsets@.len() - idx,
        {
            let mut pbuf = zero_vec(8);
            match self.channel.read_into(cur, &mut pbuf) {
                Ok(()) => {
                    proof {
                        lemma_le_val_bound(pbuf@);
                        lemma_pow256_8();
                    }
                    let d = le_decode(pbuf.as_slice());
                    assert(d == ptr_at(mem0, cur));
                    let next = d.wrapping_add(offsets[idx]);
                    proof {
                        let rest = offsets@.skip(idx as int);
                        assert(rest[0] == offsets@[idx as int]);
                        assert(rest.skip(1) =~= offsets@.skip(idx + 1));
                        assert(chain_address(mem0, cur, rest) == chain_address(
                            mem0,
                            wrap_add(ptr_at(mem0, cur), rest[0]),
                            rest.skip(1),
                        ));
                    }
                    cur = next;
                    idx = idx + 1;
                },
                Err(e) => {
                    proof {
                        let rest = offsets@.skip(idx as int);
                        assert(rest.len() >= 1);
                        assert(!readable(mem0, cur, 8));
                        assert(chain_address(mem0, cur, rest) == Err::<u64, MemoryError>(
                            MemoryError::ChannelFailure { address: cur, length: 8 },
                        ));
                    }
                    return Err(e);
                },
            }
        }
        proof {
            assert(offsets@.skip(offsets@.len() as int) =~= Seq::<u64>::empty());
            assert(resolve_address(mem0, base, offsets@) == Ok::<u64, MemoryError>(cur));
        }
        match self.channel.read_into(cur, out) {
            Ok(()) => Ok(()),
            Err(e) => Err(e),
        }
    }

    /// Read one flat plain value through an offset chain.
    pub fn read<T: PlainValue>(&mut self, module: Module, offsets: &[u64]) -> (r: Result<
        T,
        MemoryError,
    >)
        requires
            old(self).wf(),
        ensures
            final(self).wf(),
            Self::same_session(*old(self), *final(self)),
            ({
                let base = module.spec_info(old(self).module_info).base_address;
                match read_result(old(self).mem(), base, offsets@, T::spec_size()) {
                    Ok(bytes) => r matches Ok(v) && v == T::spec_decode(bytes),
                    Err(e) => r == Err::<T, MemoryError>(e),
                }
            }),
    {
        let size = T::size();
        let mut buf = zero_vec(size);
        match self.read_raw(module, offsets, &mut buf) {
            Ok(()) => Ok(T::decode(buf.as_slice())),
            Err(e) => Err(e),
        }
    }

    /// Read `length` consecutive plain values through an offset chain into a
    /// fresh buffer.
    pub fn read_vec<T: PlainValue>(&mut self, module: Module, offsets: &[u64], length: usize) -> (r:
        Result<Vec<T>, MemoryError>)
        requires
            old(self).wf(),
            length * T::spec_size() <= usize::MAX,
        ensures
            final(self).wf(),
            Self::same_session(*old(self), *final(self)),
            ({
                let base = module.spec_info(old(self).module_info).base_address;
                match read_result(
                    old(self).mem(),
                    base,
                    offsets@,
                    (length * T::spec_size()) as nat,
                ) {
                    Ok(bytes) => r matches Ok(v) && v@.len() == length && forall|i: int|
                        0 <= i < length ==> v@[i] == T::spec_decode(
                            #[trigger] bytes.subrange(
                                i * T::spec_size(),
                                (i + 1) * T::spec_size(),
                            ),
                        ),
                    Err(e) => r == Err::<Vec<T>, MemoryError>(e),
                }
            }),
    {
        let size = T::size();
        let total = length * size;
        let mut raw = zero_vec(total);
        match self.read_raw(module, offsets, &mut raw) {
            Err(e) => Err(e),
            Ok(()) => {
                let ghost bytes = raw@;
                let mut out: Vec<T> = Vec::new();
                let mut i: usize = 0;
                while i < length
                    invariant
                        i <= length,
                        out@.len() == i,
                        1 <= size <= 8,
                        size == T::spec_size(),
                        total == length * size,
                        raw@ == bytes,
                        bytes.len() == total,
                        forall|j: int|
                            0 <= j < i ==> out@[j] == T::spec_decode(
                                #[trigger] bytes.subrange(j * size, (j + 1) * size),
                            ),
                    decreases length - i,
                {
                    proof {
                        assert((i + 1) * size <= length * size && i * size <= length * size) by (nonlinear_arith)
                            requires
                                0 <= i < length,
                                size >= 1,
                        ;
                        assert(i * size + size == (i + 1) * size) by (nonlinear_arith);
                    }
                    let start = i * size;
                    let piece = vstd::slice::slice_subrange(raw.as_slice(), start, start + size);
                    let v = T::decode(piece);
                    out.push(v);
                    i = i + 1;
                }
                Ok(out)
            },
        }
    }

    /// Fill a caller-provided buffer with consecutive plain values read
    /// through an offset chain.  On failure the buffer is left untouched.
    pub fn read_slice<T: PlainValue>(
        &mut self,
        module: Module,
        offsets: &[u64],
        buffer: &mut Vec<T>,
    ) -> (r: Result<(), MemoryError>)
        requires
            old(self).wf(),
            old(buffer)@.len() * T::spec_size() <= usize::MAX,
        ensures
            final(self).wf(),
            Self::same_session(*old(self), *final(self)),
            ({
                let base = module.spec_info(old(self).module_info).base_address;
                match read_result(
                    old(self).mem(),
                    base,
                    offsets@,
                    (old(buffer)@.len() * T::spec_size()) as nat,
                ) {
                    Ok(bytes) => r == Ok::<(), MemoryError>(()) && final(buffer)@.len() == old(
                        buffer,
                    )@.len() && forall|i: int|
                        0 <= i < old(buffer)@.len() ==> final(buffer)@[i] == T::spec_decode(
                            #[trigger] bytes.subrange(
                                i * T::spec_size(),
                                (i + 1) * T::spec_size(),
                            ),
                        ),
                    Err(e) => r == Err::<(), MemoryError>(e) && final(buffer)@ == old(buffer)@,
                }
            }),
    {
        let count = buffer.len();
        match self.read_vec::<T>(module, offsets, count) {
            Ok(v) => {
                *buffer = v;
                Ok(())
            },
            Err(e) => Err(e),
        }
    }


    /// Read a NUL-terminated string of unknown length.  Start from a guessed
    /// byte length (8 when no hint is given), read that much, and grow the
    /// guess by 8 until the buffer contains a terminator; then decode the
    /// bytes before the terminator as UTF-8.  The growth is unbounded by
    /// design: a remote value that is never terminated keeps the call
    /// re-reading for as long as the reads succeed, so callers that need a
    /// bound must impose their own.  (A guess that can no longer grow within
    /// a `usize` surfaces as a channel failure.)
    pub fn read_string(
        &mut self,
        module: Module,
        offsets: &[u64],
        expected_length: Option<usize>,
    ) -> (r: Result<String, MemoryError>)
        requires
            old(self).wf(),
        ensures
            final(self).wf(),
            Self::same_session(*old(self), *final(self)),
            ({
                let mem = old(self).mem();
                let base = module.spec_info(old(self).module_info).base_address;
                let hint = (if expected_length is Some {
                    expected_length->0
                } else {
                    8usize
                }) as nat;
                match resolve_address(mem, base, offsets@) {
                    Ok(a) => if exists|k: nat| cstr_at(mem, a, k) {
                        let k = choose|k: nat| cstr_at(mem, a, k);
                        let need = grown_len(hint, (k + 1) as nat);
                        if need <= usize::MAX && readable(mem, a, need) {
                            match utf8_chars(bytes_at(mem, a, k)) {
                                Some(cs) => r matches Ok(s) && s@ == cs,
                                None => r == Err::<String, MemoryError>(
                                    MemoryError::DecodeFailure,
                                ),
                            }
                        } else {
                            r matches Err(e) && e matches MemoryError::ChannelFailure { .. }
                        }
                    } else {
                        r matches Err(e) && e matches MemoryError::ChannelFailure { .. }
                    },
                    Err(e) => r == Err::<String, MemoryError>(e),
                }
            }),
    {
        let ghost mem0 = old(self).mem();
        let ghost base = module.spec_info(old(self).module_info).base_address;
        let ghost ra = resolve_address(mem0, base, offsets@);
        let mut len: usize = match expected_length {
            Some(l) => l,
            None => 8,
        };
        let ghost hint = len as nat;
        loop
            invariant
                old(self).wf(),
                self.wf(),
                Self::same_session(*old(self), *self),
                mem0 == old(self).mem(),
                mem0 == self.mem(),
                base == module.spec_info(old(self).module_info).base_address,
                ra == resolve_address(mem0, base, offsets@),
                hint == (if expected_length is Some {
                    expected_length->0
                } else {
                    8usize
                }) as nat,
                len >= hint,
                (len - hint) % 8 == 0,
                ra matches Ok(a) ==> (len == hint || (forall|j: u64|
                    j < len - 8 ==> #[trigger] mem0[wrap_add(a, j)] != 0)),
            decreases usize::MAX - len,
        {
            let mut buf = zero_vec(len);
            match self.read_raw(module, offsets, &mut buf) {
                Err(e) => {
                    proof {
                        if ra is Ok {
                            let a = ra->Ok_0;
                            lemma_growth_read_failed(mem0, a, hint, len as nat);
                        }
                    }
                    return Err(e);
                },
                Ok(()) => {
                    let ghost a = ra->Ok_0;
                    proof {
                        assert(ra is Ok);
                        assert(buf@ == bytes_at(mem0, a, len as nat));
                    }
                    match find_nul(&buf) {
                        Some(p) => {
                            proof {
                                lemma_growth_found_nul(mem0, a, hint, len as nat, p as nat);
                            }
                            buf.truncate(p);
                            proof {
                                assert(buf@ =~= bytes_at(mem0, a, p as nat));
                            }
                            match utf8_to_string(buf) {
                                Some(s) => {
                                    return Ok(s);
                                },
                                None => {
                                    return Err(MemoryError::DecodeFailure);
                                },
                            }
                        },
                        None => {
                            proof {
                                assert forall|j: u64| j < len as nat implies #[trigger] mem0[wrap_add(
                                    a,
                                    j,
                                )] != 0 by {
                                    assert(buf@[j as int] == mem0[wrap_add(a, j)]);
                                }
                            }
                            len = match len.checked_add(8) {
                                Some(next) => next,
                                None => {
                                    proof {
                                        if exists|k: nat| cstr_at(mem0, a, k) {
                                            let k = choose|k: nat| cstr_at(mem0, a, k);
                                            assert(mem0[wrap_add(a, k as u64)] == 0);
                                            assert(k >= len);
                                            lemma_grown_len_step(hint, (k + 1) as nat, len as nat);
                                        }
                                    }
                                    return Err(
                                        MemoryError::ChannelFailure { address: 0, length: 0 },
                                    );
                                },
                            };
                        },
                    }
                },
            }
        }
    }

    /// Search a module's window for a byte pattern and report the hit as a
    /// module-relative offset.  A pattern absent from the window is
    /// `Ok(None)`, never an error.
    pub fn find_pattern(&mut self, module: Module, pattern: &Pattern) -> (r: Result<
        Option<u64>,
        MemoryError,
    >)
        requires
            old(self).wf(),
            pattern.wf(),
        ensures
            final(self).wf(),
            Self::same_session(*old(self), *final(self)),
            ({
                let info = module.spec_info(old(self).module_info);
                match r {
                    Ok(Some(o)) => {
                        &&& o + pattern.bytes@.len() <= info.module_size
                        &&& info.contains((info.base_address + o) as u64)
                        &&& pattern_matches_at(
                            old(self).mem(),
                            *pattern,
                            (info.base_address + o) as u64,
                        )
                        &&& forall|b: u64|
                            in_window(
                                info.base_address,
                                info.module_size,
                                b,
                                pattern.bytes@.len() as nat,
                            ) && b < info.base_address + o ==> !#[trigger] pattern_matches_at(
                                old(self).mem(),
                                *pattern,
                                b,
                            )
                    },
                    Ok(None) => forall|b: u64|
                        in_window(
                            info.base_address,
                            info.module_size,
                            b,
                            pattern.bytes@.len() as nat,
                        ) ==> !#[trigger] pattern_matches_at(old(self).mem(), *pattern, b),
                    Err(e) => e matches MemoryError::ChannelFailure { .. },
                }
            }),
    {
        let info = match module.get_base_offset(&self.module_info) {
            Some(info) => info,
            None => {
                return Err(MemoryError::InvalidModule);
            },
        };
        match self.channel.find_pattern(info.base_address, info.module_size, pattern) {
            Ok(Some(address)) => Ok(Some(address - info.base_address)),
            Ok(None) => Ok(None),
            Err(e) => Err(e),
        }
    }
}

} // verus!
