//! Model of the readable portion of a target process's address space.
//!
//! A [`MemSnapshot`] holds byte regions keyed by absolute address. Its view
//! is the partial map from addresses to bytes that a reader of the target
//! process can observe. Reads mirror the semantics of a raw remote-memory
//! read: a read starting at an unreadable address fails outright, while a
//! read that runs off the end of a readable region is short — it returns
//! only the bytes that could be obtained.

use vstd::prelude::*;

verus! {

/// Error returned when a remote read fails outright (the first requested
/// byte is not readable).
#[derive(Clone, Copy, Debug, PartialEq, Eq, Structural)]
pub struct ReadError;

/// True when every address in `[a, a + n)` is readable in `m`.
pub open spec fn readable(m: Map<int, u8>, a: int, n: int) -> bool {
    forall|i: int| a <= i < a + n ==> #[trigger] m.dom().contains(i)
}

/// Length of the contiguous readable run starting at `a`, capped at `n`:
/// the number of bytes a short read beginning at `a` yields.
pub open spec fn run_len(m: Map<int, u8>, a: int, n: int) -> int
    decreases n,
{
    if n <= 0 {
        0
    } else if m.dom().contains(a) {
        1 + run_len(m, a + 1, n - 1)
    } else {
        0
    }
}

pub proof fn lemma_run_len_bounds(m: Map<int, u8>, a: int, n: int)
    requires
        n >= 0,
    ensures
        0 <= run_len(m, a, n) <= n,
    decreases n,
{
    if n > 0 && m.dom().contains(a) {
        lemma_run_len_bounds(m, a + 1, n - 1);
    }
}

pub proof fn lemma_run_len_exact(m: Map<int, u8>, a: int, n: int, k: int)
    requires
        0 <= k <= n,
        forall|i: int| a <= i < a + k ==> #[trigger] m.dom().contains(i),
        k < n ==> !m.dom().contains(a + k),
    ensures
        run_len(m, a, n) == k,
    decreases n,
{
    if k == 0 {
        if n > 0 {
            assert(!m.dom().contains(a));
        }
    } else {
        assert(m.dom().contains(a));
        lemma_run_len_exact(m, a + 1, n - 1, k - 1);
    }
}

pub proof fn lemma_run_len_full(m: Map<int, u8>, a: int, n: int)
    requires
        n >= 0,
    ensures
        run_len(m, a, n) == n <==> readable(m, a, n),
    decreases n,
{
    if readable(m, a, n) {
        lemma_run_len_exact(m, a, n, n);
    }
    if run_len(m, a, n) == n && n > 0 {
        assert(m.dom().contains(a));
        lemma_run_len_full(m, a + 1, n - 1);
        assert forall|i: int| a <= i < a + n implies #[trigger] m.dom().contains(i) by {
            if i != a {
                assert(a + 1 <= i < a + 1 + (n - 1));
            }
        }
    }
}

/// The 32-bit little-endian value stored at `a` (meaningful when
/// `readable(m, a, 4)` holds).
pub open spec fn le32_at(m: Map<int, u8>, a: int) -> int {
    m[a] + m[a + 1] * 0x100 + m[a + 2] * 0x1_0000 + m[a + 3] * 0x100_0000
}

/// The 64-bit little-endian value stored at `a` (meaningful when
/// `readable(m, a, 8)` holds).
pub open spec fn le64_at(m: Map<int, u8>, a: int) -> u64 {
    (m[a] + m[a + 1] * 0x100 + m[a + 2] * 0x1_0000 + m[a + 3] * 0x100_0000
        + m[a + 4] * 0x1_0000_0000 + m[a + 5] * 0x100_0000_0000
        + m[a + 6] * 0x1_0000_0000_0000 + m[a + 7] * 0x100_0000_0000_0000) as u64
}

/// The 64-bit little-endian value at position `i` of a byte sequence.
pub open spec fn le64_seq(s: Seq<u8>, i: int) -> u64 {
    (s[i] + s[i + 1] * 0x100 + s[i + 2] * 0x1_0000 + s[i + 3] * 0x100_0000
        + s[i + 4] * 0x1_0000_0000 + s[i + 5] * 0x100_0000_0000
        + s[i + 6] * 0x1_0000_0000_0000 + s[i + 7] * 0x100_0000_0000_0000) as u64
}

/// Assembles a 64-bit counter from eight little-endian bytes of a buffer.
pub fn load_u64_le(buf: &Vec<u8>, pos: usize) -> (v: u64)
    requires
        pos + 8 <= buf@.len(),
    ensures
        v == le64_seq(buf@, pos as int),
{
    // The buffer's length is a usize, so the eight indices below fit too.
    let n: usize = buf.len();
    proof {
        assert(pos + 8 <= n);
    }
    (buf[pos] as u64) + (buf[pos + 1] as u64) * 0x100 + (buf[pos + 2] as u64) * 0x1_0000
        + (buf[pos + 3] as u64) * 0x100_0000 + (buf[pos + 4] as u64) * 0x1_0000_0000
        + (buf[pos + 5] as u64) * 0x100_0000_0000 + (buf[pos + 6] as u64) * 0x1_0000_0000_0000
        + (buf[pos + 7] as u64) * 0x100_0000_0000_0000
}

/// When a buffer mirrors the bytes of `m` starting at `start`, a 64-bit
/// load from the buffer agrees with the value stored in `m`.
pub proof fn lemma_le64_from_buffer(m: Map<int, u8>, start: int, buf: Seq<u8>, pos: int)
    requires
        0 <= pos,
        pos + 8 <= buf.len(),
        forall|i: int| 0 <= i < buf.len() ==> #[trigger] buf[i] == m[start + i],
    ensures
        le64_seq(buf, pos) == le64_at(m, start + pos),
{
    assert(buf[pos] == m[start + pos]);
    assert(buf[pos + 1] == m[start + pos + 1]);
    assert(buf[pos + 2] == m[start + pos + 2]);
    assert(buf[pos + 3] == m[start + pos + 3]);
    assert(buf[pos + 4] == m[start + pos + 4]);
    assert(buf[pos + 5] == m[start + pos + 5]);
    assert(buf[pos + 6] == m[start + pos + 6]);
    assert(buf[pos + 7] == m[start + pos + 7]);
}

/// One contiguous readable region of the target's address space.
struct MemRegion {
    start: u64,
    bytes: Vec<u8>,
}

impl MemRegion {
    spec fn end(self) -> int {
        self.start + self.bytes@.len()
    }

    spec fn covers(self, a: int) -> bool {
        self.start <= a < self.end()
    }

    spec fn byte_at(self, a: int) -> u8 {
        self.bytes@[a - self.start]
    }

    spec fn wf(self) -> bool {
        self.bytes@.len() > 0 && self.end() <= u64::MAX
    }
}

spec fn separated(r1: MemRegion, r2: MemRegion) -> bool {
    r1.end() < r2.start || r2.end() < r1.start
}

/// The map holding `bytes` at addresses `start`, `start + 1`, ...
pub open spec fn region_map(start: int, bytes: Seq<u8>) -> Map<int, u8> {
    Map::new(|a: int| start <= a < start + bytes.len(), |a: int| bytes[a - start])
}

/// True when a region of `len` bytes at `start` can be added to the memory
/// map `m`: it must fit below the address-space limit and be separated from
/// every readable address by at least one unreadable byte on each side.
pub open spec fn can_add(m: Map<int, u8>, start: int, len: int) -> bool {
    &&& start + len <= u64::MAX
    &&& forall|a: int| start - 1 <= a <= start + len ==> !(#[trigger] m.dom().contains(a))
}

/// An address-keyed collection of byte regions standing for everything a
/// remote reader can observe of one process instance at one moment.
pub struct MemSnapshot {
    regions: Vec<MemRegion>,
}

impl View for MemSnapshot {
    type V = Map<int, u8>;

    closed spec fn view(&self) -> Map<int, u8> {
        Map::new(|a: int| self.covered(a), |a: int| self.byte_lookup(a))
    }
}

impl MemSnapshot {
    #[verifier::type_invariant]
    spec fn wf(self) -> bool {
        &&& forall|i: int| 0 <= i < self.regions@.len() ==> (#[trigger] self.regions@[i]).wf()
        &&& forall|i: int, j: int|
            0 <= i < self.regions@.len() && 0 <= j < self.regions@.len() && i != j
                ==> separated(#[trigger] self.regions@[i], #[trigger] self.regions@[j])
    }

    spec fn covered(self, a: int) -> bool {
        exists|i: int| 0 <= i < self.regions@.len() && (#[trigger] self.regions@[i]).covers(a)
    }

    spec fn byte_lookup(self, a: int) -> u8 {
        let i: int = choose|i: int| 0 <= i < self.regions@.len() && (#[trigger] self.regions@[i]).covers(a);
        self.regions@[i].byte_at(a)
    }

    proof fn lemma_region_byte(self, i: int, a: int)
        requires
            self.wf(),
            0 <= i < self.regions@.len(),
            self.regions@[i].covers(a),
        ensures
            self@.dom().contains(a),
            self@[a] == self.regions@[i].byte_at(a),
    {
        assert(self.covered(a));
        let j: int = choose|j: int| 0 <= j < self.regions@.len() && (#[trigger] self.regions@[j]).covers(a);
        if j != i {
            assert(separated(self.regions@[i], self.regions@[j]));
            assert(false);
        }
    }

    /// A snapshot with nothing readable.
    pub fn new() -> (s: MemSnapshot)
        ensures
            s@ == Map::<int, u8>::empty(),
    {
        let s = MemSnapshot { regions: Vec::new() };
        proof {
            assert(s@ =~= Map::<int, u8>::empty());
        }
        s
    }

    /// Makes `bytes` readable at addresses `start`, `start + 1`, ...
    ///
    /// The region is rejected — and the snapshot left unchanged — when it
    /// would run past the address-space limit or touch an already readable
    /// address (regions must be separated by at least one unreadable byte,
    /// as distinct readable ranges of a real address space are).
    pub fn add_region(&mut self, start: u64, bytes: Vec<u8>) -> (ok: bool)
        ensures
            ok == can_add(old(self)@, start as int, bytes@.len() as int),
            ok ==> final(self)@ == old(self)@.union_prefer_right(
                region_map(start as int, bytes@),
            ),
            !ok ==> final(self)@ == old(self)@,
    {
        proof {
            use_type_invariant(&*self);
        }
        let ghost pre = *self;
        let len_u64: u64 = bytes.len() as u64;
        if len_u64 > u64::MAX - start {
            proof {
                assert(!can_add(pre@, start as int, bytes@.len() as int));
            }
            return false;
        }
        // Scan for a region that would touch the new one.
        let n: usize = self.regions.len();
        let mut idx: usize = 0;
        while idx < n
            invariant
                *self == pre,
                self.wf(),
                n == self.regions@.len(),
                idx <= n,
                start + len_u64 <= u64::MAX,
                len_u64 == bytes@.len(),
                forall|i: int|
                    0 <= i < idx ==> separated_from_new(
                        #[trigger] self.regions@[i],
                        start as int,
                        bytes@.len() as int,
                    ),
            decreases n - idx,
        {
            let r_start: u64 = self.regions[idx].start;
            let r_len: usize = self.regions[idx].bytes.len();
            let r_end: u64 = r_start + r_len as u64;
            if !(r_end < start || start + len_u64 < r_start) {
                // This region touches the new range: find a readable address
                // inside the forbidden band around the new region.
                proof {
                    let i: int = idx as int;
                    let r = self.regions@[i];
                    let a: int = if r.start as int >= start as int {
                        r.start as int
                    } else {
                        start as int - 1
                    };
                    assert(r.covers(a));
                    self.lemma_region_byte(i, a);
                    assert(!can_add(pre@, start as int, bytes@.len() as int));
                }
                return false;
            }
            idx += 1;
        }
        // No region touches the new range; every address in the band around
        // it is unreadable.
        proof {
            assert forall|a: int| start as int - 1 <= a <= start as int + bytes@.len()
                implies !(#[trigger] pre@.dom().contains(a)) by {
                if pre@.dom().contains(a) {
                    assert(pre.covered(a));
                    let i: int = choose|i: int|
                        0 <= i < pre.regions@.len() && (#[trigger] pre.regions@[i]).covers(a);
                    assert(separated_from_new(pre.regions@[i], start as int, bytes@.len() as int));
                }
            }
            assert(can_add(pre@, start as int, bytes@.len() as int));
        }
        if bytes.len() == 0 {
            proof {
                assert(final(self)@ =~= pre@.union_prefer_right(
                    region_map(start as int, bytes@),
                ));
            }
            return true;
        }
        let region = MemRegion { start, bytes };
        let ghost new_region = region;
        let mut regions: Vec<MemRegion> = Vec::new();
        std::mem::swap(&mut regions, &mut self.regions);
        regions.push(region);
        proof {
            assert forall|i: int, j: int|
                0 <= i < regions@.len() && 0 <= j < regions@.len() && i != j
                    implies separated(#[trigger] regions@[i], #[trigger] regions@[j]) by {
                let last: int = regions@.len() - 1;
                if i == last {
                    assert(separated_from_new(regions@[j], new_region.start as int,
                        new_region.bytes@.len() as int));
                } else if j == last {
                    assert(separated_from_new(regions@[i], new_region.start as int,
                        new_region.bytes@.len() as int));
                }
            }
        }
        self.regions = regions;
        proof {
            self.lemma_view_after_push(pre, new_region);
        }
        true
    }

    proof fn lemma_view_after_push(self, pre: MemSnapshot, new_region: MemRegion)
        requires
            self.wf(),
            pre.wf(),
            self.regions@ == pre.regions@.push(new_region),
        ensures
            self@ == pre@.union_prefer_right(
                region_map(new_region.start as int, new_region.bytes@),
            ),
    {
        let last: int = pre.regions@.len() as int;
        let target = pre@.union_prefer_right(
            region_map(new_region.start as int, new_region.bytes@),
        );
        assert forall|a: int| self@.dom().contains(a) == target.dom().contains(a) by {
            if self.covered(a) {
                let i: int = choose|i: int|
                    0 <= i < self.regions@.len() && (#[trigger] self.regions@[i]).covers(a);
                if i < last {
                    assert(pre.regions@[i].covers(a));
                    assert(pre.covered(a));
                }
            }
            if pre.covered(a) {
                let i: int = choose|i: int|
                    0 <= i < pre.regions@.len() && (#[trigger] pre.regions@[i]).covers(a);
                assert(self.regions@[i].covers(a));
                assert(self.covered(a));
            }
            if new_region.covers(a) {
                assert(self.regions@[last].covers(a));
                assert(self.covered(a));
            }
        }
        assert forall|a: int| #[trigger] self@.dom().contains(a)
            implies self@[a] == target[a] by {
            let i: int = choose|i: int|
                0 <= i < self.regions@.len() && (#[trigger] self.regions@[i]).covers(a);
            self.lemma_region_byte(i, a);
            if i == last {
                // The byte comes from the new region; the new region is
                // separated from every old one, so `a` is not in `pre`'s view.
                if pre.covered(a) {
                    let j: int = choose|j: int|
                        0 <= j < pre.regions@.len() && (#[trigger] pre.regions@[j]).covers(a);
                    assert(separated(self.regions@[last], self.regions@[j]));
                    assert(false);
                }
            } else {
                assert(pre.regions@[i].covers(a));
                pre.lemma_region_byte(i, a);
                if new_region.covers(a) {
                    assert(separated(self.regions@[i], self.regions@[last]));
                    assert(false);
                }
            }
        }
        assert(self@ =~= target);
    }

    /// Copies up to `len` bytes starting at `addr`. Fails only when `addr`
    /// itself is unreadable; a read that runs off the end of the readable
    /// run is short, and callers expecting an exact length must check the
    /// returned buffer's length.
    pub fn read_bytes(&self, addr: u64, len: usize) -> (r: Result<Vec<u8>, ReadError>)
        ensures
            r is Ok <==> self@.dom().contains(addr as int),
            r matches Ok(buf) ==> {
                &&& buf@.len() == run_len(self@, addr as int, len as int)
                &&& forall|i: int| 0 <= i < buf@.len() ==> #[trigger] buf@[i] == self@[addr + i]
            },
    {
        proof {
            use_type_invariant(&*self);
        }
        let n: usize = self.regions.len();
        let mut idx: usize = 0;
        while idx < n
            invariant
                self.wf(),
                n == self.regions@.len(),
                idx <= n,
                forall|i: int| 0 <= i < idx ==> !(#[trigger] self.regions@[i]).covers(addr as int),
            decreases n - idx,
        {
            let r_start: u64 = self.regions[idx].start;
            let r_len: usize = self.regions[idx].bytes.len();
            if r_start <= addr && addr - r_start < r_len as u64 {
                let off: usize = (addr - r_start) as usize;
                let avail: usize = r_len - off;
                let k: usize = if len < avail {
                    len
                } else {
                    avail
                };
                let mut out: Vec<u8> = Vec::new();
                let mut j: usize = 0;
                while j < k
                    invariant
                        self.wf(),
                        idx < self.regions@.len(),
                        off + k <= r_len,
                        r_len == self.regions@[idx as int].bytes@.len(),
                        j <= k,
                        out@.len() == j as int,
                        forall|t: int|
                            0 <= t < j ==> #[trigger] out@[t]
                                == self.regions@[idx as int].bytes@[off + t],
                    decreases k - j,
                {
                    let b: u8 = self.regions[idx].bytes[off + j];
                    out.push(b);
                    j += 1;
                }
                proof {
                    let i: int = idx as int;
                    let region = self.regions@[i];
                    assert forall|t: int| 0 <= t < k implies {
                        &&& self@.dom().contains(addr + t)
                        &&& #[trigger] out@[t] == self@[addr + t]
                    } by {
                        assert(region.covers(addr + t));
                        self.lemma_region_byte(i, addr + t);
                        assert(region.byte_at(addr + t) == region.bytes@[off + t]);
                    }
                    if (k as int) < len as int {
                        // The read stopped at the region's end, which no
                        // region covers.
                        let boundary: int = addr + k;
                        assert(boundary == region.end());
                        if self@.dom().contains(boundary) {
                            assert(self.covered(boundary));
                            let j2: int = choose|j2: int|
                                0 <= j2 < self.regions@.len()
                                    && (#[trigger] self.regions@[j2]).covers(boundary);
                            if j2 != i {
                                assert(separated(self.regions@[i], self.regions@[j2]));
                            }
                            assert(false);
                        }
                    }
                    lemma_run_len_exact(self@, addr as int, len as int, k as int);
                    assert(self.regions@[i].covers(addr as int));
                    self.lemma_region_byte(i, addr as int);
                }
                return Ok(out);
            }
            idx += 1;
        }
        proof {
            if self@.dom().contains(addr as int) {
                assert(self.covered(addr as int));
                let i: int = choose|i: int|
                    0 <= i < self.regions@.len() && (#[trigger] self.regions@[i]).covers(addr as int);
                assert(false);
            }
        }
        Err(ReadError)
    }

    /// A fixed four-byte little-endian read: the pointer-sized dereference
    /// primitive. Fails unless all four bytes are readable.
    pub fn read_u32(&self, addr: u64) -> (r: Result<u32, ReadError>)
        ensures
            r is Ok <==> readable(self@, addr as int, 4),
            r matches Ok(v) ==> v as int == le32_at(self@, addr as int),
    {
        let buf = match self.read_bytes(addr, 4) {
            Ok(buf) => buf,
            Err(e) => {
                proof {
                    assert(!readable(self@, addr as int, 4)) by {
                        assert(!self@.dom().contains(addr as int));
                    }
                }
                return Err(e);
            },
        };
        proof {
            lemma_run_len_bounds(self@, addr as int, 4);
            lemma_run_len_full(self@, addr as int, 4);
        }
        if buf.len() < 4 {
            return Err(ReadError);
        }
        let v: u32 = (buf[0] as u32) + (buf[1] as u32) * 0x100 + (buf[2] as u32) * 0x1_0000
            + (buf[3] as u32) * 0x100_0000;
        proof {
            assert(buf@[0] == self@[addr as int]);
            assert(buf@[1] == self@[addr as int + 1]);
            assert(buf@[2] == self@[addr as int + 2]);
            assert(buf@[3] == self@[addr as int + 3]);
        }
        Ok(v)
    }
}

/// Separation between an existing region and a prospective new region of
/// `len` bytes at `start`.
spec fn separated_from_new(r: MemRegion, start: int, len: int) -> bool {
    r.end() < start || start + len < r.start
}

} // verus!
