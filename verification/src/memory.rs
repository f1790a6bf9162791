//! Plain-value model of the CPU's mapped memory: a set of pairwise-disjoint
//! byte regions. The emulation host owns the real address space; this model
//! carries the same contents so that region loading, patches, DMA transfers
//! and interrupt stack frames can be computed and proved over plain bytes.
//!
//! The mathematical view of a memory is a sequence of `(start, bytes)` pairs.

use vstd::prelude::*;

verus! {

/// One mapped region: `data.len()` bytes starting at `start`.
pub struct MemRegion {
    pub start: u32,
    pub data: Vec<u8>,
}

/// The spec-level form of a region: its start and its bytes.
pub type RegionV = (u32, Seq<u8>);

/// The spec-level form of a memory.
pub type MemV = Seq<RegionV>;

/// The region covers `addr`.
pub open spec fn region_contains(r: RegionV, addr: u32) -> bool {
    r.0 <= addr < r.0 + r.1.len()
}

/// The whole range `[addr, addr+len)` lies inside the region.
pub open spec fn region_contains_range(r: RegionV, addr: u32, len: int) -> bool {
    r.0 <= addr && addr + len <= r.0 + r.1.len()
}

/// Replaces `s[off .. off+src.len()]` by `src`, leaving the rest unchanged.
pub open spec fn splice(s: Seq<u8>, off: int, src: Seq<u8>) -> Seq<u8> {
    Seq::new(s.len(), |k: int| if off <= k < off + src.len() { src[k - off] } else { s[k] })
}

/// Regions end within the 32-bit address space and never overlap.
pub open spec fn mem_wf(m: MemV) -> bool {
    &&& forall|i: int| 0 <= i < m.len() ==> (#[trigger] m[i]).0 + m[i].1.len() <= 0x1_0000_0000
    &&& forall|i: int, j: int|
        0 <= i < m.len() && 0 <= j < m.len() && i != j ==> {
            let a = #[trigger] m[i];
            let b = #[trigger] m[j];
            a.0 + a.1.len() <= b.0 || b.0 + b.1.len() <= a.0
        }
}

/// Index of the first region containing `addr`, scanning from `i`.
pub open spec fn find_region_from(m: MemV, addr: u32, i: int) -> Option<int>
    decreases m.len() - i,
{
    if i < 0 || i >= m.len() {
        None
    } else if region_contains(m[i], addr) {
        Some(i)
    } else {
        find_region_from(m, addr, i + 1)
    }
}

/// Index of the region containing `addr`, if any.
pub open spec fn find_region(m: MemV, addr: u32) -> Option<int> {
    find_region_from(m, addr, 0)
}

pub open spec fn mem_mapped(m: MemV, addr: u32) -> bool {
    find_region(m, addr) is Some
}

/// The byte stored at `addr` (meaningful only when mapped).
pub open spec fn mem_byte(m: MemV, addr: u32) -> u8 {
    match find_region(m, addr) {
        Some(i) => m[i].1[addr - m[i].0],
        None => 0,
    }
}

/// What a read of `len` bytes at `addr` returns: the bytes when the whole
/// range lies in one region, nothing otherwise.
pub open spec fn mem_read(m: MemV, addr: u32, len: int) -> Option<Seq<u8>> {
    match find_region(m, addr) {
        Some(i) => if region_contains_range(m[i], addr, len) {
            Some(m[i].1.subrange(addr - m[i].0, addr - m[i].0 + len))
        } else {
            None
        },
        None => None,
    }
}

/// What a write of `src` at `addr` leaves behind, and whether it took effect:
/// the covering region spliced when the range fits, the memory unchanged
/// otherwise.
pub open spec fn mem_write(m: MemV, addr: u32, src: Seq<u8>) -> (MemV, bool) {
    match find_region(m, addr) {
        Some(i) => if region_contains_range(m[i], addr, src.len() as int) {
            (m.update(i, (m[i].0, splice(m[i].1, addr - m[i].0, src))), true)
        } else {
            (m, false)
        },
        None => (m, false),
    }
}

pub proof fn lemma_find_region_from_props(m: MemV, addr: u32, i: int)
    requires
        0 <= i,
    ensures
        match find_region_from(m, addr, i) {
            Some(j) => i <= j < m.len() && region_contains(m[j], addr),
            None => forall|j: int| i <= j < m.len() ==> !region_contains(#[trigger] m[j], addr),
        },
    decreases m.len() - i,
{
    if i < m.len() && !region_contains(m[i], addr) {
        lemma_find_region_from_props(m, addr, i + 1);
    }
}

/// A write never changes which regions exist, their starts, or their sizes;
/// in particular it keeps the memory well formed.
pub proof fn lemma_mem_write_same_shape(m: MemV, addr: u32, src: Seq<u8>)
    ensures
        mem_write(m, addr, src).0.len() == m.len(),
        forall|i: int|
            0 <= i < m.len() ==> (#[trigger] mem_write(m, addr, src).0[i]).0 == m[i].0
                && mem_write(m, addr, src).0[i].1.len() == m[i].1.len(),
        mem_wf(m) ==> mem_wf(mem_write(m, addr, src).0),
{
    lemma_find_region_from_props(m, addr, 0);
}

/// Region lookup depends only on the region bounds.
pub proof fn lemma_find_region_same_bounds(a: MemV, b: MemV, addr: u32, i: int)
    requires
        b.len() == a.len(),
        forall|k: int|
            0 <= k < a.len() ==> (#[trigger] b[k]).0 == a[k].0 && b[k].1.len() == a[k].1.len(),
        0 <= i,
    ensures
        find_region_from(a, addr, i) == find_region_from(b, addr, i),
    decreases a.len() - i,
{
    if i < a.len() {
        lemma_find_region_same_bounds(a, b, addr, i + 1);
    }
}

/// A write leaves every byte outside its target range unchanged; in
/// particular, reads of disjoint ranges see the old contents.
pub proof fn lemma_mem_write_frame(m: MemV, wa: u32, wb: Seq<u8>, ra: u32, rl: int)
    requires
        0 <= rl,
        ra + rl <= wa || wa + wb.len() <= ra,
    ensures
        mem_read(mem_write(m, wa, wb).0, ra, rl) == mem_read(m, ra, rl),
{
    let m2 = mem_write(m, wa, wb).0;
    lemma_mem_write_same_shape(m, wa, wb);
    lemma_find_region_same_bounds(m, m2, ra, 0);
    lemma_find_region_from_props(m, ra, 0);
    lemma_find_region_from_props(m, wa, 0);
    match find_region(m, ra) {
        None => {},
        Some(ri) => {
            if region_contains_range(m[ri], ra, rl) {
                let s = m[ri].0;
                assert forall|k: int|
                    ra - s <= k < ra - s + rl implies m2[ri].1[k] == m[ri].1[k] by {
                    if find_region(m, wa) == Some(ri) && region_contains_range(
                        m[ri],
                        wa,
                        wb.len() as int,
                    ) {
                        assert(s + k < wa || wa + wb.len() <= s + k);
                        assert(m2[ri].1 == splice(m[ri].1, wa - s, wb));
                        assert(!(wa - s <= k < wa - s + wb.len()));
                    } else {
                        assert(m2[ri] == m[ri]);
                    }
                }
                assert(m2[ri].1.subrange(ra - m2[ri].0, ra - m2[ri].0 + rl) =~= m[ri].1.subrange(
                    ra - m[ri].0,
                    ra - m[ri].0 + rl,
                ));
            }
        },
    }
}

/// What mapping a fresh region does: appends a zeroed region exactly when
/// the range stays inside the 32-bit address space and overlaps no existing
/// region; otherwise the memory is unchanged.
pub open spec fn map_region_spec(m: MemV, start: u32, size: int) -> (MemV, bool) {
    if start + size > 0x1_0000_0000 {
        (m, false)
    } else if exists|j: int|
        0 <= j < m.len() && !((#[trigger] m[j]).0 + m[j].1.len() <= start || start + size
            <= m[j].0) {
        (m, false)
    } else {
        (m.push((start, zero_bytes(size))), true)
    }
}

/// A successful write reads back exactly the bytes written.
pub proof fn lemma_mem_write_read_back(m: MemV, wa: u32, wb: Seq<u8>)
    requires
        mem_write(m, wa, wb).1,
    ensures
        mem_read(mem_write(m, wa, wb).0, wa, wb.len() as int) == Some(wb),
{
    let m2 = mem_write(m, wa, wb).0;
    lemma_mem_write_same_shape(m, wa, wb);
    lemma_find_region_same_bounds(m, m2, wa, 0);
    lemma_find_region_from_props(m, wa, 0);
    let ri = find_region(m, wa).unwrap();
    assert(m2[ri].1.subrange(wa - m2[ri].0, wa - m2[ri].0 + wb.len()) =~= wb);
}

pub struct Memory {
    pub regions: Vec<MemRegion>,
}

impl View for Memory {
    type V = MemV;

    open spec fn view(&self) -> MemV {
        self.regions@.map_values(|r: MemRegion| (r.start, r.data@))
    }
}

impl Memory {
    pub fn new() -> (r: Memory)
        ensures
            r@ =~= Seq::<RegionV>::empty(),
    {
        Memory { regions: Vec::new() }
    }

    /// Locates the region containing `addr` by linear scan.
    pub fn find_region_exec(&self, addr: u32) -> (r: Option<usize>)
        ensures
            match r {
                Some(i) => find_region(self@, addr) == Some(i as int) && i < self.regions.len(),
                None => find_region(self@, addr) is None,
            },
    {
        let n = self.regions.len();
        for i in 0..n
            invariant
                n == self.regions.len(),
                find_region_from(self@, addr, 0) == find_region_from(self@, addr, i as int),
        {
            let reg = &self.regions[i];
            if reg.start <= addr && ((addr - reg.start) as usize) < reg.data.len() {
                return Some(i);
            }
        }
        None
    }

    /// Reads `len` bytes at `addr`; `None` when the range is not mapped in one
    /// region (the host treats such an access as a bus fault).
    pub fn read(&self, addr: u32, len: usize) -> (r: Option<Vec<u8>>)
        ensures
            match r {
                Some(v) => mem_read(self@, addr, len as int) == Some(v@),
                None => mem_read(self@, addr, len as int) is None,
            },
    {
        match self.find_region_exec(addr) {
            None => None,
            Some(i) => {
                proof {
                    lemma_find_region_from_props(self@, addr, 0);
                }
                let reg = &self.regions[i];
                let off = addr - reg.start;
                if (len as u64) <= (reg.data.len() as u64) && (off as u64) <= (reg.data.len()
                    as u64) - (len as u64) {
                    let s = vstd::slice::slice_subrange(
                        reg.data.as_slice(),
                        off as usize,
                        off as usize + len,
                    );
                    Some(vstd::slice::slice_to_vec(s))
                } else {
                    None
                }
            },
        }
    }

    /// Writes `src` at `addr`; returns whether the write took effect.
    pub fn write(&mut self, addr: u32, src: &Vec<u8>) -> (ok: bool)
        ensures
            final(self)@ == mem_write(old(self)@, addr, src@).0,
            ok == mem_write(old(self)@, addr, src@).1,
    {
        let ghost pre = self@;
        match self.find_region_exec(addr) {
            None => false,
            Some(i) => {
                proof {
                    lemma_find_region_from_props(pre, addr, 0);
                }
                let start = self.regions[i].start;
                let dlen = self.regions[i].data.len();
                let ghost old_reg = pre[i as int];
                let off = addr - start;
                if (src.len() as u64) <= (dlen as u64) && (off as u64) <= (dlen as u64) - (src.len()
                    as u64) {
                    let mut reg = self.regions.remove(i);
                    let n = src.len();
                    for k in 0..n
                        invariant
                            n == src.len(),
                            reg.start == old_reg.0,
                            reg.data.len() == old_reg.1.len(),
                            off + n <= reg.data.len(),
                            off == addr - old_reg.0,
                            forall|t: int|
                                0 <= t < reg.data.len() ==> reg.data[t] == (if off <= t < off + k {
                                    src@[t - off]
                                } else {
                                    old_reg.1[t]
                                }),
                    {
                        reg.data.set(off as usize + k, src[k]);
                    }
                    proof {
                        assert(reg.data@ =~= splice(old_reg.1, off as int, src@));
                    }
                    self.regions.insert(i, reg);
                    proof {
                        assert(self@ =~= mem_write(pre, addr, src@).0);
                    }
                    true
                } else {
                    false
                }
            },
        }
    }

    /// Reads a little-endian 32-bit word.
    pub fn read_u32(&self, addr: u32) -> (r: Option<u32>)
        ensures
            match r {
                Some(v) => {
                    &&& mem_read(self@, addr, 4) is Some
                    &&& v == word_from_le(mem_read(self@, addr, 4).unwrap())
                },
                None => mem_read(self@, addr, 4) is None,
            },
    {
        match self.read(addr, 4) {
            None => None,
            Some(v) => Some(word_from_le_exec(v[0], v[1], v[2], v[3])),
        }
    }

    /// Writes a little-endian 32-bit word; returns whether it took effect.
    pub fn write_u32(&mut self, addr: u32, v: u32) -> (ok: bool)
        ensures
            final(self)@ == mem_write(old(self)@, addr, word_le_bytes(v)).0,
            ok == mem_write(old(self)@, addr, word_le_bytes(v)).1,
    {
        let mut bytes: Vec<u8> = Vec::new();
        bytes.push((v & 0xFF) as u8);
        bytes.push(((v >> 8) & 0xFF) as u8);
        bytes.push(((v >> 16) & 0xFF) as u8);
        bytes.push(((v >> 24) & 0xFF) as u8);
        proof {
            assert(bytes@ =~= word_le_bytes(v));
        }
        self.write(addr, &bytes)
    }

    /// Maps a fresh zero-filled region; succeeds exactly when the range
    /// stays inside the 32-bit address space and overlaps no existing
    /// region.
    pub fn map_region(&mut self, start: u32, size: usize) -> (ok: bool)
        ensures
            (final(self)@, ok) == map_region_spec(old(self)@, start, size as int),
            ok ==> final(self)@ =~= old(self)@.push((start, zero_bytes(size as int))),
            ok ==> start + size <= 0x1_0000_0000,
            mem_wf(old(self)@) && ok ==> mem_wf(final(self)@),
    {
        if (size as u64) > 0x1_0000_0000u64 || (start as u64) > 0x1_0000_0000u64 - (size as u64) {
            return false;
        }
        let n = self.regions.len();
        for i in 0..n
            invariant
                n == self.regions.len(),
                start + size <= 0x1_0000_0000,
                forall|j: int|
                    0 <= j < i ==> {
                        let r = #[trigger] self@[j];
                        r.0 + r.1.len() <= start || start + size <= r.0
                    },
        {
            let reg = &self.regions[i];
            let within_low = (reg.start as u128) + (reg.data.len() as u128) <= (start as u128);
            let within_high = (start as u64) + (size as u64) <= (reg.start as u64);
            if !(within_low || within_high) {
                proof {
                    let j = i as int;
                    assert(!((self@[j]).0 + self@[j].1.len() <= start || start + size
                        <= self@[j].0));
                }
                return false;
            }
        }
        let mut data: Vec<u8> = Vec::new();
        while data.len() < size
            invariant
                data.len() <= size,
                data@ =~= zero_bytes(data.len() as int),
            decreases size - data.len(),
        {
            data.push(0);
        }
        let ghost pre = self@;
        self.regions.push(MemRegion { start, data });
        proof {
            assert(self@ =~= pre.push((start, zero_bytes(size as int))));
            if mem_wf(pre) {
                let newm = self@;
                let last = pre.len() as int;
                assert forall|i: int, j: int|
                    0 <= i < newm.len() && 0 <= j < newm.len() && i != j implies {
                    let a = #[trigger] newm[i];
                    let b = #[trigger] newm[j];
                    a.0 + a.1.len() <= b.0 || b.0 + b.1.len() <= a.0
                } by {
                    if i == last {
                        assert(newm[j] == pre[j]);
                    } else if j == last {
                        assert(newm[i] == pre[i]);
                    } else {
                        assert(newm[i] == pre[i] && newm[j] == pre[j]);
                    }
                }
            }
        }
        true
    }
}

/// `n` zero bytes.
pub open spec fn zero_bytes(n: int) -> Seq<u8> {
    Seq::new(n as nat, |k: int| 0u8)
}

/// The little-endian byte sequence of a 32-bit word.
pub open spec fn word_le_bytes(v: u32) -> Seq<u8> {
    seq![
        (v & 0xFF) as u8,
        ((v >> 8) & 0xFF) as u8,
        ((v >> 16) & 0xFF) as u8,
        ((v >> 24) & 0xFF) as u8,
    ]
}

/// The 32-bit word denoted by four little-endian bytes.
pub open spec fn word_from_le(b: Seq<u8>) -> u32 {
    (b[0] + b[1] * 0x100 + b[2] * 0x1_0000 + b[3] * 0x100_0000) as u32
}

/// Executable twin of [`word_from_le`].
pub fn word_from_le_exec(b0: u8, b1: u8, b2: u8, b3: u8) -> (r: u32)
    ensures
        r == word_from_le(seq![b0, b1, b2, b3]),
{
    let r = (b0 as u32) | ((b1 as u32) << 8) | ((b2 as u32) << 16) | ((b3 as u32) << 24);
    proof {
        assert((b0 as u32) | ((b1 as u32) << 8) | ((b2 as u32) << 16) | ((b3 as u32) << 24) == ((b0
            + b1 * 0x100 + b2 * 0x1_0000 + b3 * 0x100_0000) as u32)) by (bit_vector);
    }
    r
}

/// Round-trip: decoding the little-endian bytes of `v` gives `v` back.
pub proof fn lemma_word_le_round_trip(v: u32)
    ensures
        word_from_le(word_le_bytes(v)) == v,
{
    assert(((v & 0xFF) as u8) + (((v >> 8) & 0xFF) as u8) * 0x100 + (((v >> 16) & 0xFF) as u8)
        * 0x1_0000 + (((v >> 24) & 0xFF) as u8) * 0x100_0000 == v) by (bit_vector);
}

} // verus!
