//! The memory map: word-aligned regions of memory at fixed addresses,
//! found by address through an interval map.
use vstd::prelude::*;

use iset::IntervalMap;

use crate::error::BackendError;

verus! {

/// The interval map from the address ranges of the regions to their
/// indices (an `iset::IntervalMap`).
#[verifier::external_body]
pub struct RegionIndex {
    map: IntervalMap<u64, usize>,
}

/// The intervals that the index holds, as (start, end) pairs, with
/// their values.
pub uninterp spec fn interval_entries(m: RegionIndex) -> Map<(u64, u64), usize>;

/// A new, empty interval map (`IntervalMap::new`).
#[verifier::external_body]
fn interval_map_new() -> (r: RegionIndex)
    ensures
        interval_entries(r).dom() == Set::<(u64, u64)>::empty(),
{
    RegionIndex { map: IntervalMap::new() }
}

/// Inserts the interval `start..end` with `value` (`IntervalMap::insert`),
/// replacing the value of an equal interval. It panics on an empty
/// interval, and once the map holds `u32::MAX` intervals.
#[verifier::external_body]
fn interval_map_insert(m: &mut RegionIndex, start: u64, end: u64, value: usize)
    requires
        start < end,
        interval_entries(*old(m)).dom().len() < 0xffff_ffff,
    ensures
        interval_entries(*final(m)) == interval_entries(*old(m)).insert((start, end), value),
{
    m.map.insert(start..end, value);
}

/// The first interval that overlaps `start..end`, if any
/// (`IntervalMap::intervals`, then `next`): the iterator yields the
/// intervals in order of start, then end, so it is the least of them. It
/// panics on an empty query.
#[verifier::external_body]
fn interval_map_first_overlap(m: &RegionIndex, start: u64, end: u64) -> (r: Option<(u64, u64)>)
    requires
        start < end,
    ensures
        r is None <==> !(exists|k: (u64, u64)| #[trigger] interval_entries(*m).dom().contains(k) && k.0 < end && start < k.1),
        r matches Some(k) ==> interval_entries(*m).dom().contains(k) && k.0 < end && start < k.1,
        r matches Some(k) ==> forall|k2: (u64, u64)| #[trigger] interval_entries(*m).dom().contains(k2) && k2.0 < end && start < k2.1
            ==> k.0 < k2.0 || (k.0 == k2.0 && k.1 <= k2.1),
{
    m.map.intervals(start..end).next().map(|x| (x.start, x.end))
}

/// The first two intervals that hold `point` (`IntervalMap::overlap`,
/// then `next` twice): the first with its value; the second is another
/// interval that holds the point, if there is one.
#[verifier::external_body]
fn interval_map_at(m: &RegionIndex, point: u64) -> (r: (Option<((u64, u64), usize)>, Option<(u64, u64)>))
    ensures
        r.0 is None <==> !(exists|k: (u64, u64)| #[trigger] interval_entries(*m).dom().contains(k) && k.0 <= point < k.1),
        r.0 matches Some(e) ==> interval_entries(*m).dom().contains(e.0) && e.0.0 <= point < e.0.1
            && interval_entries(*m)[e.0] == e.1,
        r.0 is None ==> r.1 is None,
        r.0 matches Some(e) ==> (r.1 is None <==> !(exists|k: (u64, u64)| #[trigger] interval_entries(*m).dom().contains(k) && k.0 <= point < k.1 && k != e.0)),
        r.1 matches Some(k) ==> interval_entries(*m).dom().contains(k) && k.0 <= point < k.1 && (r.0 matches Some(e) && k != e.0),
{
    let mut it = m.map.overlap(point);
    let first = it.next().map(|(x, v)| ((x.start, x.end), *v));
    let second = it.next().map(|(x, _)| (x.start, x.end));
    (first, second)
}


/// The memory map: regions of memory, each at an address range, found by
/// address.
pub struct MemoryMap {
    mmap: RegionIndex,
    mem: Vec<Vec<u8>>,
}

/// The region of `m` that holds address `a`, if any.
pub open spec fn region_at(m: Map<(u64, u64), Seq<u8>>, a: u64) -> Option<(u64, u64)> {
    if exists|k: (u64, u64)| #[trigger] m.dom().contains(k) && k.0 <= a < k.1 {
        Some(choose|k: (u64, u64)| #[trigger] m.dom().contains(k) && k.0 <= a < k.1)
    } else {
        None
    }
}

/// Whether the regions of `m` are nonempty, hold as many bytes as their
/// ranges span, and do not overlap.
pub open spec fn regions_wf(m: Map<(u64, u64), Seq<u8>>) -> bool {
    &&& m.dom().finite()
    &&& forall|k: (u64, u64)| #[trigger] m.dom().contains(k) ==> k.0 < k.1 && m[k].len() == k.1 - k.0
    &&& forall|k1: (u64, u64), k2: (u64, u64)|
        #[trigger] m.dom().contains(k1) && #[trigger] m.dom().contains(k2) && k1 != k2 ==> k1.1 <= k2.0
            || k2.1 <= k1.0
}

/// What a read of `len` bytes at `address` gives: the bytes, or the error.
pub open spec fn mem_read(m: Map<(u64, u64), Seq<u8>>, address: u64, len: nat) -> Result<Seq<u8>, BackendError> {
    match region_at(m, address) {
        None => Err(BackendError::Unmapped(address)),
        Some(k) => {
            let offset = (address - k.0) as int;
            if offset + len > m[k].len() {
                Err(BackendError::ReadOutOfBounds(offset as usize, len as usize))
            } else {
                Ok(m[k].subrange(offset, offset + len))
            }
        },
    }
}

/// What a write of `src` at `address` gives: the regions after it, or the
/// error.
pub open spec fn mem_write(m: Map<(u64, u64), Seq<u8>>, address: u64, src: Seq<u8>) -> Result<Map<(u64, u64), Seq<u8>>, BackendError> {
    match region_at(m, address) {
        None => Err(BackendError::Unmapped(address)),
        Some(k) => {
            let offset = (address - k.0) as int;
            if offset + src.len() > m[k].len() {
                Err(BackendError::WriteOutOfBounds(offset as usize, src.len() as usize))
            } else {
                Ok(m.insert(k, m[k].subrange(0, offset) + src + m[k].subrange(offset + src.len(), m[k].len() as int)))
            }
        },
    }
}

impl View for MemoryMap {
    type V = Map<(u64, u64), Seq<u8>>;

    closed spec fn view(&self) -> Map<(u64, u64), Seq<u8>> {
        Map::new(
            |k: (u64, u64)| interval_entries(self.mmap).dom().contains(k),
            |k: (u64, u64)| self.mem@[interval_entries(self.mmap)[k] as int]@,
        )
    }
}

impl MemoryMap {
    /// Whether the map is well formed: its regions are well formed, and
    /// each has a store of its own.
    pub closed spec fn wf(&self) -> bool {
        let e = interval_entries(self.mmap);
        &&& e.dom().finite()
        &&& e.dom().len() == self.mem@.len()
        &&& forall|k: (u64, u64)| #[trigger] e.dom().contains(k) ==> e[k] < self.mem@.len()
        &&& forall|k1: (u64, u64), k2: (u64, u64)|
            #[trigger] e.dom().contains(k1) && #[trigger] e.dom().contains(k2) && k1 != k2 ==> e[k1] != e[k2]
        &&& regions_wf(self@)
    }

    /// The empty memory map.
    pub fn default() -> (r: Self)
        ensures
            r.wf(),
            r@.dom() == Set::<(u64, u64)>::empty(),
    {
        let r = MemoryMap { mmap: interval_map_new(), mem: Vec::new() };
        assert(r@.dom() =~= Set::<(u64, u64)>::empty());
        r
    }
}


impl MemoryMap {
    /// Maps a region of `size` bytes of zeros at `base`, unless it overlaps
    /// a mapped region, which is reported with it. Base and size must be
    /// word-aligned.
    pub fn map_mem(&mut self, base: u64, size: usize) -> (r: Result<(), BackendError>)
        requires
            old(self).wf(),
            base % 4 == 0,
            size % 4 == 0,
            0 < size,
            base + size <= u64::MAX,
            old(self)@.dom().len() < 0xffff_ffff,
        ensures
            final(self).wf(),
            r is Ok <==> !(exists|k: (u64, u64)| #[trigger] old(self)@.dom().contains(k) && k.0 < base + size && base < k.1),
            r is Ok ==> final(self)@ == old(self)@.insert((base, (base + size) as u64), Seq::new(size as nat, |i: int| 0u8)),
            r matches Err(e) ==> final(self)@ == old(self)@ && (e matches BackendError::MapConflict(a, k) && a == (base, (base + size) as u64)
                && old(self)@.dom().contains(k) && k.0 < base + size && base < k.1
                && forall|k2: (u64, u64)| #[trigger] old(self)@.dom().contains(k2) && k2.0 < base + size && base < k2.1 ==> k.0 <= k2.0),
    {
        let end = base + size as u64;
        proof {
            assert(self@.dom() =~= interval_entries(self.mmap).dom());
        }
        match interval_map_first_overlap(&self.mmap, base, end) {
            Some(k) => {
                assert(self@.dom().contains(k));
                return Err(BackendError::MapConflict((base, end), k));
            },
            None => {},
        }
        let ghost old_e = interval_entries(self.mmap);
        let ghost old_view = self@;
        let idx = self.mem.len();
        let mut region: Vec<u8> = Vec::new();
        let mut i: usize = 0;
        while i < size
            invariant
                i <= size,
                region@ == Seq::new(i as nat, |j: int| 0u8),
            decreases size - i,
        {
            region.push(0);
            i = i + 1;
            assert(region@ =~= Seq::new(i as nat, |j: int| 0u8));
        }
        self.mem.push(region);
        interval_map_insert(&mut self.mmap, base, end, idx);
        proof {
            let e = interval_entries(self.mmap);
            assert(e == old_e.insert((base, end), idx));
            assert forall|k: (u64, u64)| #[trigger] e.dom().contains(k) && k != (base, end) implies old_e.dom().contains(k)
                && self.mem@[e[k] as int] == old(self).mem@[old_e[k] as int] by {}
            assert(self@ =~= old_view.insert((base, end), Seq::new(size as nat, |i: int| 0u8)));
            assert(!old_e.dom().contains((base, end)));
            assert(e.dom().len() == self.mem@.len());
        }
        Ok(())
    }
}


/// What a view of `size` bytes at `address` gives (the rest of the region
/// from `address` when no size is given): the bytes, or the error.
pub open spec fn mem_view(m: Map<(u64, u64), Seq<u8>>, address: u64, size: Option<usize>) -> Result<Seq<u8>, BackendError> {
    match region_at(m, address) {
        None => Err(BackendError::Unmapped(address)),
        Some(k) => {
            let n: nat = match size {
                Some(n) => n as nat,
                None => (k.1 - address) as nat,
            };
            mem_read(m, address, n)
        },
    }
}

/// A write that succeeds keeps the regions' ranges, and so which region
/// holds each address, and keeps them well formed.
pub proof fn lemma_write_keeps_regions(m: Map<(u64, u64), Seq<u8>>, address: u64, src: Seq<u8>)
    requires
        regions_wf(m),
        mem_write(m, address, src) is Ok,
    ensures
        mem_write(m, address, src)->Ok_0.dom() == m.dom(),
        regions_wf(mem_write(m, address, src)->Ok_0),
        forall|b: u64| #[trigger] region_at(mem_write(m, address, src)->Ok_0, b) == region_at(m, b),
{
    let m2 = mem_write(m, address, src)->Ok_0;
    let k = region_at(m, address)->Some_0;
    assert(m.dom().contains(k) && k.0 <= address < k.1);
    assert(m2.dom() =~= m.dom());
    assert forall|k1: (u64, u64)| #[trigger] m2.dom().contains(k1) implies k1.0 < k1.1 && m2[k1].len() == k1.1 - k1.0 by {
        assert(m.dom().contains(k1));
    }
    assert forall|b: u64| #[trigger] region_at(m2, b) == region_at(m, b) by {
        assert(forall|c: (u64, u64)| #[trigger] m2.dom().contains(c) == m.dom().contains(c));
    }
}

/// Reading back the bytes that a write wrote gives them.
pub proof fn lemma_read_after_write(m: Map<(u64, u64), Seq<u8>>, address: u64, src: Seq<u8>)
    requires
        regions_wf(m),
        mem_write(m, address, src) is Ok,
    ensures
        mem_read(mem_write(m, address, src)->Ok_0, address, src.len()) == Ok::<Seq<u8>, BackendError>(src),
{
    lemma_write_keeps_regions(m, address, src);
    let m2 = mem_write(m, address, src)->Ok_0;
    let k = region_at(m, address)->Some_0;
    assert(region_at(m2, address) == region_at(m, address));
    let off = (address - k.0) as int;
    assert(m2[k].subrange(off, off + src.len()) =~= src);
}

/// A write leaves a read of other bytes as it was.
pub proof fn lemma_write_frame(m: Map<(u64, u64), Seq<u8>>, address: u64, src: Seq<u8>, b: u64, n: nat)
    requires
        regions_wf(m),
        mem_write(m, address, src) is Ok,
        b + n <= address || address + src.len() <= b,
    ensures
        mem_read(mem_write(m, address, src)->Ok_0, b, n) == mem_read(m, b, n),
{
    lemma_write_keeps_regions(m, address, src);
    let m2 = mem_write(m, address, src)->Ok_0;
    let k = region_at(m, address)->Some_0;
    assert(region_at(m2, b) == region_at(m, b));
    match region_at(m, b) {
        None => {},
        Some(kb) => {
            let off = (b - kb.0) as int;
            if kb == k && off + n <= m[k].len() {
                assert(m2[k].subrange(off, off + n) =~= m[k].subrange(off, off + n));
            }
        },
    }
}

/// A read of `n1 + n2` bytes within one region is the read of the first
/// `n1` bytes followed by the read of the `n2` after them.
pub proof fn lemma_read_split(m: Map<(u64, u64), Seq<u8>>, address: u64, n1: nat, n2: nat)
    requires
        regions_wf(m),
        mem_read(m, address, n1 + n2) is Ok,
        0 < n1,
        0 < n2,
    ensures
        address + n1 <= u64::MAX,
        mem_read(m, (address + n1) as u64, n2) is Ok,
        mem_read(m, address, n1) is Ok,
        mem_read(m, address, n1 + n2)->Ok_0 == mem_read(m, address, n1)->Ok_0 + mem_read(m, (address + n1) as u64, n2)->Ok_0,
{
    let k = region_at(m, address)->Some_0;
    assert(m.dom().contains(k) && k.0 <= address < k.1);
    let off = (address - k.0) as int;
    let a2 = (address + n1) as u64;
    assert(k.0 <= a2 < k.1);
    assert(region_at(m, a2) == Some(k)) by {
        let c = choose|c: (u64, u64)| #[trigger] m.dom().contains(c) && c.0 <= a2 < c.1;
        assert(m.dom().contains(c) && c.0 <= a2 < c.1);
        assert(c == k);
    }
    assert(m[k].subrange(off, off + n1 + n2) =~= m[k].subrange(off, off + n1) + m[k].subrange(off + n1, off + n1 + n2));
}

impl MemoryMap {
    /// The region that holds `address`, with the index of its store.
    fn lookup(&self, address: u64) -> (r: Result<((u64, u64), usize), BackendError>)
        requires
            self.wf(),
        ensures
            match region_at(self@, address) {
                None => r == Err::<((u64, u64), usize), BackendError>(BackendError::Unmapped(address)),
                Some(k) => r matches Ok(p) && p.0 == k && p.1 == interval_entries(self.mmap)[k] && p.1 < self.mem@.len()
                    && self@[k] == self.mem@[p.1 as int]@,
            },
    {
        proof {
            assert(self@.dom() =~= interval_entries(self.mmap).dom());
        }
        let (first, second) = interval_map_at(&self.mmap, address);
        match first {
            None => Err(BackendError::Unmapped(address)),
            Some((k, idx)) => {
                match second {
                    Some(other) => {
                        // regions do not overlap
                        assert(self@.dom().contains(k) && self@.dom().contains(other));
                        Err(BackendError::MapConflict(k, other))
                    },
                    None => {
                        proof {
                            assert(self@.dom().contains(k));
                            let c = choose|c: (u64, u64)| #[trigger] self@.dom().contains(c) && c.0 <= address < c.1;
                            assert(self@.dom().contains(c));
                            assert(c == k);
                        }
                        Ok((k, idx))
                    },
                }
            },
        }
    }

    /// Reads the bytes at `address` into `dst`.
    pub fn load_bytes(&self, address: u64, dst: &mut [u8]) -> (r: Result<(), BackendError>)
        requires
            self.wf(),
        ensures
            match mem_read(self@, address, old(dst)@.len()) {
                Ok(b) => r is Ok && final(dst)@ == b,
                Err(e) => r == Err::<(), BackendError>(e) && final(dst)@ == old(dst)@,
            },
    {
        let (k, idx) = match self.lookup(address) {
            Ok(p) => p,
            Err(e) => {
                return Err(e);
            },
        };
        let region = &self.mem[idx];
        let rlen = region.len();
        assert(self@.dom().contains(k));
        assert(address - k.0 < rlen);
        let offset = (address - k.0) as usize;
        if offset > region.len() || dst.len() > region.len() - offset {
            return Err(BackendError::ReadOutOfBounds(offset, dst.len()));
        }
        let mut i: usize = 0;
        while i < dst.len()
            invariant
                offset + dst@.len() <= region.len(),
                i <= dst@.len(),
                dst@.len() == old(dst)@.len(),
                forall|j: int| 0 <= j < i ==> dst@[j] == region@[offset + j],
            decreases dst@.len() - i,
        {
            dst[i] = region[offset + i];
            i = i + 1;
        }
        assert(dst@ =~= region@.subrange(offset as int, offset + dst@.len()));
        Ok(())
    }

    /// A copy of `size` bytes at `address`, or of the rest of the region
    /// from `address` when no size is given.
    pub fn mem_view_bytes(&self, address: u64, size: Option<usize>) -> (r: Result<Vec<u8>, BackendError>)
        requires
            self.wf(),
        ensures
            match mem_view(self@, address, size) {
                Ok(b) => r matches Ok(v) && v@ == b,
                Err(e) => r == Err::<Vec<u8>, BackendError>(e),
            },
    {
        let (k, idx) = match self.lookup(address) {
            Ok(p) => p,
            Err(e) => {
                return Err(e);
            },
        };
        let n: usize = match size {
            Some(n) => n,
            None => {
                assert(self@.dom().contains(k));
                assert(k.1 - k.0 == self.mem@[idx as int]@.len());
                let l = self.mem[idx].len();
                assert(k.1 - k.0 == l);
                (k.1 - address) as usize
            },
        };
        let region = &self.mem[idx];
        let rlen = region.len();
        assert(self@.dom().contains(k));
        assert(address - k.0 < rlen);
        let offset = (address - k.0) as usize;
        if offset > region.len() || n > region.len() - offset {
            return Err(BackendError::ReadOutOfBounds(offset, n));
        }
        let mut v: Vec<u8> = Vec::new();
        let mut i: usize = 0;
        while i < n
            invariant
                offset + n <= region.len(),
                i <= n,
                v@ == region@.subrange(offset as int, offset + i),
            decreases n - i,
        {
            v.push(region[offset + i]);
            i = i + 1;
            assert(v@ =~= region@.subrange(offset as int, offset + i));
        }
        Ok(v)
    }

    /// Writes the bytes of `src` at `address`.
    pub fn store_bytes(&mut self, address: u64, src: &[u8]) -> (r: Result<(), BackendError>)
        requires
            old(self).wf(),
        ensures
            final(self).wf(),
            match mem_write(old(self)@, address, src@) {
                Ok(m) => r is Ok && final(self)@ == m,
                Err(e) => r == Err::<(), BackendError>(e) && final(self)@ == old(self)@,
            },
    {
        let (k, idx) = match self.lookup(address) {
            Ok(p) => p,
            Err(e) => {
                return Err(e);
            },
        };
        let len = self.mem[idx].len();
        assert(self@.dom().contains(k));
        assert(address - k.0 < len);
        let offset = (address - k.0) as usize;
        if offset > len || src.len() > len - offset {
            return Err(BackendError::WriteOutOfBounds(offset, src.len()));
        }
        let mut region: Vec<u8> = Vec::new();
        self.mem.set_and_swap(idx, &mut region);
        let ghost before = region@;
        let mut i: usize = 0;
        while i < src.len()
            invariant
                region@.len() == before.len(),
                offset + src@.len() <= region.len(),
                i <= src@.len(),
                forall|j: int| 0 <= j < before.len() ==> #[trigger] region@[j] == if offset <= j < offset + i {
                    src@[j - offset]
                } else {
                    before[j]
                },
            decreases src@.len() - i,
        {
            region.set(offset + i, src[i]);
            i = i + 1;
        }
        let ghost new_bytes = region@;
        self.mem.set_and_swap(idx, &mut region);
        proof {
            let e = interval_entries(self.mmap);
            assert(new_bytes =~= before.subrange(0, offset as int) + src@ + before.subrange(offset + src@.len(), before.len() as int));
            assert(self@ =~= old(self)@.insert(k, new_bytes));
            assert forall|k1: (u64, u64)| #[trigger] self@.dom().contains(k1) implies k1.0 < k1.1 && self@[k1].len() == k1.1 - k1.0 by {
                if k1 != k {
                    assert(old(self)@.dom().contains(k1));
                }
            }
        }
        Ok(())
    }
}

} // verus!
