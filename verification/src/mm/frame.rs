use vstd::prelude::*;

use crate::limine::{MemoryMap, MemoryMapEntry, MemoryMapEntryType};

verus! {

pub const PAGE_SIZE: u64 = 4096;
pub const MAX_USABLE_REGIONS: usize = 64;
pub const BOOTSTRAP_RESERVED_END: u64 = 0x0010_0000;

/// A run of usable page frames; frames below `next` have been handed out.
#[derive(Copy, Clone, PartialEq, Eq, Structural, Debug)]
pub struct FrameRegion {
    pub start: u64,
    pub end: u64,
    pub next: u64,
}

impl FrameRegion {
    /// The empty region.
    pub fn empty() -> (r: Self)
        ensures
            r == (FrameRegion { start: 0, end: 0, next: 0 }),
    {
        FrameRegion { start: 0, end: 0, next: 0 }
    }

    /// Bytes the region spans.
    pub fn size(self) -> (n: u64)
        ensures
            n == if self.end >= self.start { self.end - self.start } else { 0 },
    {
        self.end.saturating_sub(self.start)
    }

    /// Bytes not handed out yet.
    pub fn remaining(self) -> (n: u64)
        ensures
            n == if self.end >= self.next { self.end - self.next } else { 0 },
    {
        self.end.saturating_sub(self.next)
    }

    /// Page-aligned bounds with `start <= next <= end`.
    pub open spec fn wf(self) -> bool {
        &&& self.start % PAGE_SIZE == 0
        &&& self.end % PAGE_SIZE == 0
        &&& self.next % PAGE_SIZE == 0
        &&& self.start <= self.next <= self.end
        &&& self.start >= BOOTSTRAP_RESERVED_END
    }
}

/// A physical page frame.
#[derive(Copy, Clone, PartialEq, Eq, Structural, Debug)]
pub struct PhysicalFrame {
    pub start_address: u64,
}

impl PhysicalFrame {
    pub fn start_address(self) -> (a: u64)
        ensures
            a == self.start_address,
    {
        self.start_address
    }
}

/// Counters of the frame allocator.
#[derive(Copy, Clone, PartialEq, Eq, Structural, Debug)]
pub struct FrameAllocatorStats {
    pub usable_regions: usize,
    pub total_bytes: u64,
    pub allocatable_bytes: u64,
    pub allocated_frames: u64,
}

/// Why the frame allocator could not start.
#[derive(Copy, Clone, PartialEq, Eq, Structural, Debug)]
pub enum FrameAllocatorInitError {
    AlreadyInitialized,
    NoUsableRegions,
    TooManyRegions,
}

// ---------------------------------------------------------------------------
// Alignment.

pub open spec fn sat_add(a: u64, b: u64) -> u64 {
    if a + b > u64::MAX { u64::MAX } else { (a + b) as u64 }
}

pub open spec fn spec_align_down(v: u64) -> u64 {
    (v - v % PAGE_SIZE) as u64
}

pub open spec fn spec_align_up(v: u64) -> u64 {
    spec_align_down(sat_add(v, (PAGE_SIZE - 1) as u64))
}

/// `value` rounded up to a page boundary, saturating at the last page boundary.
pub fn align_up(value: u64) -> (r: u64)
    ensures
        r == spec_align_up(value),
        r % PAGE_SIZE == 0,
{
    let v = value.saturating_add(PAGE_SIZE - 1);
    let r = v & !(PAGE_SIZE - 1);
    assert(v & !4095u64 == v - v % 4096) by (bit_vector);
    r
}

/// `value` rounded down to a page boundary.
pub fn align_down(value: u64) -> (r: u64)
    ensures
        r == spec_align_down(value),
        r % PAGE_SIZE == 0,
{
    let r = value & !(PAGE_SIZE - 1);
    assert(value & !4095u64 == value - value % 4096) by (bit_vector);
    r
}

// ---------------------------------------------------------------------------
// Building the regions from the memory map.

/// The region a memory-map entry contributes: its page-aligned part above the first mebibyte.
pub open spec fn entry_region(e: MemoryMapEntry) -> Option<FrameRegion> {
    if e.entry_type != MemoryMapEntryType::Usable {
        None
    } else {
        let start = spec_align_up(if e.base >= BOOTSTRAP_RESERVED_END { e.base } else { BOOTSTRAP_RESERVED_END });
        let end = spec_align_down(sat_add(e.base, e.length));
        if end <= start {
            None
        } else {
            Some(FrameRegion { start, end, next: start })
        }
    }
}

/// What initialization has gathered so far.
pub struct InitProgress {
    pub regions: Seq<FrameRegion>,
    pub total_bytes: u64,
    pub allocatable_bytes: u64,
    pub too_many: bool,
}

/// Gathering one more entry of the memory map.
pub open spec fn init_step(p: InitProgress, e: MemoryMapEntry) -> InitProgress {
    if p.too_many || e.entry_type != MemoryMapEntryType::Usable {
        p
    } else {
        let total = sat_add(p.total_bytes, e.length);
        match entry_region(e) {
            None => InitProgress { total_bytes: total, ..p },
            Some(r) => if p.regions.len() >= MAX_USABLE_REGIONS {
                InitProgress { total_bytes: total, too_many: true, ..p }
            } else {
                InitProgress {
                    regions: p.regions.push(r),
                    total_bytes: total,
                    allocatable_bytes: sat_add(p.allocatable_bytes, (r.end - r.start) as u64),
                    too_many: false,
                }
            },
        }
    }
}

/// Gathering every entry of `es`, in order, from `p`.
pub open spec fn init_fold(p: InitProgress, es: Seq<MemoryMapEntry>) -> InitProgress
    decreases es.len(),
{
    if es.len() == 0 {
        p
    } else {
        init_step(init_fold(p, es.drop_last()), es.last())
    }
}

// ---------------------------------------------------------------------------
// The allocator.

/// A first-fit allocator over the usable regions of the memory map.
pub struct FrameAllocator {
    pub initialized: bool,
    pub total_bytes: u64,
    pub allocatable_bytes: u64,
    pub allocated_frames: u64,
    pub regions: Vec<FrameRegion>,
}

impl FrameAllocator {
    /// Every region is well formed and there are at most `MAX_USABLE_REGIONS` of them.
    pub open spec fn wf(&self) -> bool {
        &&& self.regions@.len() <= MAX_USABLE_REGIONS
        &&& forall|i: int| 0 <= i < self.regions@.len() ==> (#[trigger] self.regions@[i]).wf()
    }

    pub open spec fn progress(&self) -> InitProgress {
        InitProgress {
            regions: self.regions@,
            total_bytes: self.total_bytes,
            allocatable_bytes: self.allocatable_bytes,
            too_many: false,
        }
    }

    /// An allocator with no region, before initialization.
    pub fn new() -> (a: Self)
        ensures
            a.wf(),
            !a.initialized,
            a.regions@.len() == 0,
            a.total_bytes == 0 && a.allocatable_bytes == 0 && a.allocated_frames == 0,
    {
        FrameAllocator { initialized: false, total_bytes: 0, allocatable_bytes: 0, allocated_frames: 0, regions: Vec::new() }
    }

    pub open spec fn spec_stats(&self) -> FrameAllocatorStats {
        FrameAllocatorStats {
            usable_regions: self.regions@.len() as usize,
            total_bytes: self.total_bytes,
            allocatable_bytes: self.allocatable_bytes,
            allocated_frames: self.allocated_frames,
        }
    }

    /// Counters of the allocator.
    pub fn stats(&self) -> (s: FrameAllocatorStats)
        ensures
            s == self.spec_stats(),
    {
        FrameAllocatorStats {
            usable_regions: self.regions.len(),
            total_bytes: self.total_bytes,
            allocatable_bytes: self.allocatable_bytes,
            allocated_frames: self.allocated_frames,
        }
    }
}

proof fn lemma_entry_region_wf(e: MemoryMapEntry)
    ensures
        entry_region(e) matches Some(r) ==> r.wf(),
{
    let start = spec_align_up(if e.base >= BOOTSTRAP_RESERVED_END { e.base } else { BOOTSTRAP_RESERVED_END });
    let b = if e.base >= BOOTSTRAP_RESERVED_END { e.base } else { BOOTSTRAP_RESERVED_END };
    assert(start >= BOOTSTRAP_RESERVED_END) by {
        let v = sat_add(b, 4095);
        if v == u64::MAX {
            assert(u64::MAX % 4096 == 4095);
        } else {
            assert(v == b + 4095);
        }
    }
}

} // verus!

verus! {

/// Index of the first region at or after `i` with at least `need` bytes left, or the number of regions.
pub open spec fn first_fit(rs: Seq<FrameRegion>, need: int, i: int) -> int
    decreases rs.len() - i,
{
    if i < 0 || i >= rs.len() {
        rs.len() as int
    } else if rs[i].end - rs[i].next >= need {
        i
    } else {
        first_fit(rs, need, i + 1)
    }
}

pub proof fn lemma_first_fit(rs: Seq<FrameRegion>, need: int, i: int)
    requires
        0 <= i <= rs.len(),
    ensures
        i <= first_fit(rs, need, i) <= rs.len(),
        first_fit(rs, need, i) < rs.len() ==> rs[first_fit(rs, need, i)].end - rs[first_fit(rs, need, i)].next >= need,
    decreases rs.len() - i,
{
    if i < rs.len() && rs[i].end - rs[i].next < need {
        lemma_first_fit(rs, need, i + 1);
    }
}

impl FrameAllocator {
    /// Builds the regions from the usable entries of the memory map.
    ///
    /// Each usable entry adds its length to the total and, when a whole page of
    /// it lies above the first mebibyte, a region of its page-aligned part.
    pub fn initialize(&mut self, memory_map: &MemoryMap) -> (result: Result<FrameAllocatorStats, FrameAllocatorInitError>)
        requires
            old(self).wf(),
        ensures
            final(self).wf(),
            final(self).allocated_frames == old(self).allocated_frames,
            old(self).initialized ==> result == Err::<FrameAllocatorStats, FrameAllocatorInitError>(
                FrameAllocatorInitError::AlreadyInitialized,
            ) && *final(self) == *old(self),
            !old(self).initialized ==> {
                let p = init_fold(old(self).progress(), memory_map.entries@);
                &&& final(self).regions@ == p.regions
                &&& final(self).total_bytes == p.total_bytes
                &&& final(self).allocatable_bytes == p.allocatable_bytes
                &&& if p.too_many {
                    result == Err::<FrameAllocatorStats, FrameAllocatorInitError>(FrameAllocatorInitError::TooManyRegions)
                        && !final(self).initialized
                } else if p.regions.len() == 0 {
                    result == Err::<FrameAllocatorStats, FrameAllocatorInitError>(FrameAllocatorInitError::NoUsableRegions)
                        && !final(self).initialized
                } else {
                    result == Ok::<FrameAllocatorStats, FrameAllocatorInitError>(final(self).spec_stats())
                        && final(self).initialized
                }
            },
    {
        if self.initialized {
            return Err(FrameAllocatorInitError::AlreadyInitialized);
        }
        let ghost start = old(self).progress();
        let ghost es = memory_map.entries@;
        let mut i: usize = 0;
        while i < memory_map.entries.len()
            invariant
                es == memory_map.entries@,
                i <= es.len(),
                !self.initialized,
                !old(self).initialized,
                start == old(self).progress(),
                self.wf(),
                self.allocated_frames == old(self).allocated_frames,
                init_fold(start, es.take(i as int)) == self.progress(),
            decreases es.len() - i,
        {
            proof {
                assert(es.take(i + 1).drop_last() =~= es.take(i as int));
                assert(es.take(i + 1).last() == es[i as int]);
            }
            let entry = memory_map.entries[i];
            let ghost before = self.progress();
            if entry.is_usable() {
                let original_end = entry.base.saturating_add(entry.length);
                self.total_bytes = self.total_bytes.saturating_add(entry.length);
                let lower = if entry.base >= BOOTSTRAP_RESERVED_END { entry.base } else { BOOTSTRAP_RESERVED_END };
                let region_start = align_up(lower);
                let region_end = align_down(original_end);
                if region_end > region_start {
                    if self.regions.len() >= MAX_USABLE_REGIONS {
                        proof {
                            assert(entry_region(entry) == Some(FrameRegion { start: region_start, end: region_end, next: region_start }));
                            assert(init_fold(start, es.take(i + 1)) == init_step(before, entry));
                            assert(init_fold(start, es.take(i + 1)).too_many);
                            lemma_too_many_sticks(start, es, i as int + 1);
                        }
                        return Err(FrameAllocatorInitError::TooManyRegions);
                    }
                    let region = FrameRegion { start: region_start, end: region_end, next: region_start };
                    proof {
                        lemma_entry_region_wf(entry);
                    }
                    self.allocatable_bytes = self.allocatable_bytes.saturating_add(region.size());
                    self.regions.push(region);
                }
            }
            i = i + 1;
        }
        proof {
            assert(es.take(es.len() as int) =~= es);
        }
        if self.regions.len() == 0 {
            return Err(FrameAllocatorInitError::NoUsableRegions);
        }
        self.initialized = true;
        Ok(self.stats())
    }

    /// Hands out the next free frame of the first region that has one.
    pub fn allocate(&mut self) -> (frame: Option<PhysicalFrame>)
        requires
            old(self).wf(),
        ensures
            final(self).wf(),
            final(self).initialized == old(self).initialized,
            final(self).total_bytes == old(self).total_bytes,
            final(self).allocatable_bytes == old(self).allocatable_bytes,
            ({
                let rs = old(self).regions@;
                let k = first_fit(rs, PAGE_SIZE as int, 0);
                if !old(self).initialized || k == rs.len() {
                    frame is None && *final(self) == *old(self)
                } else {
                    &&& frame == Some(PhysicalFrame { start_address: rs[k].next })
                    &&& final(self).regions@ == rs.update(k, FrameRegion { next: (rs[k].next + PAGE_SIZE) as u64, ..rs[k] })
                    &&& final(self).allocated_frames == sat_add(old(self).allocated_frames, 1)
                }
            }),
            frame matches Some(f) ==> f.start_address % PAGE_SIZE == 0 && f.start_address >= BOOTSTRAP_RESERVED_END,
    {
        self.allocate_bytes(PAGE_SIZE, 1)
    }

    /// Hands out `count` consecutive frames from the first region with room for all of them.
    pub fn allocate_contiguous(&mut self, count: u64) -> (frame: Option<PhysicalFrame>)
        requires
            old(self).wf(),
        ensures
            final(self).wf(),
            final(self).initialized == old(self).initialized,
            final(self).total_bytes == old(self).total_bytes,
            final(self).allocatable_bytes == old(self).allocatable_bytes,
            ({
                let rs = old(self).regions@;
                let need = if count * PAGE_SIZE > u64::MAX { u64::MAX as int } else { count * PAGE_SIZE };
                let k = first_fit(rs, need, 0);
                if !old(self).initialized || count == 0 || k == rs.len() {
                    frame is None && *final(self) == *old(self)
                } else {
                    &&& frame == Some(PhysicalFrame { start_address: rs[k].next })
                    &&& final(self).regions@ == rs.update(k, FrameRegion { next: (rs[k].next + need) as u64, ..rs[k] })
                    &&& final(self).allocated_frames == sat_add(old(self).allocated_frames, count)
                    &&& rs[k].next + need <= rs[k].end
                }
            }),
            frame matches Some(f) ==> f.start_address % PAGE_SIZE == 0 && f.start_address >= BOOTSTRAP_RESERVED_END,
    {
        if count == 0 {
            return None;
        }
        let requested = crate::num::saturating_mul_u64(count, PAGE_SIZE);
        self.allocate_bytes(requested, count)
    }

    fn allocate_bytes(&mut self, requested: u64, frames: u64) -> (frame: Option<PhysicalFrame>)
        requires
            old(self).wf(),
            requested > 0,
            requested % PAGE_SIZE == 0 || requested == u64::MAX,
        ensures
            final(self).wf(),
            final(self).initialized == old(self).initialized,
            final(self).total_bytes == old(self).total_bytes,
            final(self).allocatable_bytes == old(self).allocatable_bytes,
            ({
                let rs = old(self).regions@;
                let k = first_fit(rs, requested as int, 0);
                if !old(self).initialized || k == rs.len() {
                    frame is None && *final(self) == *old(self)
                } else {
                    &&& frame == Some(PhysicalFrame { start_address: rs[k].next })
                    &&& final(self).regions@ == rs.update(k, FrameRegion { next: (rs[k].next + requested) as u64, ..rs[k] })
                    &&& final(self).allocated_frames == sat_add(old(self).allocated_frames, frames)
                    &&& rs[k].next + requested <= rs[k].end
                }
            }),
            frame matches Some(f) ==> f.start_address % PAGE_SIZE == 0 && f.start_address >= BOOTSTRAP_RESERVED_END,
    {
        if !self.initialized {
            return None;
        }
        let ghost rs = self.regions@;
        proof {
            lemma_first_fit(rs, requested as int, 0);
        }
        let mut i: usize = 0;
        while i < self.regions.len()
            invariant
                rs == self.regions@,
                self.regions@ == old(self).regions@,
                *self == *old(self),
                self.wf(),
                self.initialized,
                requested > 0,
                requested % PAGE_SIZE == 0 || requested == u64::MAX,
                i <= rs.len(),
                first_fit(rs, requested as int, 0) == first_fit(rs, requested as int, i as int),
            decreases rs.len() - i,
        {
            let region = self.regions[i];
            if region.remaining() >= requested {
                proof {
                    assert(region.wf());
                    if requested == u64::MAX {
                        assert(region.end - region.next <= u64::MAX - 4095) by {
                            assert(region.end % 4096 == 0);
                            assert(u64::MAX % 4096 == 4095);
                        }
                    }
                }
                let frame = PhysicalFrame { start_address: region.next };
                let updated = FrameRegion { next: region.next + requested, ..region };
                self.regions.set(i, updated);
                self.allocated_frames = self.allocated_frames.saturating_add(frames);
                proof {
                    assert forall|j: int| 0 <= j < self.regions@.len() implies (#[trigger] self.regions@[j]).wf() by {
                        if j != i {
                            assert(self.regions@[j] == rs[j]);
                        }
                    }
                }
                return Some(frame);
            }
            i = i + 1;
        }
        None
    }
}

proof fn lemma_too_many_sticks(start: InitProgress, es: Seq<MemoryMapEntry>, n: int)
    requires
        0 <= n <= es.len(),
        init_fold(start, es.take(n)).too_many,
    ensures
        init_fold(start, es).too_many,
        init_fold(start, es) == init_fold(start, es.take(n)),
    decreases es.len() - n,
{
    if n < es.len() {
        assert(es.take(n + 1).drop_last() =~= es.take(n));
        lemma_too_many_sticks(start, es, n + 1);
    } else {
        assert(es.take(n) =~= es);
    }
}

} // verus!

verus! {

/// Starts the frame allocator from the boot memory map.
pub fn initialize(allocator: &mut FrameAllocator, memory_map: &MemoryMap) -> (result: Result<FrameAllocatorStats, FrameAllocatorInitError>)
    requires
        old(allocator).wf(),
    ensures
        final(allocator).wf(),
        old(allocator).initialized ==> result == Err::<FrameAllocatorStats, FrameAllocatorInitError>(
            FrameAllocatorInitError::AlreadyInitialized,
        ) && *final(allocator) == *old(allocator),
        !old(allocator).initialized ==> {
            let p = init_fold(old(allocator).progress(), memory_map.entries@);
            &&& final(allocator).regions@ == p.regions
            &&& final(allocator).total_bytes == p.total_bytes
            &&& final(allocator).allocatable_bytes == p.allocatable_bytes
            &&& if p.too_many {
                result == Err::<FrameAllocatorStats, FrameAllocatorInitError>(FrameAllocatorInitError::TooManyRegions)
            } else if p.regions.len() == 0 {
                result == Err::<FrameAllocatorStats, FrameAllocatorInitError>(FrameAllocatorInitError::NoUsableRegions)
            } else {
                result == Ok::<FrameAllocatorStats, FrameAllocatorInitError>(final(allocator).spec_stats())
            }
        },
{
    allocator.initialize(memory_map)
}

/// One free page frame, or `None` when memory is exhausted or the allocator is not running.
pub fn allocate_frame(allocator: &mut FrameAllocator) -> (frame: Option<PhysicalFrame>)
    requires
        old(allocator).wf(),
    ensures
        final(allocator).wf(),
        ({
            let rs = old(allocator).regions@;
            let k = first_fit(rs, PAGE_SIZE as int, 0);
            if !old(allocator).initialized || k == rs.len() {
                frame is None && *final(allocator) == *old(allocator)
            } else {
                &&& frame == Some(PhysicalFrame { start_address: rs[k].next })
                &&& final(allocator).regions@ == rs.update(k, FrameRegion { next: (rs[k].next + PAGE_SIZE) as u64, ..rs[k] })
                &&& final(allocator).allocated_frames == sat_add(old(allocator).allocated_frames, 1)
            }
        }),
{
    allocator.allocate()
}

/// `count` consecutive free page frames, or `None`.
pub fn allocate_contiguous_frames(allocator: &mut FrameAllocator, count: u64) -> (frame: Option<PhysicalFrame>)
    requires
        old(allocator).wf(),
    ensures
        final(allocator).wf(),
        ({
            let rs = old(allocator).regions@;
            let need = if count * PAGE_SIZE > u64::MAX { u64::MAX as int } else { count * PAGE_SIZE };
            let k = first_fit(rs, need, 0);
            if !old(allocator).initialized || count == 0 || k == rs.len() {
                frame is None && *final(allocator) == *old(allocator)
            } else {
                &&& frame == Some(PhysicalFrame { start_address: rs[k].next })
                &&& final(allocator).regions@ == rs.update(k, FrameRegion { next: (rs[k].next + need) as u64, ..rs[k] })
                &&& final(allocator).allocated_frames == sat_add(old(allocator).allocated_frames, count)
            }
        }),
{
    allocator.allocate_contiguous(count)
}

/// Counters of the frame allocator.
pub fn stats(allocator: &FrameAllocator) -> (s: FrameAllocatorStats)
    ensures
        s == allocator.spec_stats(),
{
    allocator.stats()
}

/// A frame handed out by an allocation is no longer free: its region's next free
/// address has moved past it, and it stays inside the region.
pub proof fn lemma_allocated_frame_consumed(before: FrameAllocator, after: FrameAllocator, k: int)
    requires
        before.wf(),
        0 <= k < before.regions@.len(),
        before.regions@[k].end - before.regions@[k].next >= PAGE_SIZE,
        after.regions@ == before.regions@.update(
            k,
            FrameRegion { next: (before.regions@[k].next + PAGE_SIZE) as u64, ..before.regions@[k] },
        ),
    ensures
        after.wf(),
        before.regions@[k].start <= before.regions@[k].next,
        before.regions@[k].next + PAGE_SIZE <= after.regions@[k].next <= after.regions@[k].end,
        forall|i: int| 0 <= i < before.regions@.len() ==> #[trigger] after.regions@[i].next >= before.regions@[i].next,
{
    assert(before.regions@[k].wf());
    assert forall|i: int| 0 <= i < after.regions@.len() implies (#[trigger] after.regions@[i]).wf() by {
        assert(before.regions@[i].wf());
    }
}

} // verus!
