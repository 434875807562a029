use vstd::prelude::*;

use crate::mm::frame::{FrameAllocator, PAGE_SIZE};

verus! {

pub const HEAP_PAGES: usize = 32;

/// Counters of the kernel heap.
#[derive(Copy, Clone, PartialEq, Eq, Structural, Debug)]
pub struct HeapStats {
    pub start: u64,
    pub size_bytes: u64,
    pub used_bytes: u64,
    pub allocation_count: usize,
}

/// Why the heap could not start.
#[derive(Copy, Clone, PartialEq, Eq, Structural, Debug)]
pub enum HeapInitError {
    AlreadyInitialized,
    OutOfFrames,
}

/// A bump allocator: memory below `next` is in use; it is reclaimed all at once
/// when the last live allocation is freed.
pub struct BumpAllocator {
    pub start: usize,
    pub end: usize,
    pub next: usize,
    pub allocations: usize,
    pub initialized: bool,
}

pub open spec fn spec_align_up_usize(v: usize, a: usize) -> int {
    if a == 0 {
        v as int
    } else {
        let s = if v + (a - 1) > usize::MAX { usize::MAX as int } else { v + (a - 1) };
        s - s % (a as int)
    }
}

/// `value` rounded up to a multiple of `alignment`, saturating.
pub fn align_up(value: usize, alignment: usize) -> (r: usize)
    ensures
        r == spec_align_up_usize(value, alignment),
{
    if alignment == 0 {
        return value;
    }
    let s = value.saturating_add(alignment - 1);
    s - s % alignment
}

impl BumpAllocator {
    /// The allocated part lies inside the heap.
    pub open spec fn wf(&self) -> bool {
        self.initialized ==> self.start <= self.end && self.next <= self.end
    }

    /// A heap with no memory yet.
    pub fn new() -> (b: Self)
        ensures
            b.wf(),
            !b.initialized,
            b.start == 0 && b.end == 0 && b.next == 0 && b.allocations == 0,
    {
        BumpAllocator { start: 0, end: 0, next: 0, allocations: 0, initialized: false }
    }

    pub open spec fn spec_stats(&self) -> HeapStats {
        HeapStats {
            start: self.start as u64,
            size_bytes: (if self.end >= self.start { self.end - self.start } else { 0 }) as u64,
            used_bytes: (if self.next >= self.start { self.next - self.start } else { 0 }) as u64,
            allocation_count: self.allocations,
        }
    }

    /// Counters of the heap.
    pub fn stats(&self) -> (s: HeapStats)
        ensures
            s == self.spec_stats(),
    {
        HeapStats {
            start: self.start as u64,
            size_bytes: self.end.saturating_sub(self.start) as u64,
            used_bytes: self.next.saturating_sub(self.start) as u64,
            allocation_count: self.allocations,
        }
    }

    /// Gives the heap the `size` bytes at `start`.
    pub fn initialize(&mut self, start: usize, size: usize) -> (result: Result<HeapStats, HeapInitError>)
        requires
            old(self).wf(),
        ensures
            final(self).wf(),
            old(self).initialized ==> result == Err::<HeapStats, HeapInitError>(HeapInitError::AlreadyInitialized)
                && *final(self) == *old(self),
            !old(self).initialized && size == 0 ==> result == Err::<HeapStats, HeapInitError>(HeapInitError::OutOfFrames)
                && *final(self) == *old(self),
            !old(self).initialized && size > 0 ==> {
                &&& final(self).initialized
                &&& final(self).start == start
                &&& final(self).end == if start + size > usize::MAX { usize::MAX as int } else { start + size }
                &&& final(self).next == start
                &&& final(self).allocations == 0
                &&& result == Ok::<HeapStats, HeapInitError>(final(self).spec_stats())
            },
    {
        if self.initialized {
            return Err(HeapInitError::AlreadyInitialized);
        }
        if size == 0 {
            return Err(HeapInitError::OutOfFrames);
        }
        self.start = start;
        self.end = start.saturating_add(size);
        self.next = start;
        self.allocations = 0;
        self.initialized = true;
        Ok(self.stats())
    }

    /// Allocates `size` bytes aligned to `align`; `None` when the heap is not set up or full.
    pub fn allocate(&mut self, size: usize, align: usize) -> (address: Option<usize>)
        requires
            old(self).wf(),
            align > 0,
        ensures
            final(self).wf(),
            final(self).start == old(self).start,
            final(self).end == old(self).end,
            final(self).initialized == old(self).initialized,
            ({
                let a = spec_align_up_usize(old(self).next, align);
                let e = if a + size > usize::MAX { usize::MAX as int } else { a + size };
                if !old(self).initialized || e > old(self).end {
                    address is None && *final(self) == *old(self)
                } else {
                    &&& address == Some(a as usize)
                    &&& final(self).next == e
                    &&& final(self).allocations == if old(self).allocations + 1 > usize::MAX {
                        usize::MAX as int
                    } else {
                        old(self).allocations + 1
                    }
                }
            }),
            address matches Some(p) ==> p % align == 0,
    {
        if !self.initialized {
            return None;
        }
        let alloc_start = align_up(self.next, align);
        let alloc_end = alloc_start.saturating_add(size);
        if alloc_end > self.end {
            return None;
        }
        proof {
            let s = if self.next + (align - 1) > usize::MAX { usize::MAX as int } else { self.next + (align - 1) };
            assert((alloc_start as int) % (align as int) == 0) by {
                vstd::arithmetic::div_mod::lemma_fundamental_div_mod(s, align as int);
                vstd::arithmetic::div_mod::lemma_mod_multiples_basic(s / (align as int), align as int);
                assert(s - s % (align as int) == (s / (align as int)) * (align as int)) by (nonlinear_arith)
                    requires
                        s == (align as int) * (s / (align as int)) + s % (align as int),
                ;
            }
            if alloc_start < self.next {
                // saturated: s == usize::MAX, alloc_start > usize::MAX - align >= next is impossible to exceed end
                assert(alloc_end >= alloc_start);
            }
        }
        self.next = alloc_end;
        self.allocations = self.allocations.saturating_add(1);
        Some(alloc_start)
    }

    /// Frees one allocation; the heap is reclaimed when none is left.
    pub fn deallocate(&mut self)
        requires
            old(self).wf(),
        ensures
            final(self).wf(),
            final(self).start == old(self).start,
            final(self).end == old(self).end,
            final(self).initialized == old(self).initialized,
            old(self).allocations == 0 ==> *final(self) == *old(self),
            old(self).allocations > 0 ==> final(self).allocations == old(self).allocations - 1,
            old(self).allocations == 1 ==> final(self).next == old(self).start,
            old(self).allocations > 1 ==> final(self).next == old(self).next,
    {
        if self.allocations > 0 {
            self.allocations = self.allocations - 1;
            if self.allocations == 0 {
                self.next = self.start;
            }
        }
    }
}

/// Takes the heap's pages from the frame allocator and maps them through the higher-half offset.
pub fn initialize(heap: &mut BumpAllocator, frames: &mut FrameAllocator, hhdm_offset: u64) -> (result: Result<HeapStats, HeapInitError>)
    requires
        old(heap).wf(),
        old(frames).wf(),
    ensures
        final(heap).wf(),
        final(frames).wf(),
        ({
            let rs = old(frames).regions@;
            let k = crate::mm::frame::first_fit(rs, (HEAP_PAGES * PAGE_SIZE) as int, 0);
            if !old(frames).initialized || k == rs.len() {
                result == Err::<HeapStats, HeapInitError>(HeapInitError::OutOfFrames) && *final(heap) == *old(heap)
                    && *final(frames) == *old(frames)
            } else {
                let start = crate::mm::frame::sat_add(hhdm_offset, rs[k].next) as usize;
                &&& final(frames).regions@[k].next == rs[k].next + HEAP_PAGES * PAGE_SIZE
                &&& old(heap).initialized ==> result == Err::<HeapStats, HeapInitError>(HeapInitError::AlreadyInitialized)
                    && *final(heap) == *old(heap)
                &&& !old(heap).initialized ==> final(heap).initialized && final(heap).start == start
                    && final(heap).next == start && final(heap).allocations == 0
                    && final(heap).end == (if start + HEAP_PAGES * PAGE_SIZE > usize::MAX { usize::MAX as int } else { start + HEAP_PAGES * PAGE_SIZE })
                    && result == Ok::<HeapStats, HeapInitError>(final(heap).spec_stats())
            }
        }),
{
    let count = HEAP_PAGES as u64;
    proof {
        crate::mm::frame::lemma_first_fit(old(frames).regions@, (HEAP_PAGES * PAGE_SIZE) as int, 0);
    }
    assert(count * PAGE_SIZE == HEAP_PAGES * PAGE_SIZE);
    let heap_frame = match frames.allocate_contiguous(count) {
        Some(f) => f,
        None => return Err(HeapInitError::OutOfFrames),
    };
    proof {
        let rs = old(frames).regions@;
        let need = if count * PAGE_SIZE > u64::MAX { u64::MAX as int } else { count * PAGE_SIZE };
        assert(need == HEAP_PAGES * PAGE_SIZE);
        crate::mm::frame::lemma_first_fit(rs, need, 0);
    }
    let heap_start = hhdm_offset.saturating_add(heap_frame.start_address()) as usize;
    let heap_size = HEAP_PAGES * (PAGE_SIZE as usize);
    assert(heap_size == HEAP_PAGES * PAGE_SIZE);
    heap.initialize(heap_start, heap_size)
}

} // verus!

verus! {

/// Counters of the kernel heap.
pub fn stats(heap: &BumpAllocator) -> (s: HeapStats)
    ensures
        s == heap.spec_stats(),
{
    heap.stats()
}

} // verus!
