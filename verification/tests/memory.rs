use lib::compress::store::CompressionStore;
use lib::compress::CompressionClass;
use lib::limine::{MemoryMap, MemoryMapEntry, MemoryMapEntryType};
use lib::mm::frame::{FrameAllocator, FrameAllocatorInitError};
use lib::mm::heap::{BumpAllocator, HeapInitError};
use lib::mm::pager::{pattern_page, same_byte_page, zero_page, PagerError, PagerSmokeSummary, PagerState};

fn map() -> MemoryMap {
    MemoryMap {
        entries: vec![
            MemoryMapEntry { base: 0, length: 0x9_f000, entry_type: MemoryMapEntryType::Usable },
            MemoryMapEntry { base: 0x10_0000, length: 0x4000, entry_type: MemoryMapEntryType::Usable },
            MemoryMapEntry { base: 0x20_0000, length: 0x10_0000, entry_type: MemoryMapEntryType::Reserved },
        ],
    }
}

#[test]
fn frames_come_from_usable_memory_above_the_first_mebibyte() {
    let mut frames = FrameAllocator::new();
    assert!(frames.allocate().is_none());
    let stats = frames.initialize(&map()).ok().unwrap();
    assert_eq!(stats.usable_regions, 1);
    assert_eq!(stats.total_bytes, 0x9_f000 + 0x4000);
    assert_eq!(stats.allocatable_bytes, 0x4000);
    assert_eq!(frames.allocate().unwrap().start_address(), 0x10_0000);
    assert_eq!(frames.allocate_contiguous(2).unwrap().start_address(), 0x10_1000);
    assert_eq!(frames.allocate_contiguous(2), None);
    assert_eq!(frames.allocate().unwrap().start_address(), 0x10_3000);
    assert!(frames.allocate().is_none());
    assert_eq!(frames.stats().allocated_frames, 4);
    assert_eq!(frames.initialize(&map()).err(), Some(FrameAllocatorInitError::AlreadyInitialized));
    let mut empty = FrameAllocator::new();
    let none = MemoryMap { entries: vec![] };
    assert_eq!(empty.initialize(&none).err(), Some(FrameAllocatorInitError::NoUsableRegions));
}

#[test]
fn bump_heap_aligns_and_fills_up() {
    let mut heap = BumpAllocator::new();
    assert_eq!(heap.allocate(8, 8), None);
    assert_eq!(heap.initialize(0x1000, 0).err(), Some(HeapInitError::OutOfFrames));
    let stats = heap.initialize(0x1001, 64).ok().unwrap();
    assert_eq!(stats.size_bytes, 64);
    assert_eq!(heap.allocate(4, 16), Some(0x1010));
    assert_eq!(heap.allocate(4, 1), Some(0x1014));
    assert_eq!(heap.allocate(64, 1), None);
    assert_eq!(heap.stats().used_bytes, 0x1018 - 0x1001);
    assert_eq!(heap.stats().allocation_count, 2);
    assert_eq!(heap.initialize(0x1000, 8).err(), Some(HeapInitError::AlreadyInitialized));
}

#[test]
fn pages_round_trip_through_the_store() {
    let mut store = CompressionStore::new();
    let mut pager = PagerState::new();
    assert_eq!(pager.run_bootstrap_smoke(&mut store).err(), Some(PagerError::NotInitialized));
    store.initialize();
    pager.initialize(&store).ok().unwrap();
    assert_eq!(pager.run_bootstrap_smoke(&mut store).ok(), Some(PagerSmokeSummary { tested_pages: 4, verified_pages: 4 }));
    assert_eq!(pager.stats.smoke_runs, 1);
    assert_eq!(pager.stats.smoke_successes, 1);
    assert_eq!(pager.stats.reclaim_successes, 4);
    assert_eq!(pager.stats.restore_successes, 4);
    assert_eq!(pager.stats.reclaim_failures, 0);
    let page = pattern_page();
    let entry = pager.reclaim_page(&mut store, 77, &page).ok().unwrap();
    assert_eq!(entry.page_id, 77);
    let mut out = [0u8; 4096];
    pager.restore_page(&mut store, 77, &mut out).ok().unwrap();
    assert_eq!(out.to_vec(), page.to_vec());
    let zero = pager.reclaim_page(&mut store, 5, &zero_page()).ok().unwrap();
    assert_eq!(zero.class, CompressionClass::Zero);
    assert_eq!(zero.encoded_bytes, 16);
    let same = pager.reclaim_page(&mut store, 6, &same_byte_page(0xab)).ok().unwrap();
    assert_eq!(same.class, CompressionClass::Same);
    let mut back = [0u8; 4096];
    pager.restore_page(&mut store, 6, &mut back).ok().unwrap();
    assert!(back.iter().all(|b| *b == 0xab));
    assert!(pager.verify_roundtrip(&mut store, 78, &page).is_ok());
}
