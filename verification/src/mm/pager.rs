use vstd::prelude::*;

use crate::bstr::bytes_eq;
use crate::compress::codec::spec_classify;
use crate::compress::store::{CompressionStore, StoreEntry, StoreError, STORE_CAPACITY_PAGES, index_of};
use crate::compress::{CompressionClass, PAGE_BYTES};

verus! {

/// Page size and store capacity the pager works with.
#[derive(Copy, Clone, PartialEq, Eq, Structural, Debug)]
pub struct PagerSummary {
    pub page_bytes: usize,
    pub store_capacity_pages: usize,
}

/// Why the pager could not start.
#[derive(Copy, Clone, PartialEq, Eq, Structural, Debug)]
pub enum PagerInitError {
    AlreadyInitialized,
    CompressionStoreUnavailable,
}

impl PagerInitError {
    pub fn as_str(self) -> (s: &'static str)
        ensures
            self == PagerInitError::AlreadyInitialized ==> s@ == "pager is already initialized"@,
            self == PagerInitError::CompressionStoreUnavailable ==> s@
                == "compression store must be initialized before pager"@,
    {
        match self {
            Self::AlreadyInitialized => "pager is already initialized",
            Self::CompressionStoreUnavailable => "compression store must be initialized before pager",
        }
    }
}

/// Why a page could not be reclaimed or restored.
#[derive(Copy, Clone, PartialEq, Eq, Structural, Debug)]
pub enum PagerError {
    NotInitialized,
    Store(StoreError),
    VerifyFailed,
}

impl PagerError {
    pub fn as_str(self) -> (s: &'static str)
        ensures
            self == PagerError::NotInitialized ==> s@ == "pager is not initialized"@,
            self == PagerError::VerifyFailed ==> s@ == "reclaim/restore verification failed"@,
    {
        match self {
            Self::NotInitialized => "pager is not initialized",
            Self::Store(error) => error.as_str(),
            Self::VerifyFailed => "reclaim/restore verification failed",
        }
    }
}

/// A page the pager moved to or from the store.
#[derive(Copy, Clone, PartialEq, Eq, Structural, Debug)]
pub struct PagerEntry {
    pub page_id: u64,
    pub class: CompressionClass,
    pub encoded_bytes: usize,
}

/// Counters of the pager.
#[derive(Copy, Clone, PartialEq, Eq, Structural, Debug)]
pub struct PagerStats {
    pub reclaim_requests: u64,
    pub reclaim_successes: u64,
    pub reclaim_failures: u64,
    pub restore_requests: u64,
    pub restore_successes: u64,
    pub restore_failures: u64,
    pub restore_misses: u64,
    pub verify_failures: u64,
    pub reclaimed_zero_pages: u64,
    pub reclaimed_same_pages: u64,
    pub reclaimed_sxrc_pages: u64,
    pub reclaimed_raw_pages: u64,
    pub restored_zero_pages: u64,
    pub restored_same_pages: u64,
    pub restored_sxrc_pages: u64,
    pub restored_raw_pages: u64,
    pub smoke_runs: u64,
    pub smoke_successes: u64,
}

/// Pages tested by the boot smoke test.
#[derive(Copy, Clone, PartialEq, Eq, Structural, Debug)]
pub struct PagerSmokeSummary {
    pub tested_pages: u64,
    pub verified_pages: u64,
}

/// The pager: moves pages into the compression store and back, and counts what it did.
pub struct PagerState {
    pub initialized: bool,
    pub stats: PagerStats,
}

pub open spec fn inc(v: u64) -> u64 {
    if v == u64::MAX { v } else { (v + 1) as u64 }
}

fn sat_inc(v: u64) -> (r: u64)
    ensures
        r == inc(v),
{
    v.saturating_add(1)
}

impl PagerState {
    /// A pager that is not started, with every counter zero.
    pub fn new() -> (p: Self)
        ensures
            !p.initialized,
            p.stats == zero_stats(),
    {
        PagerState {
            initialized: false,
            stats: PagerStats {
                reclaim_requests: 0,
                reclaim_successes: 0,
                reclaim_failures: 0,
                restore_requests: 0,
                restore_successes: 0,
                restore_failures: 0,
                restore_misses: 0,
                verify_failures: 0,
                reclaimed_zero_pages: 0,
                reclaimed_same_pages: 0,
                reclaimed_sxrc_pages: 0,
                reclaimed_raw_pages: 0,
                restored_zero_pages: 0,
                restored_same_pages: 0,
                restored_sxrc_pages: 0,
                restored_raw_pages: 0,
                smoke_runs: 0,
                smoke_successes: 0,
            },
        }
    }

    /// Starts the pager once the store is running.
    pub fn initialize(&mut self, store: &CompressionStore) -> (result: Result<PagerSummary, PagerInitError>)
        ensures
            old(self).initialized ==> result == Err::<PagerSummary, PagerInitError>(PagerInitError::AlreadyInitialized)
                && *final(self) == *old(self),
            !old(self).initialized && !store.initialized ==> result == Err::<PagerSummary, PagerInitError>(
                PagerInitError::CompressionStoreUnavailable,
            ) && *final(self) == *old(self),
            !old(self).initialized && store.initialized ==> result == Ok::<PagerSummary, PagerInitError>(
                PagerSummary { page_bytes: PAGE_BYTES, store_capacity_pages: STORE_CAPACITY_PAGES },
            ) && final(self).initialized && final(self).stats == old(self).stats,
    {
        if self.initialized {
            return Err(PagerInitError::AlreadyInitialized);
        }
        if !store.is_initialized() {
            return Err(PagerInitError::CompressionStoreUnavailable);
        }
        self.initialized = true;
        Ok(self.summary(store))
    }

    /// Page size and store capacity.
    pub fn summary(&self, store: &CompressionStore) -> (s: PagerSummary)
        ensures
            s == (PagerSummary { page_bytes: PAGE_BYTES, store_capacity_pages: STORE_CAPACITY_PAGES }),
    {
        let store_summary = store.summary();
        PagerSummary { page_bytes: PAGE_BYTES, store_capacity_pages: store_summary.capacity_pages }
    }

    /// The counters.
    pub fn stats(&self) -> (s: PagerStats)
        ensures
            s == self.stats,
    {
        self.stats
    }

    fn account_reclaimed_class(&mut self, class: CompressionClass)
        ensures
            final(self).initialized == old(self).initialized,
            final(self).stats == reclaimed_counted(old(self).stats, class),
    {
        match class {
            CompressionClass::Zero => self.stats.reclaimed_zero_pages = sat_inc(self.stats.reclaimed_zero_pages),
            CompressionClass::Same => self.stats.reclaimed_same_pages = sat_inc(self.stats.reclaimed_same_pages),
            CompressionClass::Sxrc => self.stats.reclaimed_sxrc_pages = sat_inc(self.stats.reclaimed_sxrc_pages),
            CompressionClass::Raw => self.stats.reclaimed_raw_pages = sat_inc(self.stats.reclaimed_raw_pages),
        }
    }

    fn account_restored_class(&mut self, class: CompressionClass)
        ensures
            final(self).initialized == old(self).initialized,
            final(self).stats == restored_counted(old(self).stats, class),
    {
        match class {
            CompressionClass::Zero => self.stats.restored_zero_pages = sat_inc(self.stats.restored_zero_pages),
            CompressionClass::Same => self.stats.restored_same_pages = sat_inc(self.stats.restored_same_pages),
            CompressionClass::Sxrc => self.stats.restored_sxrc_pages = sat_inc(self.stats.restored_sxrc_pages),
            CompressionClass::Raw => self.stats.restored_raw_pages = sat_inc(self.stats.restored_raw_pages),
        }
    }
}

pub open spec fn zero_stats() -> PagerStats {
    PagerStats {
        reclaim_requests: 0,
        reclaim_successes: 0,
        reclaim_failures: 0,
        restore_requests: 0,
        restore_successes: 0,
        restore_failures: 0,
        restore_misses: 0,
        verify_failures: 0,
        reclaimed_zero_pages: 0,
        reclaimed_same_pages: 0,
        reclaimed_sxrc_pages: 0,
        reclaimed_raw_pages: 0,
        restored_zero_pages: 0,
        restored_same_pages: 0,
        restored_sxrc_pages: 0,
        restored_raw_pages: 0,
        smoke_runs: 0,
        smoke_successes: 0,
    }
}

/// The counters after one page was reclaimed and restored: one more request and one
/// more success each way, the failure and smoke counters as they were.
pub open spec fn roundtrip_counted(before: PagerStats, after: PagerStats) -> bool {
    &&& after.reclaim_requests == inc(before.reclaim_requests)
    &&& after.reclaim_successes == inc(before.reclaim_successes)
    &&& after.restore_requests == inc(before.restore_requests)
    &&& after.restore_successes == inc(before.restore_successes)
    &&& after.reclaim_failures == before.reclaim_failures
    &&& after.restore_failures == before.restore_failures
    &&& after.restore_misses == before.restore_misses
    &&& after.verify_failures == before.verify_failures
    &&& after.smoke_runs == before.smoke_runs
    &&& after.smoke_successes == before.smoke_successes
}

/// The counters after a page of class `c` was reclaimed.
pub open spec fn reclaimed_counted(s: PagerStats, c: CompressionClass) -> PagerStats {
    match c {
        CompressionClass::Zero => PagerStats { reclaimed_zero_pages: inc(s.reclaimed_zero_pages), ..s },
        CompressionClass::Same => PagerStats { reclaimed_same_pages: inc(s.reclaimed_same_pages), ..s },
        CompressionClass::Sxrc => PagerStats { reclaimed_sxrc_pages: inc(s.reclaimed_sxrc_pages), ..s },
        CompressionClass::Raw => PagerStats { reclaimed_raw_pages: inc(s.reclaimed_raw_pages), ..s },
    }
}

/// The counters after a page of class `c` was restored.
pub open spec fn restored_counted(s: PagerStats, c: CompressionClass) -> PagerStats {
    match c {
        CompressionClass::Zero => PagerStats { restored_zero_pages: inc(s.restored_zero_pages), ..s },
        CompressionClass::Same => PagerStats { restored_same_pages: inc(s.restored_same_pages), ..s },
        CompressionClass::Sxrc => PagerStats { restored_sxrc_pages: inc(s.restored_sxrc_pages), ..s },
        CompressionClass::Raw => PagerStats { restored_raw_pages: inc(s.restored_raw_pages), ..s },
    }
}

} // verus!

verus! {

impl PagerState {
    /// Moves `page` into the store under `page_id`.
    pub fn reclaim_page(&mut self, store: &mut CompressionStore, page_id: u64, page: &[u8; PAGE_BYTES]) -> (result: Result<PagerEntry, PagerError>)
        requires
            old(store).wf(),
        ensures
            final(store).wf(),
            final(self).initialized == old(self).initialized,
            final(store).initialized == old(store).initialized,
            !old(self).initialized ==> result == Err::<PagerEntry, PagerError>(PagerError::NotInitialized)
                && *final(self) == *old(self) && final(store).pages@ == old(store).pages@,
            old(self).initialized && !old(store).initialized ==> result == Err::<PagerEntry, PagerError>(
                PagerError::Store(StoreError::NotInitialized),
            ) && final(self).stats == (PagerStats {
                reclaim_requests: inc(old(self).stats.reclaim_requests),
                reclaim_failures: inc(old(self).stats.reclaim_failures),
                ..old(self).stats
            }) && final(store).pages@ == old(store).pages@,
            old(self).initialized && old(store).initialized ==> {
                let ps = old(store).pages@;
                let class = spec_classify(page@);
                &&& result matches Ok(e) && e.page_id == page_id && e.class == class
                &&& final(self).stats == reclaimed_counted(
                    PagerStats {
                        reclaim_requests: inc(old(self).stats.reclaim_requests),
                        reclaim_successes: inc(old(self).stats.reclaim_successes),
                        ..old(self).stats
                    },
                    class,
                )
                &&& final(store).contents() == if index_of(ps, page_id, 0) < ps.len() || ps.len() < STORE_CAPACITY_PAGES {
                    old(store).contents().insert(page_id, page@)
                } else {
                    old(store).contents().remove(ps[0].page_id).insert(page_id, page@)
                }
            },
    {
        if !self.initialized {
            return Err(PagerError::NotInitialized);
        }
        self.stats.reclaim_requests = sat_inc(self.stats.reclaim_requests);
        match store.store_page(page_id, page) {
            Ok(entry) => {
                self.stats.reclaim_successes = sat_inc(self.stats.reclaim_successes);
                self.account_reclaimed_class(entry.class);
                Ok(PagerEntry { page_id: entry.page_id, class: entry.class, encoded_bytes: entry.encoded_bytes })
            },
            Err(error) => {
                self.stats.reclaim_failures = sat_inc(self.stats.reclaim_failures);
                Err(PagerError::Store(error))
            },
        }
    }

    /// Decodes the page stored under `page_id` into `out`.
    pub fn restore_page(&mut self, store: &mut CompressionStore, page_id: u64, out: &mut [u8; PAGE_BYTES]) -> (result: Result<PagerEntry, PagerError>)
        requires
            old(store).wf(),
        ensures
            final(store).wf(),
            final(store).pages@ == old(store).pages@,
            final(store).initialized == old(store).initialized,
            final(self).initialized == old(self).initialized,
            !old(self).initialized ==> result == Err::<PagerEntry, PagerError>(PagerError::NotInitialized)
                && *final(self) == *old(self) && final(out)@ == old(out)@,
            old(self).initialized && !old(store).initialized ==> result == Err::<PagerEntry, PagerError>(
                PagerError::Store(StoreError::NotInitialized),
            ) && final(out)@ == old(out)@ && final(self).stats == (PagerStats {
                restore_requests: inc(old(self).stats.restore_requests),
                restore_failures: inc(old(self).stats.restore_failures),
                ..old(self).stats
            }),
            old(self).initialized && old(store).initialized && !old(store).contents().dom().contains(page_id) ==> result
                == Err::<PagerEntry, PagerError>(PagerError::Store(StoreError::NotFound)) && final(out)@ == old(out)@
                && final(self).stats == (PagerStats {
                restore_requests: inc(old(self).stats.restore_requests),
                restore_failures: inc(old(self).stats.restore_failures),
                restore_misses: inc(old(self).stats.restore_misses),
                ..old(self).stats
            }),
            old(self).initialized && old(store).initialized && old(store).contents().dom().contains(page_id) ==> {
                let e = old(store).pages@[index_of(old(store).pages@, page_id, 0)];
                &&& result matches Ok(r) && r.page_id == page_id && r.class == e.class
                &&& final(out)@ == old(store).contents()[page_id]
                &&& final(self).stats == restored_counted(
                    PagerStats {
                        restore_requests: inc(old(self).stats.restore_requests),
                        restore_successes: inc(old(self).stats.restore_successes),
                        ..old(self).stats
                    },
                    e.class,
                )
            },
    {
        if !self.initialized {
            return Err(PagerError::NotInitialized);
        }
        self.stats.restore_requests = sat_inc(self.stats.restore_requests);
        match store.load_page(page_id, out) {
            Ok(entry) => {
                self.stats.restore_successes = sat_inc(self.stats.restore_successes);
                self.account_restored_class(entry.class);
                Ok(PagerEntry { page_id: entry.page_id, class: entry.class, encoded_bytes: entry.encoded_bytes })
            },
            Err(error) => {
                self.stats.restore_failures = sat_inc(self.stats.restore_failures);
                if error == StoreError::NotFound {
                    self.stats.restore_misses = sat_inc(self.stats.restore_misses);
                }
                Err(PagerError::Store(error))
            },
        }
    }

    /// Reclaims `page`, restores it and checks that the same bytes came back.
    pub fn verify_roundtrip(&mut self, store: &mut CompressionStore, page_id: u64, page: &[u8; PAGE_BYTES]) -> (result: Result<(), PagerError>)
        requires
            old(store).wf(),
        ensures
            final(store).wf(),
            final(self).initialized == old(self).initialized,
            final(store).initialized == old(store).initialized,
            final(self).stats.smoke_runs == old(self).stats.smoke_runs,
            !old(self).initialized ==> result == Err::<(), PagerError>(PagerError::NotInitialized),
            old(self).initialized && !old(store).initialized ==> result == Err::<(), PagerError>(
                PagerError::Store(StoreError::NotInitialized),
            ),
            old(self).initialized && old(store).initialized ==> result == Ok::<(), PagerError>(())
                && roundtrip_counted(old(self).stats, final(self).stats) && final(store).contents().dom().contains(page_id)
                && final(store).contents()[page_id] == page@,
    {
        match self.reclaim_page(store, page_id, page) {
            Ok(_) => {},
            Err(e) => return Err(e),
        }
        let mut restored = [0u8; PAGE_BYTES];
        match self.restore_page(store, page_id, &mut restored) {
            Ok(_) => {},
            Err(e) => return Err(e),
        }
        if !bytes_eq(page, &restored) {
            self.stats.verify_failures = sat_inc(self.stats.verify_failures);
            return Err(PagerError::VerifyFailed);
        }
        Ok(())
    }

    /// Round-trips four pages of different shapes through the store.
    pub fn run_bootstrap_smoke(&mut self, store: &mut CompressionStore) -> (result: Result<PagerSmokeSummary, PagerError>)
        requires
            old(store).wf(),
        ensures
            final(store).wf(),
            !old(self).initialized ==> result == Err::<PagerSmokeSummary, PagerError>(PagerError::NotInitialized)
                && *final(self) == *old(self),
            old(self).initialized && !old(store).initialized ==> result == Err::<PagerSmokeSummary, PagerError>(
                PagerError::Store(StoreError::NotInitialized),
            ),
            old(self).initialized && old(store).initialized ==> result == Ok::<PagerSmokeSummary, PagerError>(
                PagerSmokeSummary { tested_pages: 4, verified_pages: 4 },
            ) && final(self).stats.smoke_runs == inc(old(self).stats.smoke_runs)
                && final(self).stats.smoke_successes == inc(old(self).stats.smoke_successes)
                && final(self).stats.reclaim_requests == inc(inc(inc(inc(old(self).stats.reclaim_requests))))
                && final(self).stats.reclaim_successes == inc(inc(inc(inc(old(self).stats.reclaim_successes))))
                && final(self).stats.restore_requests == inc(inc(inc(inc(old(self).stats.restore_requests))))
                && final(self).stats.restore_successes == inc(inc(inc(inc(old(self).stats.restore_successes))))
                && final(self).stats.reclaim_failures == old(self).stats.reclaim_failures
                && final(self).stats.restore_failures == old(self).stats.restore_failures
                && final(self).stats.restore_misses == old(self).stats.restore_misses
                && final(self).stats.verify_failures == old(self).stats.verify_failures
                && final(store).contents().dom().contains(0x1003)
                && final(store).contents()[0x1003] == words_page_bytes(),
    {
        if !self.initialized {
            return Err(PagerError::NotInitialized);
        }
        self.stats.smoke_runs = sat_inc(self.stats.smoke_runs);
        let ghost runs = self.stats.smoke_runs;
        let zero = zero_page();
        match self.verify_roundtrip(store, 0x1000, &zero) {
            Ok(()) => {},
            Err(e) => return Err(e),
        }
        let same = same_byte_page(0xAA);
        match self.verify_roundtrip(store, 0x1001, &same) {
            Ok(()) => {},
            Err(e) => return Err(e),
        }
        let pattern = pattern_page();
        match self.verify_roundtrip(store, 0x1002, &pattern) {
            Ok(()) => {},
            Err(e) => return Err(e),
        }
        let words = dictionary_word_page(0x0000_ffff);
        assert(words@ =~= words_page_bytes());
        match self.verify_roundtrip(store, 0x1003, &words) {
            Ok(()) => {},
            Err(e) => return Err(e),
        }
        self.stats.smoke_successes = sat_inc(self.stats.smoke_successes);
        Ok(PagerSmokeSummary { tested_pages: 4, verified_pages: 4 })
    }
}

/// A page of zero bytes.
pub fn zero_page() -> (p: [u8; PAGE_BYTES])
    ensures
        forall|i: int| 0 <= i < PAGE_BYTES ==> p@[i] == 0,
{
    [0u8; PAGE_BYTES]
}

/// A page whose every byte is `byte`.
pub fn same_byte_page(byte: u8) -> (p: [u8; PAGE_BYTES])
    ensures
        forall|i: int| 0 <= i < PAGE_BYTES ==> p@[i] == byte,
{
    [byte; PAGE_BYTES]
}

/// A page whose byte `i` is `17 * i + 5` modulo 256.
pub fn pattern_page() -> (p: [u8; PAGE_BYTES])
    ensures
        forall|i: int| 0 <= i < PAGE_BYTES ==> p@[i] == ((i % 256) * 17 + 5) % 256,
{
    let mut page = [0u8; PAGE_BYTES];
    let mut index: usize = 0;
    while index < PAGE_BYTES
        invariant
            index <= PAGE_BYTES,
            page@.len() == PAGE_BYTES,
            forall|i: int| 0 <= i < index ==> page@[i] == ((i % 256) * 17 + 5) % 256,
        decreases PAGE_BYTES - index,
    {
        let b = (index % 256) as u8;
        let v = b.wrapping_mul(17).wrapping_add(5);
        proof {
            assert(v == ((b as int) * 17 % 256 + 5) % 256);
            assert(((b as int) * 17 % 256 + 5) % 256 == ((b as int) * 17 + 5) % 256) by {
                vstd::arithmetic::div_mod::lemma_add_mod_noop((b as int) * 17, 5, 256);
                vstd::arithmetic::div_mod::lemma_mod_twice((b as int) * 17, 256);
            }
        }
        page[index] = v;
        index = index + 1;
    }
    page
}

/// A page filled with the little-endian bytes of `word`, repeated.
/// The page the smoke test builds last: the word `0x0000_ffff` repeated.
pub open spec fn words_page_bytes() -> Seq<u8> {
    Seq::new(PAGE_BYTES as nat, |i: int| crate::le::u32_le_bytes(0x0000_ffffu32)[i % 4])
}

pub fn dictionary_word_page(word: u32) -> (p: [u8; PAGE_BYTES])
    ensures
        forall|i: int| 0 <= i < PAGE_BYTES ==> p@[i] == crate::le::u32_le_bytes(word)[i % 4],
{
    let mut page = [0u8; PAGE_BYTES];
    let bytes = crate::le::write_u32_le(word);
    let mut index: usize = 0;
    while index + 4 <= PAGE_BYTES
        invariant
            index <= PAGE_BYTES,
            index % 4 == 0,
            page@.len() == PAGE_BYTES,
            bytes@ == crate::le::u32_le_bytes(word),
            forall|i: int| 0 <= i < index ==> page@[i] == crate::le::u32_le_bytes(word)[i % 4],
        decreases PAGE_BYTES - index,
    {
        page[index] = bytes[0];
        page[index + 1] = bytes[1];
        page[index + 2] = bytes[2];
        page[index + 3] = bytes[3];
        index = index + 4;
    }
    page
}

} // verus!
