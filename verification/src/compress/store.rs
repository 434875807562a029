use vstd::prelude::*;

use crate::bstr::bytes_eq;
use crate::compress::codec::{decode_page, encode_page, spec_decode_page, spec_encode_page, lemma_encode_decode_roundtrip, spec_classify};
use crate::compress::header::HEADER_BYTES;
use crate::compress::{CompressionClass, CompressionError, PAGE_BYTES};

verus! {

/// Number of pages the store keeps before it evicts the oldest one.
pub const STORE_CAPACITY_PAGES: usize = 64;

/// One stored page, as the caller sees it.
#[derive(Copy, Clone, PartialEq, Eq, Structural, Debug)]
pub struct StoreEntry {
    pub page_id: u64,
    pub class: CompressionClass,
    pub encoded_bytes: usize,
}

/// Why the store could not keep or give back a page.
#[derive(Copy, Clone, PartialEq, Eq, Structural, Debug)]
pub enum StoreError {
    NotInitialized,
    NotFound,
    Codec(CompressionError),
}

impl StoreError {
    pub fn as_str(self) -> (s: &'static str)
        ensures
            self == StoreError::NotInitialized ==> s@ == "compression store is not initialized"@,
            self == StoreError::NotFound ==> s@ == "page is not in the compression store"@,
            self is Codec ==> s@ == "page codec failed"@,
    {
        match self {
            Self::NotInitialized => "compression store is not initialized",
            Self::NotFound => "page is not in the compression store",
            Self::Codec(_) => "page codec failed",
        }
    }
}

/// Capacity and contents of the store.
#[derive(Copy, Clone, PartialEq, Eq, Structural, Debug)]
pub struct StoreSummary {
    pub capacity_pages: usize,
}

/// Counters of the store.
#[derive(Copy, Clone, PartialEq, Eq, Structural, Debug)]
pub struct StoreCounters {
    pub store_requests: u64,
    pub store_successes: u64,
    pub load_requests: u64,
    pub load_successes: u64,
    pub load_misses: u64,
    pub replacements: u64,
    pub evictions: u64,
    pub encode_failures: u64,
    pub decode_failures: u64,
    pub total_input_bytes: u64,
    pub total_encoded_bytes: u64,
}

/// A page kept in encoded form.
pub struct StoredPage {
    pub page_id: u64,
    pub class: CompressionClass,
    pub encoded: Vec<u8>,
}

/// An in-memory store of compressed pages, keyed by page id.
pub struct CompressionStore {
    pub initialized: bool,
    pub pages: Vec<StoredPage>,
    pub counters: StoreCounters,
}

pub open spec fn sat_inc(v: u64) -> u64 {
    if v == u64::MAX { v } else { (v + 1) as u64 }
}

pub open spec fn sat_add(a: u64, b: u64) -> u64 {
    if a + b > u64::MAX { u64::MAX } else { (a + b) as u64 }
}

/// Index of the stored page with id `id` at or after `i`, or the number of pages.
pub open spec fn index_of(ps: Seq<StoredPage>, id: u64, i: int) -> int
    decreases ps.len() - i,
{
    if i < 0 || i >= ps.len() {
        ps.len() as int
    } else if ps[i].page_id == id {
        i
    } else {
        index_of(ps, id, i + 1)
    }
}

proof fn lemma_index_of(ps: Seq<StoredPage>, id: u64, i: int)
    requires
        0 <= i <= ps.len(),
    ensures
        i <= index_of(ps, id, i) <= ps.len(),
        index_of(ps, id, i) < ps.len() ==> ps[index_of(ps, id, i)].page_id == id,
        index_of(ps, id, i) == ps.len() ==> forall|k: int| i <= k < ps.len() ==> #[trigger] ps[k].page_id != id,
    decreases ps.len() - i,
{
    if i < ps.len() && ps[i].page_id != id {
        lemma_index_of(ps, id, i + 1);
    }
}

/// The page a stored entry decodes to.
pub open spec fn decoded(p: StoredPage) -> Seq<u8> {
    spec_decode_page(p.encoded@)->Ok_0.1
}

/// The pages the store holds, by id.
pub open spec fn contents_of(ps: Seq<StoredPage>) -> Map<u64, Seq<u8>> {
    Map::new(|id: u64| index_of(ps, id, 0) < ps.len(), |id: u64| decoded(ps[index_of(ps, id, 0)]))
}

/// The entry decodes to a whole page of its class.
pub open spec fn entry_ok(p: StoredPage) -> bool {
    spec_decode_page(p.encoded@) matches Ok(r) && r.0 == p.class && r.1.len() == PAGE_BYTES
}

impl CompressionStore {
    /// Ids are unique, every entry decodes to a page of its class, and there is room for the capacity.
    pub open spec fn wf(&self) -> bool {
        &&& self.pages@.len() <= STORE_CAPACITY_PAGES
        &&& forall|i: int, j: int| 0 <= i < j < self.pages@.len() ==> #[trigger] self.pages@[i].page_id != #[trigger] self.pages@[j].page_id
        &&& forall|i: int| 0 <= i < self.pages@.len() ==> entry_ok(#[trigger] self.pages@[i])
    }

    /// The pages the store holds, by id.
    pub open spec fn contents(&self) -> Map<u64, Seq<u8>> {
        contents_of(self.pages@)
    }

    /// A store that holds nothing and is not started.
    pub fn new() -> (s: Self)
        ensures
            s.wf(),
            !s.initialized,
            s.pages@.len() == 0,
    {
        CompressionStore {
            initialized: false,
            pages: Vec::new(),
            counters: StoreCounters {
                store_requests: 0,
                store_successes: 0,
                load_requests: 0,
                load_successes: 0,
                load_misses: 0,
                replacements: 0,
                evictions: 0,
                encode_failures: 0,
                decode_failures: 0,
                total_input_bytes: 0,
                total_encoded_bytes: 0,
            },
        }
    }

    /// Starts the store.
    pub fn initialize(&mut self) -> (summary: StoreSummary)
        requires
            old(self).wf(),
        ensures
            final(self).wf(),
            final(self).initialized,
            final(self).pages@ == old(self).pages@,
            summary.capacity_pages == STORE_CAPACITY_PAGES,
    {
        self.initialized = true;
        StoreSummary { capacity_pages: STORE_CAPACITY_PAGES }
    }

    /// Whether the store is started.
    pub fn is_initialized(&self) -> (b: bool)
        ensures
            b == self.initialized,
    {
        self.initialized
    }

    fn find(&self, page_id: u64) -> (k: Option<usize>)
        ensures
            match k {
                Some(i) => i == index_of(self.pages@, page_id, 0) && i < self.pages@.len(),
                None => index_of(self.pages@, page_id, 0) == self.pages@.len(),
            },
    {
        proof {
            lemma_index_of(self.pages@, page_id, 0);
        }
        let mut i: usize = 0;
        while i < self.pages.len()
            invariant
                i <= self.pages@.len(),
                index_of(self.pages@, page_id, 0) == index_of(self.pages@, page_id, i as int),
            decreases self.pages@.len() - i,
        {
            if self.pages[i].page_id == page_id {
                return Some(i);
            }
            i = i + 1;
        }
        None
    }
}

} // verus!

verus! {

proof fn lemma_index_of_at(ps: Seq<StoredPage>, id: u64, j: int, i: int)
    requires
        0 <= i <= j < ps.len(),
        ps[j].page_id == id,
        forall|k: int| 0 <= k < j ==> #[trigger] ps[k].page_id != id,
    ensures
        index_of(ps, id, i) == j,
    decreases j - i,
{
    if i < j {
        lemma_index_of_at(ps, id, j, i + 1);
    }
}

proof fn lemma_index_of_absent(ps: Seq<StoredPage>, id: u64, i: int)
    requires
        0 <= i <= ps.len(),
        forall|k: int| 0 <= k < ps.len() ==> #[trigger] ps[k].page_id != id,
    ensures
        index_of(ps, id, i) == ps.len(),
    decreases ps.len() - i,
{
    if i < ps.len() {
        lemma_index_of_absent(ps, id, i + 1);
    }
}

/// Ids are unique and every entry decodes to a whole page of its class.
pub open spec fn pages_wf(ps: Seq<StoredPage>) -> bool {
    &&& forall|i: int, j: int| 0 <= i < j < ps.len() ==> #[trigger] ps[i].page_id != #[trigger] ps[j].page_id
    &&& forall|i: int| 0 <= i < ps.len() ==> entry_ok(#[trigger] ps[i])
}

proof fn lemma_contents_same_index(ps: Seq<StoredPage>, qs: Seq<StoredPage>, id: u64, j: int, jq: int)
    requires
        0 <= j < ps.len(),
        0 <= jq < qs.len(),
        qs[jq] == ps[j],
        ps[j].page_id == id,
        forall|m: int| 0 <= m < j ==> #[trigger] ps[m].page_id != id,
        forall|m: int| 0 <= m < jq ==> #[trigger] qs[m].page_id != id,
    ensures
        contents_of(qs).dom().contains(id) && contents_of(ps).dom().contains(id),
        contents_of(qs)[id] == contents_of(ps)[id],
{
    lemma_index_of_at(ps, id, j, 0);
    lemma_index_of_at(qs, id, jq, 0);
}

/// Replacing the entry at `k` by one with the same id.
proof fn lemma_replace(ps: Seq<StoredPage>, k: int, new: StoredPage)
    requires
        pages_wf(ps),
        0 <= k < ps.len(),
        ps[k].page_id == new.page_id,
        entry_ok(new),
    ensures
        pages_wf(ps.update(k, new)),
        contents_of(ps.update(k, new)) =~= contents_of(ps).insert(new.page_id, decoded(new)),
{
    let qs = ps.update(k, new);
    assert forall|i: int, j: int| 0 <= i < j < qs.len() implies #[trigger] qs[i].page_id != #[trigger] qs[j].page_id by {
        assert(ps[i].page_id != ps[j].page_id);
    }
    assert forall|i: int| 0 <= i < qs.len() implies entry_ok(#[trigger] qs[i]) by {
        if i != k {
            assert(entry_ok(ps[i]));
        }
    }
    assert forall|m: int| 0 <= m < k implies #[trigger] qs[m].page_id != new.page_id by {
        assert(ps[m].page_id != ps[k].page_id);
    }
    lemma_index_of_at(qs, new.page_id, k, 0);
    assert forall|id: u64| id != new.page_id implies (#[trigger] contents_of(qs).dom().contains(id) <==> contents_of(
        ps,
    ).dom().contains(id)) && (contents_of(qs).dom().contains(id) ==> contents_of(qs)[id] == contents_of(ps)[id]) by {
        lemma_index_of(ps, id, 0);
        let j = index_of(ps, id, 0);
        if j < ps.len() {
            assert forall|m: int| 0 <= m < j implies #[trigger] qs[m].page_id != id by {
                assert(qs[m].page_id == ps[m].page_id);
            }
            assert(qs[j] == ps[j]);
            lemma_contents_same_index(ps, qs, id, j, j);
        } else {
            assert forall|m: int| 0 <= m < qs.len() implies #[trigger] qs[m].page_id != id by {
                if m != k {
                    assert(qs[m] == ps[m]);
                }
            }
            lemma_index_of_absent(qs, id, 0);
        }
    }
}

/// Appending an entry whose id is new.
proof fn lemma_append(ps: Seq<StoredPage>, new: StoredPage)
    requires
        pages_wf(ps),
        forall|m: int| 0 <= m < ps.len() ==> #[trigger] ps[m].page_id != new.page_id,
        entry_ok(new),
    ensures
        pages_wf(ps.push(new)),
        contents_of(ps.push(new)) =~= contents_of(ps).insert(new.page_id, decoded(new)),
{
    let qs = ps.push(new);
    assert forall|i: int, j: int| 0 <= i < j < qs.len() implies #[trigger] qs[i].page_id != #[trigger] qs[j].page_id by {
        if j < ps.len() {
            assert(ps[i].page_id != ps[j].page_id);
        } else {
            assert(qs[i] == ps[i]);
        }
    }
    assert forall|i: int| 0 <= i < qs.len() implies entry_ok(#[trigger] qs[i]) by {
        if i < ps.len() {
            assert(qs[i] == ps[i]);
        }
    }
    assert forall|m: int| 0 <= m < ps.len() implies #[trigger] qs[m].page_id != new.page_id by {
        assert(qs[m] == ps[m]);
    }
    lemma_index_of_at(qs, new.page_id, ps.len() as int, 0);
    assert forall|id: u64| id != new.page_id implies (#[trigger] contents_of(qs).dom().contains(id) <==> contents_of(
        ps,
    ).dom().contains(id)) && (contents_of(qs).dom().contains(id) ==> contents_of(qs)[id] == contents_of(ps)[id]) by {
        lemma_index_of(ps, id, 0);
        let j = index_of(ps, id, 0);
        if j < ps.len() {
            assert forall|m: int| 0 <= m < j implies #[trigger] qs[m].page_id != id by {
                assert(qs[m] == ps[m]);
            }
            assert(qs[j] == ps[j]);
            lemma_contents_same_index(ps, qs, id, j, j);
        } else {
            assert forall|m: int| 0 <= m < qs.len() implies #[trigger] qs[m].page_id != id by {
                if m < ps.len() {
                    assert(qs[m] == ps[m]);
                }
            }
            lemma_index_of_absent(qs, id, 0);
        }
    }
}

/// Dropping the oldest entry.
proof fn lemma_evict(ps: Seq<StoredPage>)
    requires
        pages_wf(ps),
        ps.len() > 0,
    ensures
        pages_wf(ps.remove(0)),
        contents_of(ps.remove(0)) =~= contents_of(ps).remove(ps[0].page_id),
        forall|m: int| 0 <= m < ps.remove(0).len() ==> #[trigger] ps.remove(0)[m] == ps[m + 1],
{
    let qs = ps.remove(0);
    assert forall|i: int, j: int| 0 <= i < j < qs.len() implies #[trigger] qs[i].page_id != #[trigger] qs[j].page_id by {
        assert(ps[i + 1].page_id != ps[j + 1].page_id);
    }
    assert forall|i: int| 0 <= i < qs.len() implies entry_ok(#[trigger] qs[i]) by {
        assert(entry_ok(ps[i + 1]));
    }
    let first = ps[0].page_id;
    assert forall|m: int| 0 <= m < qs.len() implies #[trigger] qs[m].page_id != first by {
        assert(ps[0].page_id != ps[m + 1].page_id);
    }
    lemma_index_of_absent(qs, first, 0);
    assert forall|id: u64| id != first implies (#[trigger] contents_of(qs).dom().contains(id) <==> contents_of(
        ps,
    ).dom().contains(id)) && (contents_of(qs).dom().contains(id) ==> contents_of(qs)[id] == contents_of(ps)[id]) by {
        lemma_index_of(ps, id, 0);
        let j = index_of(ps, id, 0);
        if j < ps.len() {
            assert(j >= 1);
            assert forall|m: int| 0 <= m < j - 1 implies #[trigger] qs[m].page_id != id by {
                assert(qs[m] == ps[m + 1]);
            }
            assert(qs[j - 1] == ps[j]);
            lemma_contents_same_index(ps, qs, id, j, j - 1);
        } else {
            assert forall|m: int| 0 <= m < qs.len() implies #[trigger] qs[m].page_id != id by {
                assert(qs[m] == ps[m + 1]);
            }
            lemma_index_of_absent(qs, id, 0);
        }
    }
}

impl CompressionStore {
    /// Encodes `page` and keeps it under `page_id`, replacing an earlier page with that id;
    /// when the store is full the oldest page makes room.
    pub fn store_page(&mut self, page_id: u64, page: &[u8; PAGE_BYTES]) -> (result: Result<StoreEntry, StoreError>)
        requires
            old(self).wf(),
        ensures
            final(self).wf(),
            final(self).initialized == old(self).initialized,
            !old(self).initialized ==> result == Err::<StoreEntry, StoreError>(StoreError::NotInitialized)
                && final(self).pages@ == old(self).pages@ && final(self).counters == old(self).counters,
            old(self).initialized ==> {
                let ps = old(self).pages@;
                let k = index_of(ps, page_id, 0);
                &&& result == Ok::<StoreEntry, StoreError>(
                    StoreEntry {
                        page_id,
                        class: spec_classify(page@),
                        encoded_bytes: spec_encode_page(page@).len() as usize,
                    },
                )
                &&& final(self).contents() == if k < ps.len() || ps.len() < STORE_CAPACITY_PAGES {
                    old(self).contents().insert(page_id, page@)
                } else {
                    old(self).contents().remove(ps[0].page_id).insert(page_id, page@)
                }
            },
    {
        if !self.initialized {
            return Err(StoreError::NotInitialized);
        }
        let ghost ps = self.pages@;
        proof {
            lemma_index_of(ps, page_id, 0);
            lemma_encode_decode_roundtrip(page@);
            crate::compress::codec::lemma_encoded_len(page@);
            assert(pages_wf(ps));
        }
        self.counters.store_requests = self.counters.store_requests.saturating_add(1);
        let mut scratch: Vec<u8> = vec![0u8; HEADER_BYTES + PAGE_BYTES];
        let encoded_page = match encode_page(page, scratch.as_mut_slice()) {
            Ok(e) => e,
            Err(e) => {
                self.counters.encode_failures = self.counters.encode_failures.saturating_add(1);
                return Err(StoreError::Codec(e));
            },
        };
        let encoded = vstd::slice::slice_to_vec(&scratch.as_slice()[0..encoded_page.len]);
        proof {
            assert(encoded@ =~= spec_encode_page(page@));
        }
        let encoded_len = encoded.len();
        let class = encoded_page.class;
        let stored = StoredPage { page_id, class, encoded };
        proof {
            assert(entry_ok(stored));
            assert(decoded(stored) == page@);
        }
        match self.find(page_id) {
            Some(k) => {
                proof {
                    lemma_replace(ps, k as int, stored);
                }
                self.pages.set(k, stored);
                self.counters.replacements = self.counters.replacements.saturating_add(1);
            },
            None => {
                if self.pages.len() >= STORE_CAPACITY_PAGES {
                    proof {
                        lemma_evict(ps);
                    }
                    self.pages.remove(0);
                    self.counters.evictions = self.counters.evictions.saturating_add(1);
                }
                proof {
                    let rs = self.pages@;
                    assert forall|m: int| 0 <= m < rs.len() implies #[trigger] rs[m].page_id != page_id by {
                        if ps.len() >= STORE_CAPACITY_PAGES {
                            assert(rs[m] == ps[m + 1]);
                        } else {
                            assert(rs[m] == ps[m]);
                        }
                    }
                    lemma_append(rs, stored);
                }
                self.pages.push(stored);
            },
        }
        self.counters.store_successes = self.counters.store_successes.saturating_add(1);
        self.counters.total_input_bytes = self.counters.total_input_bytes.saturating_add(PAGE_BYTES as u64);
        self.counters.total_encoded_bytes = self.counters.total_encoded_bytes.saturating_add(encoded_len as u64);
        Ok(StoreEntry { page_id, class, encoded_bytes: encoded_len })
    }

    /// Decodes the page kept under `page_id` into `out`.
    pub fn load_page(&mut self, page_id: u64, out: &mut [u8; PAGE_BYTES]) -> (result: Result<StoreEntry, StoreError>)
        requires
            old(self).wf(),
        ensures
            final(self).wf(),
            final(self).initialized == old(self).initialized,
            final(self).pages@ == old(self).pages@,
            !old(self).initialized ==> result == Err::<StoreEntry, StoreError>(StoreError::NotInitialized)
                && final(out)@ == old(out)@,
            old(self).initialized && !old(self).contents().dom().contains(page_id) ==> result == Err::<
                StoreEntry,
                StoreError,
            >(StoreError::NotFound) && final(out)@ == old(out)@,
            old(self).initialized && old(self).contents().dom().contains(page_id) ==> {
                let e = old(self).pages@[index_of(old(self).pages@, page_id, 0)];
                &&& result == Ok::<StoreEntry, StoreError>(
                    StoreEntry { page_id, class: e.class, encoded_bytes: e.encoded@.len() as usize },
                )
                &&& final(out)@ == old(self).contents()[page_id]
            },
    {
        if !self.initialized {
            return Err(StoreError::NotInitialized);
        }
        self.counters.load_requests = self.counters.load_requests.saturating_add(1);
        let k = match self.find(page_id) {
            Some(k) => k,
            None => {
                self.counters.load_misses = self.counters.load_misses.saturating_add(1);
                return Err(StoreError::NotFound);
            },
        };
        proof {
            assert(entry_ok(self.pages@[k as int]));
        }
        let class = match decode_page(self.pages[k].encoded.as_slice(), out) {
            Ok(c) => c,
            Err(e) => {
                self.counters.decode_failures = self.counters.decode_failures.saturating_add(1);
                return Err(StoreError::Codec(e));
            },
        };
        self.counters.load_successes = self.counters.load_successes.saturating_add(1);
        Ok(StoreEntry { page_id, class, encoded_bytes: self.pages[k].encoded.len() })
    }

    /// Capacity of the store.
    pub fn summary(&self) -> (s: StoreSummary)
        ensures
            s.capacity_pages == STORE_CAPACITY_PAGES,
    {
        StoreSummary { capacity_pages: STORE_CAPACITY_PAGES }
    }
}

/// A page stored under an id is what loading that id gives back, until another
/// page takes the id or the store evicts it.
pub proof fn lemma_load_after_store(before: Map<u64, Seq<u8>>, after: Map<u64, Seq<u8>>, id: u64, page: Seq<u8>, evicted: Option<u64>)
    requires
        after == match evicted {
            None => before.insert(id, page),
            Some(old_id) => before.remove(old_id).insert(id, page),
        },
    ensures
        after.dom().contains(id),
        after[id] == page,
{
}

} // verus!
