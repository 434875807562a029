use vstd::prelude::*;

verus! {

/// One record of a per-process table: the value a process keeps under a slot.
#[derive(Copy, Clone)]
pub struct Entry<V> {
    pub process_id: u64,
    pub slot: u32,
    pub value: V,
}

/// Values kept per process and slot; a lookup finds the first record with both keys.
pub struct Table<V> {
    pub entries: Vec<Entry<V>>,
}

/// Index of the first record of `es` from `i` on with keys `pid` and `slot`, or the length of `es`.
pub open spec fn find_from<V>(es: Seq<Entry<V>>, pid: u64, slot: u32, i: int) -> int
    decreases es.len() - i,
{
    if i < 0 || i >= es.len() {
        es.len() as int
    } else if es[i].process_id == pid && es[i].slot == slot {
        i
    } else {
        find_from(es, pid, slot, i + 1)
    }
}

/// The value kept under `pid` and `slot`, if any.
pub open spec fn lookup<V>(es: Seq<Entry<V>>, pid: u64, slot: u32) -> Option<V> {
    let k = find_from(es, pid, slot, 0);
    if 0 <= k < es.len() {
        Some(es[k].value)
    } else {
        None
    }
}

/// The records once `v` is kept under `pid` and `slot`: the first such record is
/// overwritten, or a new record is appended.
pub open spec fn store<V>(es: Seq<Entry<V>>, pid: u64, slot: u32, v: V) -> Seq<Entry<V>> {
    let k = find_from(es, pid, slot, 0);
    if 0 <= k < es.len() {
        es.update(k, Entry { process_id: pid, slot, value: v })
    } else {
        es.push(Entry { process_id: pid, slot, value: v })
    }
}

/// The records of every process but `pid`, in order.
pub open spec fn without<V>(es: Seq<Entry<V>>, pid: u64) -> Seq<Entry<V>>
    decreases es.len(),
{
    if es.len() == 0 {
        Seq::empty()
    } else if es.last().process_id == pid {
        without(es.drop_last(), pid)
    } else {
        without(es.drop_last(), pid).push(es.last())
    }
}

pub proof fn lemma_find_from_bounds<V>(es: Seq<Entry<V>>, pid: u64, slot: u32, i: int)
    requires
        0 <= i <= es.len(),
    ensures
        i <= find_from(es, pid, slot, i) <= es.len(),
        find_from(es, pid, slot, i) < es.len() ==> es[find_from(es, pid, slot, i)].process_id == pid
            && es[find_from(es, pid, slot, i)].slot == slot,
        forall|j: int| i <= j < find_from(es, pid, slot, i) ==> !(#[trigger] es[j].process_id == pid && es[j].slot == slot),
    decreases es.len() - i,
{
    if i < es.len() && !(es[i].process_id == pid && es[i].slot == slot) {
        lemma_find_from_bounds(es, pid, slot, i + 1);
    }
}

/// Keys that no record before `k` holds determine the first match.
proof fn lemma_find_is_first<V>(es: Seq<Entry<V>>, pid: u64, slot: u32, k: int)
    requires
        0 <= k <= es.len(),
        k < es.len() ==> es[k].process_id == pid && es[k].slot == slot,
        forall|j: int| 0 <= j < k ==> !(#[trigger] es[j].process_id == pid && es[j].slot == slot),
    ensures
        find_from(es, pid, slot, 0) == k,
{
    lemma_find_from_bounds(es, pid, slot, 0);
    let f = find_from(es, pid, slot, 0);
    if f < k {
        assert(!(es[f].process_id == pid && es[f].slot == slot));
    } else if f > k {
        assert(k < es.len());
        assert(!(es[k].process_id == pid && es[k].slot == slot));
    }
}

/// A lookup of the keys just stored finds the stored value.
pub proof fn lemma_lookup_after_store<V>(es: Seq<Entry<V>>, pid: u64, slot: u32, v: V)
    ensures
        lookup(store(es, pid, slot, v), pid, slot) == Some(v),
{
    lemma_find_from_bounds(es, pid, slot, 0);
    let k = find_from(es, pid, slot, 0);
    let s = store(es, pid, slot, v);
    assert forall|j: int| 0 <= j < k implies !(#[trigger] s[j].process_id == pid && s[j].slot == slot) by {
        assert(s[j] == es[j]);
    }
    lemma_find_is_first(s, pid, slot, k);
}

/// Storing under some keys leaves the lookup of other keys unchanged.
pub proof fn lemma_lookup_after_store_other<V>(es: Seq<Entry<V>>, pid: u64, slot: u32, v: V, pid2: u64, slot2: u32)
    requires
        pid != pid2 || slot != slot2,
    ensures
        lookup(store(es, pid, slot, v), pid2, slot2) == lookup(es, pid2, slot2),
{
    lemma_find_from_bounds(es, pid, slot, 0);
    lemma_find_from_bounds(es, pid2, slot2, 0);
    let k = find_from(es, pid, slot, 0);
    let k2 = find_from(es, pid2, slot2, 0);
    let s = store(es, pid, slot, v);
    assert forall|j: int| 0 <= j < k2 && j < s.len() implies !(#[trigger] s[j].process_id == pid2 && s[j].slot == slot2) by {
        if j == k {
        } else {
            assert(s[j] == es[j]);
        }
    }
    if k2 < es.len() {
        assert(s[k2] == es[k2]);
        lemma_find_is_first(s, pid2, slot2, k2);
    } else {
        assert forall|j: int| 0 <= j < s.len() implies !(#[trigger] s[j].process_id == pid2 && s[j].slot == slot2) by {
            if j < es.len() && j != k {
                assert(s[j] == es[j]);
            }
        }
        lemma_find_is_first(s, pid2, slot2, s.len() as int);
    }
}

proof fn lemma_without_has_none<V>(es: Seq<Entry<V>>, pid: u64)
    ensures
        forall|j: int| 0 <= j < without(es, pid).len() ==> (#[trigger] without(es, pid)[j]).process_id != pid,
        without(es, pid).len() <= es.len(),
    decreases es.len(),
{
    if es.len() > 0 {
        lemma_without_has_none(es.drop_last(), pid);
        let w = without(es.drop_last(), pid);
        if es.last().process_id != pid {
            assert forall|j: int| 0 <= j < w.push(es.last()).len() implies (#[trigger] w.push(es.last())[j]).process_id != pid by {
                if j < w.len() {
                    assert(w.push(es.last())[j] == w[j]);
                }
            }
        }
    }
}

/// Once a process's records are purged, no lookup for it finds anything.
pub proof fn lemma_lookup_after_purge<V>(es: Seq<Entry<V>>, pid: u64, slot: u32)
    ensures
        lookup(without(es, pid), pid, slot) is None,
{
    lemma_without_has_none(es, pid);
    let w = without(es, pid);
    lemma_find_from_bounds(w, pid, slot, 0);
    let k = find_from(w, pid, slot, 0);
    if k < w.len() {
        assert(w[k].process_id != pid);
    }
}

impl<V: Copy> Table<V> {
    pub fn new() -> (t: Self)
        ensures
            t.entries@.len() == 0,
    {
        Table { entries: Vec::new() }
    }

    fn position(&self, pid: u64, slot: u32) -> (k: usize)
        ensures
            k == find_from(self.entries@, pid, slot, 0),
            k <= self.entries@.len(),
    {
        proof {
            lemma_find_from_bounds(self.entries@, pid, slot, 0);
        }
        let mut i: usize = 0;
        while i < self.entries.len()
            invariant
                i <= self.entries@.len(),
                find_from(self.entries@, pid, slot, 0) == find_from(self.entries@, pid, slot, i as int),
            decreases self.entries@.len() - i,
        {
            if self.entries[i].process_id == pid && self.entries[i].slot == slot {
                return i;
            }
            i = i + 1;
        }
        i
    }

    /// The value kept under `pid` and `slot`.
    pub fn get(&self, pid: u64, slot: u32) -> (r: Option<V>)
        ensures
            r == lookup(self.entries@, pid, slot),
    {
        let k = self.position(pid, slot);
        if k < self.entries.len() {
            Some(self.entries[k].value)
        } else {
            None
        }
    }

    /// Keeps `v` under `pid` and `slot`.
    pub fn set(&mut self, pid: u64, slot: u32, v: V)
        ensures
            final(self).entries@ == store(old(self).entries@, pid, slot, v),
    {
        let k = self.position(pid, slot);
        let e = Entry { process_id: pid, slot, value: v };
        if k < self.entries.len() {
            self.entries.set(k, e);
        } else {
            self.entries.push(e);
        }
    }

    /// The value kept under `pid` and `slot`; when there is none, `default` is kept and returned.
    pub fn get_or_insert(&mut self, pid: u64, slot: u32, default: V) -> (r: V)
        ensures
            match lookup(old(self).entries@, pid, slot) {
                Some(v) => r == v && final(self).entries@ == old(self).entries@,
                None => r == default && final(self).entries@ == store(old(self).entries@, pid, slot, default),
            },
    {
        match self.get(pid, slot) {
            Some(v) => v,
            None => {
                self.set(pid, slot, default);
                default
            },
        }
    }

    /// Drops every record of `pid`.
    pub fn purge(&mut self, pid: u64)
        ensures
            final(self).entries@ == without(old(self).entries@, pid),
    {
        let mut kept: Vec<Entry<V>> = Vec::new();
        let mut i: usize = 0;
        while i < self.entries.len()
            invariant
                i <= self.entries@.len(),
                self.entries@ == old(self).entries@,
                kept@ == without(self.entries@.take(i as int), pid),
            decreases self.entries@.len() - i,
        {
            let e = self.entries[i];
            proof {
                assert(self.entries@.take(i + 1).drop_last() =~= self.entries@.take(i as int));
            }
            if e.process_id != pid {
                kept.push(e);
            }
            i = i + 1;
        }
        assert(self.entries@.take(self.entries@.len() as int) =~= self.entries@);
        self.entries = kept;
    }
}

} // verus!
