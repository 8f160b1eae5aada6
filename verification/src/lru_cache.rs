//! Size-bounded LRU cache of object-storage files (keyed by path), with
//! hit, miss and eviction counters.

use vstd::prelude::*;

verus! {

/// Hit, miss and eviction counters of an object cache.  Counters wrap
/// around on overflow, as atomic counters do.
#[derive(Debug, Clone, Copy, PartialEq, Eq, Structural)]
pub struct ObjectCacheStats {
    pub hit_count: u64,
    pub miss_count: u64,
    pub eviction_count: u64,
}

impl ObjectCacheStats {
    /// All counters at zero.
    pub fn new() -> (r: Self)
        ensures
            r.hit_count == 0 && r.miss_count == 0 && r.eviction_count == 0,
    {
        ObjectCacheStats { hit_count: 0, miss_count: 0, eviction_count: 0 }
    }

    /// Count a hit.
    pub fn hit(&mut self)
        ensures
            *final(self) == (ObjectCacheStats { hit_count: old(self).hit_count.wrapping_add(1), ..*old(self) }),
    {
        self.hit_count = self.hit_count.wrapping_add(1);
    }

    /// Count a miss.
    pub fn miss(&mut self)
        ensures
            *final(self) == (ObjectCacheStats { miss_count: old(self).miss_count.wrapping_add(1), ..*old(self) }),
    {
        self.miss_count = self.miss_count.wrapping_add(1);
    }

    /// Count an eviction.
    pub fn evict(&mut self)
        ensures
            *final(self) == (ObjectCacheStats {
                eviction_count: old(self).eviction_count.wrapping_add(1),
                ..*old(self)
            }),
    {
        self.eviction_count = self.eviction_count.wrapping_add(1);
    }

    pub fn hits(&self) -> (r: u64)
        ensures
            r == self.hit_count,
    {
        self.hit_count
    }

    pub fn misses(&self) -> (r: u64)
        ensures
            r == self.miss_count,
    {
        self.miss_count
    }

    pub fn evictions(&self) -> (r: u64)
        ensures
            r == self.eviction_count,
    {
        self.eviction_count
    }

    /// Hits plus misses (wrapping).
    pub fn total_requests(&self) -> (r: u64)
        ensures
            r == self.hit_count.wrapping_add(self.miss_count),
    {
        self.hit_count.wrapping_add(self.miss_count)
    }
}

/// A cached file: its path, size in bytes and last access stamp.
#[derive(Debug)]
pub struct LruEntry {
    pub key: String,
    pub size: u64,
    pub last_accessed: u64,
}

/// Plain view of an entry.
pub open spec fn entry_view(e: LruEntry) -> (Seq<char>, u64, u64) {
    (e.key@, e.size, e.last_accessed)
}

pub open spec fn entries_view(v: Seq<LruEntry>) -> Seq<(Seq<char>, u64, u64)> {
    v.map_values(|e: LruEntry| entry_view(e))
}

/// Total size of the entries.
pub open spec fn total_size(es: Seq<(Seq<char>, u64, u64)>) -> nat
    decreases es.len(),
{
    if es.len() == 0 {
        0
    } else {
        total_size(es.drop_last()) + es.last().1 as nat
    }
}

/// The entries hold pairwise different keys.
pub open spec fn distinct_keys(es: Seq<(Seq<char>, u64, u64)>) -> bool {
    forall|a: int, b: int| 0 <= a < es.len() && 0 <= b < es.len() && a != b ==> es[a].0 != es[b].0
}

pub open spec fn has_key(es: Seq<(Seq<char>, u64, u64)>, k: Seq<char>) -> bool {
    exists|i: int| 0 <= i < es.len() && es[i].0 == k
}

/// Index of the least recently used entry: the first one with the smallest
/// access stamp.
pub open spec fn lru_index(es: Seq<(Seq<char>, u64, u64)>) -> int
    decreases es.len(),
{
    if es.len() <= 1 {
        0
    } else {
        let i = lru_index(es.drop_last());
        if es.last().2 < es[i].2 {
            es.len() - 1
        } else {
            i
        }
    }
}

/// Evict least recently used entries until `size` more bytes fit under
/// `max` (or nothing is left): the remaining entries and the evicted keys
/// in eviction order.
pub open spec fn evict_for(es: Seq<(Seq<char>, u64, u64)>, size: u64, max: u64) -> (
    Seq<(Seq<char>, u64, u64)>,
    Seq<Seq<char>>,
)
    decreases es.len(),
{
    if total_size(es) + size > max && es.len() > 0 {
        proof {
            lemma_lru_index_bound(es);
        }
        let i = lru_index(es);
        let (rest, ev) = evict_for(es.remove(i), size, max);
        (rest, seq![es[i].0].add(ev))
    } else {
        (es, Seq::empty())
    }
}

/// LRU cache of object-storage files with a byte budget.
///
/// The entries are kept as a vector with distinct paths: vstd specifies `HashMap` only for keys it knows to hash and
/// compare faithfully (integers and the like), not for `String`, so a
/// `HashMap<String, _>` would leave these contracts unprovable.
pub struct LruCache {
    entries: Vec<LruEntry>,
    max_size_bytes: u64,
    current_size_bytes: u64,
    access_counter: u64,
    stats: ObjectCacheStats,
}

impl LruCache {
    /// The cached entries (path, size, access stamp).
    pub closed spec fn model(&self) -> Seq<(Seq<char>, u64, u64)> {
        entries_view(self.entries@)
    }

    pub closed spec fn max_bytes(&self) -> u64 {
        self.max_size_bytes
    }

    pub closed spec fn counter(&self) -> u64 {
        self.access_counter
    }

    pub closed spec fn stat_counts(&self) -> ObjectCacheStats {
        self.stats
    }

    /// Keys are distinct, the size counter is the sum of the entry sizes,
    /// and it stays within the budget.
    pub closed spec fn wf(&self) -> bool {
        &&& distinct_keys(self.model())
        &&& self.current_size_bytes == total_size(self.model())
        &&& self.current_size_bytes <= self.max_size_bytes
    }

    /// An empty cache of `max_size_mb` mebibytes.
    pub fn new(max_size_mb: usize) -> (r: Self)
        requires
            max_size_mb * 1024 * 1024 <= u64::MAX,
        ensures
            r.wf(),
            r.model() == Seq::<(Seq<char>, u64, u64)>::empty(),
            r.max_bytes() == max_size_mb * 1024 * 1024,
            r.counter() == 0,
            r.stat_counts() == (ObjectCacheStats { hit_count: 0, miss_count: 0, eviction_count: 0 }),
    {
        let r = LruCache {
            entries: Vec::new(),
            max_size_bytes: (max_size_mb as u64) * 1024 * 1024,
            current_size_bytes: 0,
            access_counter: 0,
            stats: ObjectCacheStats::new(),
        };
        assert(r.model() =~= Seq::<(Seq<char>, u64, u64)>::empty());
        r
    }

    /// A copy of the counters.
    pub fn stats(&self) -> (r: ObjectCacheStats)
        ensures
            r == self.stat_counts(),
    {
        self.stats
    }

    fn find(&self, key: &String) -> (r: Option<usize>)
        ensures
            match r {
                Some(i) => i < self.model().len() && self.model()[i as int].0 == key@,
                None => !has_key(self.model(), key@),
            },
    {
        let mut i: usize = 0;
        while i < self.entries.len()
            invariant
                i <= self.entries.len(),
                forall|k: int| 0 <= k < i ==> self.model()[k].0 != key@,
            decreases self.entries.len() - i,
        {
            if self.entries[i].key == *key {
                return Some(i);
            }
            i = i + 1;
        }
        None
    }

    /// Look up a file, refreshing its access stamp; counts a hit or a miss.
    pub fn get(&mut self, key: &String) -> (r: Option<LruEntry>)
        requires
            old(self).wf(),
        ensures
            final(self).wf(),
            final(self).max_bytes() == old(self).max_bytes(),
            final(self).counter() == (if r is Some {
                old(self).counter().wrapping_add(1)
            } else {
                old(self).counter()
            }),
            match r {
                Some(e) => {
                    &&& has_key(old(self).model(), key@)
                    &&& exists|i: int|
                        0 <= i < old(self).model().len() && old(self).model()[i].0 == key@
                            && final(self).model() == old(self).model().update(
                            i,
                            (key@, old(self).model()[i].1, old(self).counter()),
                        ) && entry_view(e) == (key@, old(self).model()[i].1, old(self).counter())
                    &&& final(self).stat_counts() == (ObjectCacheStats {
                        hit_count: old(self).stat_counts().hit_count.wrapping_add(1),
                        ..old(self).stat_counts()
                    })
                },
                None => {
                    &&& !has_key(old(self).model(), key@)
                    &&& final(self).model() == old(self).model()
                    &&& final(self).stat_counts() == (ObjectCacheStats {
                        miss_count: old(self).stat_counts().miss_count.wrapping_add(1),
                        ..old(self).stat_counts()
                    })
                },
            },
    {
        match self.find(key) {
            Some(i) => {
                self.stats.hit();
                let access = self.access_counter;
                self.access_counter = self.access_counter.wrapping_add(1);
                let size = self.entries[i].size;
                let ghost before = self.model();
                let k = self.entries[i].key.clone();
                let k2 = self.entries[i].key.clone();
                self.entries.set(i, LruEntry { key: k, size, last_accessed: access });
                proof {
                    assert(self.model() =~= before.update(i as int, (key@, size, access)));
                    lemma_update_keeps(before, i as int, (key@, size, access));
                }
                Some(LruEntry { key: k2, size, last_accessed: access })
            },
            None => {
                self.stats.miss();
                None
            },
        }
    }

    fn lru_position(&self) -> (r: usize)
        requires
            self.entries.len() > 0,
        ensures
            r == lru_index(self.model()),
            r < self.entries.len(),
    {
        let ghost m = self.model();
        let mut best: usize = 0;
        let mut i: usize = 1;
        proof {
            assert(m.take(1).len() == 1);
        }
        while i < self.entries.len()
            invariant
                1 <= i <= self.entries.len(),
                m == self.model(),
                best < i,
                best == lru_index(m.take(i as int)),
            decreases self.entries.len() - i,
        {
            proof {
                let t = m.take(i + 1);
                assert(t.drop_last() =~= m.take(i as int));
                lemma_lru_index_bound(m.take(i as int));
                assert(t[best as int] == m[best as int]);
                assert(t.last() == m[i as int]);
            }
            if self.entries[i].last_accessed < self.entries[best].last_accessed {
                best = i;
            }
            i = i + 1;
        }
        proof {
            assert(m.take(self.entries.len() as int) =~= m);
        }
        best
    }

    /// Evict the least recently used file; its key, if there was one.
    fn evict_lru(&mut self) -> (r: Option<String>)
        requires
            old(self).wf(),
        ensures
            final(self).wf(),
            final(self).max_bytes() == old(self).max_bytes(),
            final(self).counter() == old(self).counter(),
            match r {
                Some(k) => {
                    &&& old(self).model().len() > 0
                    &&& k@ == old(self).model()[lru_index(old(self).model())].0
                    &&& final(self).model() == old(self).model().remove(lru_index(old(self).model()))
                    &&& final(self).stat_counts() == (ObjectCacheStats {
                        eviction_count: old(self).stat_counts().eviction_count.wrapping_add(1),
                        ..old(self).stat_counts()
                    })
                },
                None => old(self).model().len() == 0 && *final(self) == *old(self),
            },
    {
        if self.entries.len() == 0 {
            return None;
        }
        let i = self.lru_position();
        let ghost before = self.model();
        let e = self.entries.remove(i);
        proof {
            assert(self.model() =~= before.remove(i as int));
            lemma_total_size_remove(before, i as int);
            lemma_remove_keeps_distinct(before, i as int);
        }
        self.current_size_bytes = self.current_size_bytes - e.size;
        self.stats.evict();
        Some(e.key)
    }

    /// Insert a file of `size` bytes, evicting least recently used files
    /// until it fits; returns the last evicted key.  A key already cached
    /// is left as it is (and `None` returned); a file larger than what can
    /// be freed is not inserted.
    pub fn put(&mut self, key: String, size: u64) -> (r: Option<String>)
        requires
            old(self).wf(),
        ensures
            final(self).wf(),
            final(self).max_bytes() == old(self).max_bytes(),
            has_key(old(self).model(), key@) ==> r is None && *final(self) == *old(self),
            !has_key(old(self).model(), key@) ==> {
                let (rest, ev) = evict_for(old(self).model(), size, old(self).max_bytes());
                &&& (r matches Some(k) ==> ev.len() > 0 && k@ == ev.last())
                &&& (r is None ==> ev.len() == 0)
                &&& final(self).stat_counts().eviction_count == (old(self).stat_counts().eviction_count + ev.len()) % 0x1_0000_0000_0000_0000
                &&& final(self).stat_counts().hit_count == old(self).stat_counts().hit_count
                &&& final(self).stat_counts().miss_count == old(self).stat_counts().miss_count
                &&& if total_size(rest) + size > old(self).max_bytes() {
                    final(self).model() == rest && final(self).counter() == old(self).counter()
                } else {
                    final(self).model() == rest.push((key@, size, old(self).counter()))
                        && final(self).counter() == old(self).counter().wrapping_add(1)
                }
            },
    {
        if self.find(&key).is_some() {
            return None;
        }
        let ghost m0 = self.model();
        let ghost s0 = self.stats;
        let mut last_evicted: Option<String> = None;
        let ghost mut ev: Seq<Seq<char>> = Seq::empty();
        while (self.current_size_bytes as u128) + (size as u128) > self.max_size_bytes as u128
            invariant
                self.wf(),
                self.max_bytes() == old(self).max_bytes(),
                self.counter() == old(self).counter(),
                !has_key(m0, key@),
                m0 == old(self).model(),
                s0 == old(self).stat_counts(),
                !has_key(self.model(), key@),
                evict_for(m0, size, self.max_size_bytes) == ({
                    let (rest, ev2) = evict_for(self.model(), size, self.max_size_bytes);
                    (rest, ev.add(ev2))
                }),
                last_evicted matches Some(k) ==> ev.len() > 0 && k@ == ev.last(),
                last_evicted is None ==> ev.len() == 0,
                self.stats.eviction_count == (s0.eviction_count + ev.len()) % 0x1_0000_0000_0000_0000,
                self.stats.hit_count == s0.hit_count,
                self.stats.miss_count == s0.miss_count,
            ensures
                self.model().len() == 0 || total_size(self.model()) + size <= self.max_size_bytes,
            decreases self.entries.len(),
        {
            let ghost before = self.model();
            proof {
                lemma_lru_index_bound(before);
            }
            match self.evict_lru() {
                Some(k) => {
                    proof {
                        let i = lru_index(before);
                        let (rest2, ev2) = evict_for(self.model(), size, self.max_size_bytes);
                        assert(evict_for(before, size, self.max_size_bytes) == (rest2, seq![before[i].0].add(ev2)));
                        assert(ev.add(seq![before[i].0].add(ev2)) =~= ev.push(k@).add(ev2));
                        ev = ev.push(k@);
                        lemma_remove_keeps_missing(before, i, key@);
                    }
                    last_evicted = Some(k);
                },
                None => {
                    break;
                },
            }
        }
        proof {
            let (rest, ev2) = evict_for(self.model(), size, self.max_size_bytes);
            assert(ev2 =~= Seq::<Seq<char>>::empty());
            assert(ev.add(ev2) =~= ev);
        }
        if (self.current_size_bytes as u128) + (size as u128) > self.max_size_bytes as u128 {
            return last_evicted;
        }
        let access = self.access_counter;
        self.access_counter = self.access_counter.wrapping_add(1);
        let ghost before = self.model();
        self.entries.push(LruEntry { key, size, last_accessed: access });
        proof {
            assert(self.model() =~= before.push((key@, size, access)));
            assert(self.model().drop_last() =~= before);
            assert forall|a: int, b: int|
                0 <= a < self.model().len() && 0 <= b < self.model().len() && a != b implies self.model()[a].0
                != self.model()[b].0 by {
                if a < before.len() && b < before.len() {
                    assert(self.model()[a] == before[a] && self.model()[b] == before[b]);
                } else if a < before.len() {
                    assert(self.model()[a] == before[a]);
                } else {
                    assert(self.model()[b] == before[b]);
                }
            }
        }
        self.current_size_bytes = self.current_size_bytes + size;
        last_evicted
    }

    /// Remove a file; its size, if it was cached.
    pub fn remove(&mut self, key: &String) -> (r: Option<u64>)
        requires
            old(self).wf(),
        ensures
            final(self).wf(),
            final(self).max_bytes() == old(self).max_bytes(),
            final(self).counter() == old(self).counter(),
            final(self).stat_counts() == old(self).stat_counts(),
            match r {
                Some(sz) => exists|i: int|
                    0 <= i < old(self).model().len() && old(self).model()[i].0 == key@
                        && old(self).model()[i].1 == sz && final(self).model() == old(self).model().remove(i),
                None => !has_key(old(self).model(), key@) && final(self).model() == old(self).model(),
            },
    {
        match self.find(key) {
            None => None,
            Some(i) => {
                let ghost before = self.model();
                let e = self.entries.remove(i);
                proof {
                    assert(self.model() =~= before.remove(i as int));
                    lemma_total_size_remove(before, i as int);
                    lemma_remove_keeps_distinct(before, i as int);
                }
                self.current_size_bytes = self.current_size_bytes - e.size;
                Some(e.size)
            },
        }
    }

    /// Drop every entry (counters are kept).
    pub fn clear(&mut self)
        requires
            old(self).wf(),
        ensures
            final(self).wf(),
            final(self).model() == Seq::<(Seq<char>, u64, u64)>::empty(),
            final(self).max_bytes() == old(self).max_bytes(),
            final(self).counter() == old(self).counter(),
            final(self).stat_counts() == old(self).stat_counts(),
    {
        self.entries.clear();
        self.current_size_bytes = 0;
        assert(self.model() =~= Seq::<(Seq<char>, u64, u64)>::empty());
    }

    /// Bytes currently cached.
    pub fn size_bytes(&self) -> (r: u64)
        requires
            self.wf(),
        ensures
            r == total_size(self.model()),
    {
        self.current_size_bytes
    }

    /// Number of cached files.
    pub fn entry_count(&self) -> (r: usize)
        ensures
            r == self.model().len(),
    {
        self.entries.len()
    }

    /// The byte budget.
    pub fn max_size_bytes(&self) -> (r: u64)
        ensures
            r == self.max_bytes(),
    {
        self.max_size_bytes
    }
}

pub proof fn lemma_lru_index_bound(es: Seq<(Seq<char>, u64, u64)>)
    ensures
        es.len() > 0 ==> 0 <= lru_index(es) < es.len(),
        forall|j: int| 0 <= j < es.len() ==> es[lru_index(es)].2 <= #[trigger] es[j].2,
    decreases es.len(),
{
    if es.len() > 1 {
        let d = es.drop_last();
        lemma_lru_index_bound(d);
        let i = lru_index(d);
        assert(es[i] == d[i]);
        assert forall|j: int| 0 <= j < es.len() implies es[lru_index(es)].2 <= #[trigger] es[j].2 by {
            if j < d.len() {
                assert(es[j] == d[j]);
            }
        }
    }
}

/// The evicted entry is one with the oldest access stamp.
pub proof fn lemma_lru_is_oldest(es: Seq<(Seq<char>, u64, u64)>)
    requires
        es.len() > 0,
    ensures
        0 <= lru_index(es) < es.len(),
        forall|j: int| 0 <= j < es.len() ==> es[lru_index(es)].2 <= #[trigger] es[j].2,
{
    lemma_lru_index_bound(es);
}

proof fn lemma_total_size_remove(es: Seq<(Seq<char>, u64, u64)>, i: int)
    requires
        0 <= i < es.len(),
    ensures
        total_size(es.remove(i)) + es[i].1 == total_size(es),
    decreases es.len(),
{
    if i == es.len() - 1 {
        assert(es.remove(i) =~= es.drop_last());
    } else {
        let d = es.drop_last();
        lemma_total_size_remove(d, i);
        assert(es.remove(i).drop_last() =~= d.remove(i));
        assert(es.remove(i).last() == es.last());
        assert(d[i] == es[i]);
    }
}

proof fn lemma_remove_keeps_distinct(es: Seq<(Seq<char>, u64, u64)>, i: int)
    requires
        0 <= i < es.len(),
        distinct_keys(es),
    ensures
        distinct_keys(es.remove(i)),
{
    let r = es.remove(i);
    assert forall|a: int, b: int| 0 <= a < r.len() && 0 <= b < r.len() && a != b implies r[a].0 != r[b].0 by {
        let a2 = if a < i { a } else { a + 1 };
        let b2 = if b < i { b } else { b + 1 };
        assert(r[a] == es[a2]);
        assert(r[b] == es[b2]);
    }
}

proof fn lemma_remove_keeps_missing(es: Seq<(Seq<char>, u64, u64)>, i: int, k: Seq<char>)
    requires
        0 <= i < es.len(),
        !has_key(es, k),
    ensures
        !has_key(es.remove(i), k),
{
    let r = es.remove(i);
    if has_key(r, k) {
        let j = choose|j: int| 0 <= j < r.len() && r[j].0 == k;
        let j2 = if j < i { j } else { j + 1 };
        assert(r[j] == es[j2]);
    }
}

proof fn lemma_update_keeps(es: Seq<(Seq<char>, u64, u64)>, i: int, e: (Seq<char>, u64, u64))
    requires
        0 <= i < es.len(),
        e.0 == es[i].0,
        e.1 == es[i].1,
    ensures
        total_size(es.update(i, e)) == total_size(es),
        distinct_keys(es) ==> distinct_keys(es.update(i, e)),
    decreases es.len(),
{
    if i < es.len() - 1 {
        lemma_update_keeps(es.drop_last(), i, e);
        assert(es.update(i, e).drop_last() =~= es.drop_last().update(i, e));
    } else {
        assert(es.update(i, e).drop_last() =~= es.drop_last());
    }
    let u = es.update(i, e);
    assert forall|a: int, b: int| 0 <= a < u.len() && 0 <= b < u.len() && a != b && distinct_keys(es) implies u[a].0 != u[b].0 by {
        assert(u[a].0 == es[a].0);
        assert(u[b].0 == es[b].0);
    }
}

/// Law: a file no larger than the budget always fits once eviction is done,
/// so `put` of a new key of such a size leaves it cached (read after write).
pub proof fn lemma_put_fits(es: Seq<(Seq<char>, u64, u64)>, size: u64, max: u64)
    requires
        size <= max,
    ensures
        total_size(evict_for(es, size, max).0) + size <= max,
    decreases es.len(),
{
    if total_size(es) + size > max && es.len() > 0 {
        lemma_lru_index_bound(es);
        lemma_put_fits(es.remove(lru_index(es)), size, max);
    } else if es.len() == 0 {
        assert(total_size(es) == 0);
    }
}

/// Law: a cache holds no more bytes than its budget. `new` makes a
/// well-formed cache and every call keeps it so, so this holds after any
/// sequence of calls.
pub proof fn lemma_lru_within_budget(c: &LruCache)
    requires
        c.wf(),
    ensures
        total_size(c.model()) <= c.max_bytes(),
{
}

} // verus!
