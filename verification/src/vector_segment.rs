//! Vector segments and shards: which document lives under which vector key,
//! which keys are tombstoned, and which segment is open for writes.  The
//! nearest-neighbour index itself works on floats and stays outside; a
//! segment hands out the key a vector is stored under and turns the keys
//! that a search returns back into documents.

use crate::config::owned;
use crate::error::Error;
use crate::keyed::{keyed_map, lemma_keyed_at, lemma_keyed_len, lemma_keyed_push, lemma_keyed_remove, lemma_keyed_update, unique_keys};
use crate::textutil::{chars_of, decimal, decimal_chars, string_from_chars};
use crate::vector::Metric;
use roaring::RoaringBitmap;
use vstd::prelude::*;

verus! {

// ---------------------------------------------------------------------------
// The tombstone bitmap
// ---------------------------------------------------------------------------

#[verifier::external_type_specification]
#[verifier::external_body]
pub struct ExRoaringBitmap(RoaringBitmap);

/// The integers that a bitmap holds.
pub uninterp spec fn bitmap_contents(b: RoaringBitmap) -> Set<u32>;

/// `RoaringBitmap::new`. Claimed: the bitmap is empty.
#[verifier::external_body]
fn bitmap_new() -> (b: RoaringBitmap)
    ensures
        bitmap_contents(b) == Set::<u32>::empty(),
{
    RoaringBitmap::new()
}

/// `RoaringBitmap::insert`. Claimed: the value is added and the result says
/// whether it was absent before.
#[verifier::external_body]
fn bitmap_insert(b: &mut RoaringBitmap, value: u32) -> (r: bool)
    ensures
        bitmap_contents(*final(b)) == bitmap_contents(*old(b)).insert(value),
        r == !bitmap_contents(*old(b)).contains(value),
{
    b.insert(value)
}

/// `RoaringBitmap::contains`. Claimed: whether the value is held.
#[verifier::external_body]
fn bitmap_contains(b: &RoaringBitmap, value: u32) -> (r: bool)
    ensures
        r == bitmap_contents(*b).contains(value),
{
    b.contains(value)
}

/// `RoaringBitmap::len`. Claimed: the number of distinct values held.
#[verifier::external_body]
fn bitmap_len(b: &RoaringBitmap) -> (r: u64)
    ensures
        r == bitmap_contents(*b).len(),
{
    b.len()
}

// ---------------------------------------------------------------------------
// Maps kept as sequences of (key, value) pairs with distinct keys
// ---------------------------------------------------------------------------

pub open spec fn first_of<K, W>() -> spec_fn((K, W)) -> K {
    |p: (K, W)| p.0
}

/// A sequence of pairs with distinct first components, read as a map.
pub open spec fn pair_map<K, W>(s: Seq<(K, W)>) -> Map<K, W> {
    keyed_map(s, first_of::<K, W>()).map_values(|p: (K, W)| p.1)
}

proof fn lemma_pair_at<K, W>(s: Seq<(K, W)>, j: int)
    requires
        unique_keys(s, first_of::<K, W>()),
        0 <= j < s.len(),
    ensures
        pair_map(s).contains_key(s[j].0),
        pair_map(s)[s[j].0] == s[j].1,
{
    lemma_keyed_at(s, first_of::<K, W>(), j);
}

proof fn lemma_pair_push<K, W>(s: Seq<(K, W)>, p: (K, W))
    requires
        unique_keys(s, first_of::<K, W>()),
        !pair_map(s).contains_key(p.0),
    ensures
        unique_keys(s.push(p), first_of::<K, W>()),
        pair_map(s.push(p)) == pair_map(s).insert(p.0, p.1),
{
    lemma_keyed_push(s, first_of::<K, W>(), p);
    assert(pair_map(s.push(p)) =~= pair_map(s).insert(p.0, p.1));
}

proof fn lemma_pair_update<K, W>(s: Seq<(K, W)>, j: int, p: (K, W))
    requires
        unique_keys(s, first_of::<K, W>()),
        0 <= j < s.len(),
        p.0 == s[j].0,
    ensures
        unique_keys(s.update(j, p), first_of::<K, W>()),
        pair_map(s.update(j, p)) == pair_map(s).insert(p.0, p.1),
{
    lemma_keyed_update(s, first_of::<K, W>(), j, p);
    assert(pair_map(s.update(j, p)) =~= pair_map(s).insert(p.0, p.1));
}

proof fn lemma_pair_remove<K, W>(s: Seq<(K, W)>, j: int)
    requires
        unique_keys(s, first_of::<K, W>()),
        0 <= j < s.len(),
    ensures
        unique_keys(s.remove(j), first_of::<K, W>()),
        pair_map(s.remove(j)) == pair_map(s).remove(s[j].0),
{
    lemma_keyed_remove(s, first_of::<K, W>(), j);
    assert(pair_map(s.remove(j)) =~= pair_map(s).remove(s[j].0));
}

proof fn lemma_pair_len<K, W>(s: Seq<(K, W)>)
    requires
        unique_keys(s, first_of::<K, W>()),
    ensures
        pair_map(s).dom().finite(),
        pair_map(s).dom().len() == s.len(),
{
    lemma_keyed_len(s, first_of::<K, W>());
    assert(pair_map(s).dom() =~= keyed_map(s, first_of::<K, W>()).dom());
}

// ---------------------------------------------------------------------------
// Segments
// ---------------------------------------------------------------------------

/// What a segment holds: the live documents (id to vector key and fields),
/// the document each handed-out key belongs to, the tombstoned keys, the
/// next key to hand out, and its settings.
pub struct SegView {
    pub id: u64,
    pub live: Map<Seq<char>, (u32, Seq<char>)>,
    pub owners: Map<u32, Seq<char>>,
    pub dead: Set<u32>,
    pub next_key: u32,
    pub dimensions: usize,
    pub metric: Metric,
    pub sealed: bool,
}

/// A search hit of one segment: document id, score (as `f32` bits) and fields.
pub struct HitView {
    pub id: Seq<char>,
    pub score_bits: u32,
    pub fields: Seq<char>,
}

/// The key after `n`, wrapping at `u32::MAX`.
pub open spec fn wrapping_next(n: u32) -> u32 {
    if n == u32::MAX {
        0
    } else {
        (n + 1) as u32
    }
}

/// An empty, writable segment.
pub open spec fn fresh_segment(id: u64, dimensions: usize, metric: Metric) -> SegView {
    SegView {
        id,
        live: Map::empty(),
        owners: Map::empty(),
        dead: Set::empty(),
        next_key: 0,
        dimensions,
        metric,
        sealed: false,
    }
}

/// The segment after `add(doc, _, fields)` succeeded: a live copy of the
/// document is tombstoned first, so every vector written stays counted,
/// then the document gets the next key.
pub open spec fn added(s: SegView, doc: Seq<char>, fields: Seq<char>) -> SegView {
    let t = tombstoned(s, doc);
    SegView {
        live: t.live.insert(doc, (t.next_key, fields)),
        owners: t.owners.insert(t.next_key, doc),
        next_key: wrapping_next(t.next_key),
        ..t
    }
}

/// The segment after `tombstone(doc)`.
pub open spec fn tombstoned(s: SegView, doc: Seq<char>) -> SegView {
    if s.live.contains_key(doc) {
        SegView {
            live: s.live.remove(doc),
            owners: s.owners.remove(s.live[doc].0),
            dead: s.dead.insert(s.live[doc].0),
            ..s
        }
    } else {
        s
    }
}

/// Vectors written plus vectors tombstoned.
pub open spec fn segment_total(s: SegView) -> nat {
    s.live.len() + s.dead.len()
}

pub open spec fn sealed_message() -> Seq<char> {
    "Cannot write to a sealed segment"@
}

pub open spec fn dimension_message(expected: nat, got: nat) -> Seq<char> {
    "Expected "@ + decimal(expected) + " dimensions, got "@ + decimal(got)
}

/// The hits of a segment for the `(key, score)` pairs that the index
/// returned, in order: tombstoned keys and keys without a live document
/// are skipped.
pub open spec fn segment_hits(s: SegView, matches: Seq<(u32, u32)>) -> Seq<HitView>
    decreases matches.len(),
{
    if matches.len() == 0 {
        Seq::empty()
    } else {
        let rest = segment_hits(s, matches.drop_last());
        let key = matches.last().0;
        if !s.dead.contains(key) && s.owners.contains_key(key) && s.live.contains_key(s.owners[key]) {
            rest.push(HitView { id: s.owners[key], score_bits: matches.last().1, fields: s.live[s.owners[key]].1 })
        } else {
            rest
        }
    }
}

/// A live document: its id, the key of its vector and its fields (JSON text).
struct LiveDoc {
    doc_id: String,
    key: u32,
    fields: String,
}

/// The document a vector key was handed out for.
struct KeyOwner {
    key: u32,
    doc_id: String,
}

/// A search hit of one segment.
#[derive(Debug)]
pub struct SegmentHit {
    pub id: String,
    pub score_bits: u32,
    pub fields: String,
}

impl View for SegmentHit {
    type V = HitView;

    open spec fn view(&self) -> HitView {
        HitView { id: self.id@, score_bits: self.score_bits, fields: self.fields@ }
    }
}

/// One segment of a vector shard: open for writes until sealed, with
/// tombstones for deleted documents.
///
/// The document map is kept as a vector of entries with distinct keys (see
/// `keyed`): vstd specifies `HashMap` only for keys it knows to hash and
/// compare faithfully (integers and the like), not for `String`, so a
/// `HashMap<String, _>` would leave these contracts unprovable.
/// The key-to-document map has integer keys and could be a `HashMap`; it
/// is kept the same way so that both maps rest on the same lemmas.
pub struct VectorSegment {
    id: u64,
    tombstones: RoaringBitmap,
    docs: Vec<LiveDoc>,
    owners: Vec<KeyOwner>,
    next_key: u32,
    dimensions: usize,
    metric: Metric,
    sealed: bool,
}

impl View for VectorSegment {
    type V = SegView;

    closed spec fn view(&self) -> SegView {
        SegView {
            id: self.id,
            live: pair_map(self.live_pairs()),
            owners: pair_map(self.owner_pairs()),
            dead: bitmap_contents(self.tombstones),
            next_key: self.next_key,
            dimensions: self.dimensions,
            metric: self.metric,
            sealed: self.sealed,
        }
    }
}

impl VectorSegment {
    closed spec fn live_pairs(&self) -> Seq<(Seq<char>, (u32, Seq<char>))> {
        self.docs@.map_values(|d: LiveDoc| (d.doc_id@, (d.key, d.fields@)))
    }

    closed spec fn owner_pairs(&self) -> Seq<(u32, Seq<char>)> {
        self.owners@.map_values(|o: KeyOwner| (o.key, o.doc_id@))
    }

    /// Document ids and vector keys are each recorded once.
    pub closed spec fn wf(&self) -> bool {
        &&& unique_keys(self.live_pairs(), first_of::<Seq<char>, (u32, Seq<char>)>())
        &&& unique_keys(self.owner_pairs(), first_of::<u32, Seq<char>>())
    }

    /// An empty, writable segment.
    pub fn new(id: u64, dimensions: usize, metric: Metric) -> (r: Self)
        ensures
            r.wf(),
            r@ == fresh_segment(id, dimensions, metric),
    {
        let r = VectorSegment {
            id,
            tombstones: bitmap_new(),
            docs: Vec::new(),
            owners: Vec::new(),
            next_key: 0,
            dimensions,
            metric,
            sealed: false,
        };
        proof {
            assert(r.live_pairs() =~= Seq::empty());
            assert(r.owner_pairs() =~= Seq::empty());
            assert(pair_map(r.live_pairs()) =~= Map::empty());
            assert(pair_map(r.owner_pairs()) =~= Map::empty());
        }
        r
    }

    pub fn id(&self) -> (r: u64)
        ensures
            r == self@.id,
    {
        self.id
    }

    pub fn is_sealed(&self) -> (r: bool)
        ensures
            r == self@.sealed,
    {
        self.sealed
    }

    fn find_doc(&self, doc: &String) -> (r: Option<usize>)
        requires
            self.wf(),
        ensures
            match r {
                Some(i) => i < self.docs.len() && self.docs@[i as int].doc_id@ == doc@,
                None => !self@.live.contains_key(doc@),
            },
    {
        let mut i: usize = 0;
        while i < self.docs.len()
            invariant
                i <= self.docs.len(),
                forall|j: int| 0 <= j < i ==> self.docs@[j].doc_id@ != doc@,
            decreases self.docs.len() - i,
        {
            if self.docs[i].doc_id == *doc {
                return Some(i);
            }
            i = i + 1;
        }
        proof {
            let ps = self.live_pairs();
            if pair_map(ps).contains_key(doc@) {
                let j = choose|j: int| #![trigger ps[j]] 0 <= j < ps.len() && first_of::<Seq<char>, (u32, Seq<char>)>()(ps[j]) == doc@;
                assert(ps[j] == (self.docs@[j].doc_id@, (self.docs@[j].key, self.docs@[j].fields@)));
            }
        }
        None
    }

    fn find_owner(&self, key: u32) -> (r: Option<usize>)
        requires
            self.wf(),
        ensures
            match r {
                Some(i) => i < self.owners.len() && self.owners@[i as int].key == key,
                None => !self@.owners.contains_key(key),
            },
    {
        let mut i: usize = 0;
        while i < self.owners.len()
            invariant
                i <= self.owners.len(),
                forall|j: int| 0 <= j < i ==> self.owners@[j].key != key,
            decreases self.owners.len() - i,
        {
            if self.owners[i].key == key {
                return Some(i);
            }
            i = i + 1;
        }
        proof {
            let ps = self.owner_pairs();
            if pair_map(ps).contains_key(key) {
                let j = choose|j: int| #![trigger ps[j]] 0 <= j < ps.len() && first_of::<u32, Seq<char>>()(ps[j]) == key;
                assert(ps[j] == (self.owners@[j].key, self.owners@[j].doc_id@));
            }
        }
        None
    }
}

impl VectorSegment {
    /// Record a document whose vector has `vector.len()` components (given
    /// as `f32` bits). A sealed segment refuses with a backend error, a
    /// length other than the segment's dimensions with a schema error, and
    /// nothing changes. Otherwise a live copy of the document is
    /// tombstoned and the document gets the next key, which is returned for
    /// the index to store the vector under.
    pub fn add(&mut self, doc_id: &str, vector: &[u32], fields: String) -> (r: Result<u32, Error>)
        requires
            old(self).wf(),
        ensures
            final(self).wf(),
            old(self)@.sealed ==> (r matches Err(e) && e matches Error::Backend(m) && m@ == sealed_message()
                && final(self)@ == old(self)@),
            !old(self)@.sealed && vector@.len() != old(self)@.dimensions ==> (r matches Err(e)
                && e matches Error::Schema(m) && m@ == dimension_message(
                old(self)@.dimensions as nat,
                vector@.len(),
            ) && final(self)@ == old(self)@),
            !old(self)@.sealed && vector@.len() == old(self)@.dimensions ==> (r matches Ok(k) && k
                == old(self)@.next_key && final(self)@ == added(old(self)@, doc_id@, fields@)),
    {
        if self.sealed {
            return Err(Error::Backend(owned("Cannot write to a sealed segment")));
        }
        if vector.len() != self.dimensions {
            let mut v = chars_of("Expected ");
            let mut a = decimal_chars(self.dimensions as u64);
            v.append(&mut a);
            let mut b = chars_of(" dimensions, got ");
            v.append(&mut b);
            let mut c = decimal_chars(vector.len() as u64);
            v.append(&mut c);
            proof {
                assert(v@ =~= dimension_message(self.dimensions as nat, vector@.len()));
            }
            return Err(Error::Schema(string_from_chars(&v)));
        }
        self.tombstone(doc_id);
        let ghost s0 = self@;
        let key = self.next_key;
        self.next_key = if key == u32::MAX {
            0
        } else {
            key + 1
        };
        let id = owned(doc_id);
        let ghost lp = self.live_pairs();
        let ghost entry = (doc_id@, (key, fields@));
        match self.find_doc(&id) {
            Some(i) => {
                self.docs.set(i, LiveDoc { doc_id: id.clone(), key, fields });
                proof {
                    assert(self.live_pairs() =~= lp.update(i as int, entry));
                    lemma_pair_update(lp, i as int, entry);
                }
            },
            None => {
                self.docs.push(LiveDoc { doc_id: id.clone(), key, fields });
                proof {
                    assert(self.live_pairs() =~= lp.push(entry));
                    lemma_pair_push(lp, entry);
                }
            },
        }
        let ghost op = self.owner_pairs();
        let ghost oentry = (key, doc_id@);
        match self.find_owner(key) {
            Some(i) => {
                self.owners.set(i, KeyOwner { key, doc_id: id });
                proof {
                    assert(self.owner_pairs() =~= op.update(i as int, oentry));
                    lemma_pair_update(op, i as int, oentry);
                }
            },
            None => {
                self.owners.push(KeyOwner { key, doc_id: id });
                proof {
                    assert(self.owner_pairs() =~= op.push(oentry));
                    lemma_pair_push(op, oentry);
                }
            },
        }
        assert(self@ == added(old(self)@, doc_id@, fields@));
        Ok(key)
    }

    /// Tombstone a live document: its key joins the tombstones and it leaves
    /// the segment. Returns whether it was live.
    pub fn tombstone(&mut self, doc_id: &str) -> (r: bool)
        requires
            old(self).wf(),
        ensures
            final(self).wf(),
            r == old(self)@.live.contains_key(doc_id@),
            final(self)@ == tombstoned(old(self)@, doc_id@),
    {
        let id = owned(doc_id);
        match self.find_doc(&id) {
            None => false,
            Some(i) => {
                let ghost s0 = self@;
                let ghost lp = self.live_pairs();
                proof {
                    assert(lp[i as int] == (self.docs@[i as int].doc_id@, (self.docs@[i as int].key, self.docs@[i as int].fields@)));
                    lemma_pair_at(lp, i as int);
                }
                let d = self.docs.remove(i);
                proof {
                    assert(self.live_pairs() =~= lp.remove(i as int));
                    lemma_pair_remove(lp, i as int);
                }
                let key = d.key;
                bitmap_insert(&mut self.tombstones, key);
                let ghost op = self.owner_pairs();
                match self.find_owner(key) {
                    Some(j) => {
                        proof {
                            assert(op[j as int] == (self.owners@[j as int].key, self.owners@[j as int].doc_id@));
                        }
                        self.owners.remove(j);
                        proof {
                            assert(self.owner_pairs() =~= op.remove(j as int));
                            lemma_pair_remove(op, j as int);
                        }
                    },
                    None => {
                        assert(s0.owners.remove(key) =~= s0.owners);
                    },
                }
                assert(self@ == tombstoned(s0, doc_id@));
                true
            },
        }
    }

    /// Whether the document is live here.
    pub fn contains(&self, doc_id: &str) -> (r: bool)
        requires
            self.wf(),
        ensures
            r == self@.live.contains_key(doc_id@),
    {
        let id = owned(doc_id);
        match self.find_doc(&id) {
            None => false,
            Some(i) => {
                proof {
                    let lp = self.live_pairs();
                    assert(lp[i as int] == (self.docs@[i as int].doc_id@, (self.docs@[i as int].key, self.docs@[i as int].fields@)));
                    lemma_pair_at(lp, i as int);
                }
                true
            },
        }
    }

    /// The fields of a live document.
    pub fn get(&self, doc_id: &str) -> (r: Option<String>)
        requires
            self.wf(),
        ensures
            match r {
                Some(f) => self@.live.contains_key(doc_id@) && f@ == self@.live[doc_id@].1,
                None => !self@.live.contains_key(doc_id@),
            },
    {
        let id = owned(doc_id);
        match self.find_doc(&id) {
            None => None,
            Some(i) => {
                proof {
                    let lp = self.live_pairs();
                    assert(lp[i as int] == (self.docs@[i as int].doc_id@, (self.docs@[i as int].key, self.docs@[i as int].fields@)));
                    lemma_pair_at(lp, i as int);
                }
                Some(self.docs[i].fields.clone())
            },
        }
    }

    /// Close the segment for writes.
    pub fn seal(&mut self)
        ensures
            final(self)@ == (SegView { sealed: true, ..old(self)@ }),
            old(self).wf() ==> final(self).wf(),
    {
        self.sealed = true;
    }

    /// Number of live documents.
    pub fn live_count(&self) -> (r: u64)
        requires
            self.wf(),
        ensures
            r == self@.live.len(),
    {
        proof {
            lemma_pair_len(self.live_pairs());
        }
        self.docs.len() as u64
    }

    /// Number of tombstoned vectors.
    pub fn deleted_count(&self) -> (r: u64)
        ensures
            r == self@.dead.len(),
    {
        bitmap_len(&self.tombstones)
    }

    /// Vectors written, live or tombstoned.
    pub fn total_count(&self) -> (r: u64)
        requires
            self.wf(),
            segment_total(self@) <= u64::MAX,
        ensures
            r == segment_total(self@),
    {
        proof {
            lemma_pair_len(self.live_pairs());
        }
        self.docs.len() as u64 + bitmap_len(&self.tombstones)
    }

    /// Turn the `(key, score)` pairs that the nearest-neighbour index returned
    /// for this segment into hits, skipping tombstoned keys and keys without a
    /// live document.
    pub fn hits(&self, matches: &[(u32, u32)]) -> (r: Vec<SegmentHit>)
        requires
            self.wf(),
        ensures
            r@.map_values(|h: SegmentHit| h@) == segment_hits(self@, matches@),
    {
        let mut out: Vec<SegmentHit> = Vec::new();
        let mut i: usize = 0;
        while i < matches.len()
            invariant
                self.wf(),
                i <= matches@.len(),
                out@.map_values(|h: SegmentHit| h@) == segment_hits(self@, matches@.take(i as int)),
            decreases matches.len() - i,
        {
            let (key, score) = matches[i];
            proof {
                assert(matches@.take(i as int + 1).drop_last() =~= matches@.take(i as int));
                assert(matches@.take(i as int + 1).last() == matches@[i as int]);
            }
            let ghost before = out@;
            if !bitmap_contains(&self.tombstones, key) {
                match self.find_owner(key) {
                    Some(j) => {
                        proof {
                            let op = self.owner_pairs();
                            assert(op[j as int] == (self.owners@[j as int].key, self.owners@[j as int].doc_id@));
                            lemma_pair_at(op, j as int);
                        }
                        let owner = &self.owners[j].doc_id;
                        match self.find_doc(owner) {
                            Some(k) => {
                                proof {
                                    let lp = self.live_pairs();
                                    assert(lp[k as int] == (self.docs@[k as int].doc_id@, (self.docs@[k as int].key, self.docs@[k as int].fields@)));
                                    lemma_pair_at(lp, k as int);
                                }
                                out.push(SegmentHit { id: owner.clone(), score_bits: score, fields: self.docs[k].fields.clone() });
                                proof {
                                    assert(out@.map_values(|h: SegmentHit| h@) =~= before.map_values(|h: SegmentHit| h@).push(out@.last()@));
                                }
                            },
                            None => {},
                        }
                    },
                    None => {},
                }
            }
            i = i + 1;
        }
        proof {
            assert(matches@.take(matches@.len() as int) =~= matches@);
        }
        out
    }
}

// ---------------------------------------------------------------------------
// Shards
// ---------------------------------------------------------------------------

/// Live documents over a list of segments.
pub open spec fn live_sum(segs: Seq<SegView>) -> nat
    decreases segs.len(),
{
    if segs.len() == 0 {
        0
    } else {
        live_sum(segs.drop_last()) + segs.last().live.len()
    }
}

/// Vectors written, live or tombstoned, over a list of segments.
pub open spec fn total_sum(segs: Seq<SegView>) -> nat
    decreases segs.len(),
{
    if segs.len() == 0 {
        0
    } else {
        total_sum(segs.drop_last()) + segment_total(segs.last())
    }
}

/// The hits of each segment for its own index matches, segment by segment.
pub open spec fn all_hits(segs: Seq<SegView>, matches: Seq<Seq<(u32, u32)>>) -> Seq<HitView>
    decreases segs.len(),
{
    if segs.len() == 0 || matches.len() == 0 {
        Seq::empty()
    } else {
        all_hits(segs.drop_last(), matches.drop_last()) + segment_hits(segs.last(), matches.last())
    }
}

/// Every segment after `tombstone(doc)`.
pub open spec fn tombstoned_all(segs: Seq<SegView>, doc: Seq<char>) -> Seq<SegView> {
    segs.map_values(|s: SegView| tombstoned(s, doc))
}

/// The segments after `seal_active`: a fresh open segment with id `next`,
/// the sealed ones, and the old open one sealed if anything was written to it.
pub open spec fn after_seal(segs: Seq<SegView>, next: u64) -> Seq<SegView> {
    let fresh = fresh_segment(next, segs[0].dimensions, segs[0].metric);
    if segment_total(segs[0]) > 0 {
        seq![fresh] + segs.drop_first() + seq![SegView { sealed: true, ..segs[0] }]
    } else {
        seq![fresh] + segs.drop_first()
    }
}

proof fn lemma_sum_prefix(segs: Seq<SegView>, i: int)
    requires
        0 <= i <= segs.len(),
    ensures
        live_sum(segs.take(i)) <= live_sum(segs),
        total_sum(segs.take(i)) <= total_sum(segs),
        i < segs.len() ==> live_sum(segs.take(i + 1)) == live_sum(segs.take(i)) + segs[i].live.len(),
        i < segs.len() ==> total_sum(segs.take(i + 1)) == total_sum(segs.take(i)) + segment_total(segs[i]),
    decreases segs.len() - i,
{
    if i < segs.len() {
        assert(segs.take(i + 1).drop_last() =~= segs.take(i));
        lemma_sum_prefix(segs, i + 1);
    } else {
        assert(segs.take(i) =~= segs);
    }
}

proof fn lemma_sum_front(a: SegView, rest: Seq<SegView>)
    ensures
        live_sum(seq![a] + rest) == a.live.len() + live_sum(rest),
        total_sum(seq![a] + rest) == segment_total(a) + total_sum(rest),
    decreases rest.len(),
{
    let t = seq![a] + rest;
    if rest.len() == 0 {
        assert(t.drop_last() =~= Seq::<SegView>::empty());
        assert(t.last() == a);
        assert(live_sum(Seq::<SegView>::empty()) == 0);
        assert(total_sum(Seq::<SegView>::empty()) == 0);
    } else {
        lemma_sum_front(a, rest.drop_last());
        assert(t.drop_last() =~= seq![a] + rest.drop_last());
        assert(t.last() == rest.last());
    }
}

/// A shard of the vector index: one segment open for writes and the sealed
/// ones, in the order they were sealed.
pub struct VectorShard {
    shard_id: u32,
    active_segment: VectorSegment,
    sealed_segments: Vec<VectorSegment>,
    dimensions: usize,
    metric: Metric,
    m: usize,
    ef_construction: usize,
    ef_search: usize,
    embedding_source_field: Option<String>,
    embedding_target_field: String,
    next_segment_id: u64,
}

impl VectorShard {
    /// The segments, the open one first.
    pub closed spec fn segs(&self) -> Seq<SegView> {
        seq![self.active_segment@] + self.sealed_segments@.map_values(|g: VectorSegment| g@)
    }

    pub closed spec fn next_segment(&self) -> u64 {
        self.next_segment_id
    }

    pub closed spec fn dims(&self) -> usize {
        self.dimensions
    }

    pub closed spec fn id(&self) -> u32 {
        self.shard_id
    }

    /// The index settings: metric, `m`, `ef_construction` and `ef_search`.
    pub closed spec fn index_settings(&self) -> (Metric, usize, usize, usize) {
        (self.metric, self.m, self.ef_construction, self.ef_search)
    }

    /// The field embeddings are made from, if any, and the field they go to.
    pub closed spec fn embedding_fields(&self) -> (Option<Seq<char>>, Seq<char>) {
        (
            match self.embedding_source_field {
                Some(s) => Some(s@),
                None => None,
            },
            self.embedding_target_field@,
        )
    }

    /// Every segment is well formed, the open one is not sealed and has the
    /// shard's dimensions and metric, and the others are sealed.
    pub closed spec fn wf(&self) -> bool {
        &&& self.active_segment.wf()
        &&& !self.active_segment@.sealed
        &&& self.active_segment@.dimensions == self.dimensions
        &&& self.active_segment@.metric == self.metric
        &&& forall|i: int|
            0 <= i < self.sealed_segments.len() ==> (#[trigger] self.sealed_segments@[i]).wf()
                && self.sealed_segments@[i]@.sealed
    }

    proof fn lemma_segs(&self)
        ensures
            self.segs().len() == self.sealed_segments.len() + 1,
            self.segs()[0] == self.active_segment@,
            forall|i: int| 0 <= i < self.sealed_segments.len() ==> #[trigger] self.segs()[i + 1] == self.sealed_segments@[i]@,
    {
    }

    /// A shard with one empty open segment (id 0); the next segment gets id 1.
    pub fn new(
        shard_id: u32,
        dimensions: usize,
        metric: Metric,
        m: usize,
        ef_construction: usize,
        ef_search: usize,
        embedding_source_field: Option<String>,
        embedding_target_field: String,
    ) -> (r: Self)
        ensures
            r.wf(),
            r.segs() == seq![fresh_segment(0, dimensions, metric)],
            r.next_segment() == 1,
            r.dims() == dimensions,
            r.id() == shard_id,
            r.index_settings() == (metric, m, ef_construction, ef_search),
            r.embedding_fields() == (
                match embedding_source_field {
                    Some(s) => Some(s@),
                    None => None,
                },
                embedding_target_field@,
            ),
    {
        let active = VectorSegment::new(0, dimensions, metric);
        let r = VectorShard {
            shard_id,
            active_segment: active,
            sealed_segments: Vec::new(),
            dimensions,
            metric,
            m,
            ef_construction,
            ef_search,
            embedding_source_field,
            embedding_target_field,
            next_segment_id: 1,
        };
        assert(r.segs() =~= seq![fresh_segment(0, dimensions, metric)]);
        r
    }

    pub fn shard_id(&self) -> (r: u32)
        ensures
            r == self.id(),
    {
        self.shard_id
    }

    pub fn dimensions(&self) -> (r: usize)
        ensures
            r == self.dims(),
    {
        self.dimensions
    }

    pub fn ef_search(&self) -> (r: usize)
        ensures
            r == self.index_settings().3,
    {
        self.ef_search
    }

    /// The field embeddings are made from, if any.
    pub fn embedding_source_field(&self) -> (r: Option<String>)
        ensures
            (match r {
                Some(s) => Some(s@),
                None => None,
            }) == self.embedding_fields().0,
    {
        match &self.embedding_source_field {
            Some(s) => Some(s.clone()),
            None => None,
        }
    }

    /// The field embeddings are stored in.
    pub fn embedding_target_field(&self) -> (r: String)
        ensures
            r@ == self.embedding_fields().1,
    {
        self.embedding_target_field.clone()
    }

    /// Number of sealed segments.
    pub fn sealed_segment_count(&self) -> (r: usize)
        ensures
            r == self.segs().len() - 1,
    {
        self.sealed_segments.len()
    }

    /// Whether some segment holds the document live.
    pub fn contains(&self, doc_id: &str) -> (r: bool)
        requires
            self.wf(),
        ensures
            r == exists|i: int| 0 <= i < self.segs().len() && (#[trigger] self.segs()[i]).live.contains_key(doc_id@),
    {
        proof {
            self.lemma_segs();
        }
        if self.active_segment.contains(doc_id) {
            assert(self.segs()[0].live.contains_key(doc_id@));
            return true;
        }
        let mut i: usize = 0;
        while i < self.sealed_segments.len()
            invariant
                self.wf(),
                i <= self.sealed_segments.len(),
                forall|j: int| 0 <= j <= i ==> !(#[trigger] self.segs()[j]).live.contains_key(doc_id@),
            decreases self.sealed_segments.len() - i,
        {
            proof {
                self.lemma_segs();
            }
            if self.sealed_segments[i].contains(doc_id) {
                assert(self.segs()[i + 1].live.contains_key(doc_id@));
                return true;
            }
            i = i + 1;
        }
        false
    }

    /// The fields of the document from the first segment (the open one
    /// first) that holds it live.
    pub fn get(&self, doc_id: &str) -> (r: Option<String>)
        requires
            self.wf(),
        ensures
            match r {
                None => forall|i: int| 0 <= i < self.segs().len() ==> !(#[trigger] self.segs()[i]).live.contains_key(doc_id@),
                Some(f) => exists|i: int|
                    0 <= i < self.segs().len() && (#[trigger] self.segs()[i]).live.contains_key(doc_id@)
                        && f@ == self.segs()[i].live[doc_id@].1
                        && forall|j: int| 0 <= j < i ==> !(#[trigger] self.segs()[j]).live.contains_key(doc_id@),
            },
    {
        proof {
            self.lemma_segs();
        }
        match self.active_segment.get(doc_id) {
            Some(f) => {
                assert(self.segs()[0].live.contains_key(doc_id@));
                return Some(f);
            },
            None => {},
        }
        let mut i: usize = 0;
        while i < self.sealed_segments.len()
            invariant
                self.wf(),
                i <= self.sealed_segments.len(),
                forall|j: int| 0 <= j <= i ==> !(#[trigger] self.segs()[j]).live.contains_key(doc_id@),
            decreases self.sealed_segments.len() - i,
        {
            proof {
                self.lemma_segs();
            }
            match self.sealed_segments[i].get(doc_id) {
                Some(f) => {
                    assert(self.segs()[i + 1].live.contains_key(doc_id@));
                    return Some(f);
                },
                None => {},
            }
            i = i + 1;
        }
        None
    }
}

impl VectorShard {
    fn delete_if_exists(&mut self, doc_id: &str) -> (r: bool)
        requires
            old(self).wf(),
        ensures
            final(self).wf(),
            final(self).segs() == tombstoned_all(old(self).segs(), doc_id@),
            r == exists|i: int| 0 <= i < old(self).segs().len() && (#[trigger] old(self).segs()[i]).live.contains_key(doc_id@),
            final(self).next_segment() == old(self).next_segment(),
            final(self).dims() == old(self).dims(),
            final(self).id() == old(self).id(),
            final(self).index_settings() == old(self).index_settings(),
            final(self).embedding_fields() == old(self).embedding_fields(),
            final(self).metric == old(self).metric,
    {
        let ghost os = self.segs();
        proof {
            self.lemma_segs();
        }
        let mut found = self.active_segment.tombstone(doc_id);
        let n = self.sealed_segments.len();
        let mut i: usize = 0;
        while i < n
            invariant
                0 <= i <= n,
                n == self.sealed_segments.len(),
                os.len() == n + 1,
                os == old(self).segs(),
                self.active_segment.wf(),
                !self.active_segment@.sealed,
                self.active_segment@ == tombstoned(os[0], doc_id@),
                self.active_segment@.dimensions == self.dimensions,
                self.active_segment@.metric == self.metric,
                self.dimensions == old(self).dimensions,
                self.metric == old(self).metric,
                self.next_segment_id == old(self).next_segment_id,
                self.shard_id == old(self).shard_id,
                self.index_settings() == old(self).index_settings(),
                self.embedding_fields() == old(self).embedding_fields(),
                forall|j: int| 0 <= j < n ==> (#[trigger] self.sealed_segments@[j]).wf() && self.sealed_segments@[j]@.sealed,
                forall|j: int| 0 <= j < i ==> (#[trigger] self.sealed_segments@[j])@ == tombstoned(os[j + 1], doc_id@),
                forall|j: int| i <= j < n ==> (#[trigger] self.sealed_segments@[j])@ == os[j + 1],
                found == exists|k: int| 0 <= k <= i && (#[trigger] os[k]).live.contains_key(doc_id@),
            decreases n - i,
        {
            let mut seg = self.sealed_segments.remove(i);
            let t = seg.tombstone(doc_id);
            self.sealed_segments.insert(i, seg);
            if t {
                found = true;
            }
            proof {
                if found {
                    if t {
                        assert(os[i + 1].live.contains_key(doc_id@));
                    } else {
                        let k = choose|k: int| 0 <= k <= i && (#[trigger] os[k]).live.contains_key(doc_id@);
                        assert(os[k].live.contains_key(doc_id@));
                    }
                } else {
                    assert forall|k: int| 0 <= k <= i + 1 implies !(#[trigger] os[k]).live.contains_key(doc_id@) by {
                        if k == i + 1 {
                            assert(!t);
                        }
                    }
                }
            }
            i = i + 1;
        }
        proof {
            assert(self.segs() =~= tombstoned_all(os, doc_id@));
        }
        found
    }

    /// Tombstone the document in every segment. Returns whether some segment
    /// held it live.
    pub fn delete(&mut self, doc_id: &str) -> (r: bool)
        requires
            old(self).wf(),
        ensures
            final(self).wf(),
            final(self).segs() == tombstoned_all(old(self).segs(), doc_id@),
            r == exists|i: int| 0 <= i < old(self).segs().len() && (#[trigger] old(self).segs()[i]).live.contains_key(doc_id@),
            final(self).next_segment() == old(self).next_segment(),
            final(self).dims() == old(self).dims(),
            final(self).id() == old(self).id(),
            final(self).index_settings() == old(self).index_settings(),
            final(self).embedding_fields() == old(self).embedding_fields(),
    {
        self.delete_if_exists(doc_id)
    }

    /// Index a document: any copy of it in the shard is tombstoned first,
    /// then it is added to the open segment (see `VectorSegment::add`).
    pub fn index(&mut self, doc_id: &str, vector: &[u32], fields: String) -> (r: Result<u32, Error>)
        requires
            old(self).wf(),
        ensures
            final(self).wf(),
            final(self).next_segment() == old(self).next_segment(),
            final(self).dims() == old(self).dims(),
            final(self).id() == old(self).id(),
            final(self).index_settings() == old(self).index_settings(),
            final(self).embedding_fields() == old(self).embedding_fields(),
            vector@.len() != old(self).dims() ==> (r matches Err(e) && e matches Error::Schema(m) && m@
                == dimension_message(old(self).dims() as nat, vector@.len()) && final(self).segs()
                == tombstoned_all(old(self).segs(), doc_id@)),
            vector@.len() == old(self).dims() ==> (r matches Ok(k) && k == old(self).segs()[0].next_key
                && final(self).segs() == tombstoned_all(old(self).segs(), doc_id@).update(
                0,
                added(tombstoned(old(self).segs()[0], doc_id@), doc_id@, fields@),
            )),
    {
        proof {
            self.lemma_segs();
        }
        self.delete_if_exists(doc_id);
        let ghost mid = self.segs();
        proof {
            self.lemma_segs();
        }
        let r = self.active_segment.add(doc_id, vector, fields);
        proof {
            assert(self.segs() =~= mid.update(0, self.active_segment@));
        }
        r
    }

    /// Start a new open segment (with the next segment id); the old one is
    /// sealed and kept if anything was written to it.
    pub fn seal_active(&mut self)
        requires
            old(self).wf(),
            old(self).next_segment() < u64::MAX,
            segment_total(old(self).segs()[0]) <= u64::MAX,
        ensures
            final(self).wf(),
            final(self).segs() == after_seal(old(self).segs(), old(self).next_segment()),
            final(self).next_segment() == old(self).next_segment() + 1,
            final(self).dims() == old(self).dims(),
            final(self).id() == old(self).id(),
            final(self).index_settings() == old(self).index_settings(),
            final(self).embedding_fields() == old(self).embedding_fields(),
    {
        proof {
            self.lemma_segs();
        }
        let ghost os = self.segs();
        let mut old_active = VectorSegment::new(self.next_segment_id, self.dimensions, self.metric);
        self.next_segment_id = self.next_segment_id + 1;
        std::mem::swap(&mut old_active, &mut self.active_segment);
        let ghost sv = self.sealed_segments@.map_values(|g: VectorSegment| g@);
        if old_active.total_count() > 0 {
            old_active.seal();
            self.sealed_segments.push(old_active);
            proof {
                assert(self.sealed_segments@.map_values(|g: VectorSegment| g@) =~= sv.push(old_active@));
                assert(os.drop_first() =~= sv);
                assert(self.segs() =~= after_seal(os, old(self).next_segment()));
            }
        } else {
            proof {
                assert(os.drop_first() =~= sv);
                assert(self.segs() =~= after_seal(os, old(self).next_segment()));
            }
        }
    }

    /// Live documents over all segments.
    pub fn live_count(&self) -> (r: u64)
        requires
            self.wf(),
            live_sum(self.segs()) <= u64::MAX,
        ensures
            r == live_sum(self.segs()),
    {
        let ghost sv = self.sealed_segments@.map_values(|g: VectorSegment| g@);
        proof {
            assert(self.segs() == seq![self.active_segment@] + sv);
            lemma_sum_front(self.active_segment@, sv);
        }
        let mut sealed: u64 = 0;
        let mut i: usize = 0;
        while i < self.sealed_segments.len()
            invariant
                self.wf(),
                i <= self.sealed_segments.len(),
                sv == self.sealed_segments@.map_values(|g: VectorSegment| g@),
                sealed == live_sum(sv.take(i as int)),
                live_sum(sv) <= u64::MAX,
            decreases self.sealed_segments.len() - i,
        {
            proof {
                lemma_sum_prefix(sv, i as int);
                lemma_sum_prefix(sv, i as int + 1);
                assert(sv[i as int] == self.sealed_segments@[i as int]@);
            }
            sealed = sealed + self.sealed_segments[i].live_count();
            i = i + 1;
        }
        proof {
            assert(sv.take(sv.len() as int) =~= sv);
        }
        self.active_segment.live_count() + sealed
    }

    /// Vectors written, live or tombstoned, over all segments.
    pub fn total_count(&self) -> (r: u64)
        requires
            self.wf(),
            total_sum(self.segs()) <= u64::MAX,
        ensures
            r == total_sum(self.segs()),
    {
        let ghost sv = self.sealed_segments@.map_values(|g: VectorSegment| g@);
        proof {
            assert(self.segs() == seq![self.active_segment@] + sv);
            lemma_sum_front(self.active_segment@, sv);
        }
        let mut sealed: u64 = 0;
        let mut i: usize = 0;
        while i < self.sealed_segments.len()
            invariant
                self.wf(),
                i <= self.sealed_segments.len(),
                sv == self.sealed_segments@.map_values(|g: VectorSegment| g@),
                sealed == total_sum(sv.take(i as int)),
                total_sum(sv) <= u64::MAX,
            decreases self.sealed_segments.len() - i,
        {
            proof {
                lemma_sum_prefix(sv, i as int);
                lemma_sum_prefix(sv, i as int + 1);
                assert(sv[i as int] == self.sealed_segments@[i as int]@);
            }
            sealed = sealed + self.sealed_segments[i].total_count();
            i = i + 1;
        }
        proof {
            assert(sv.take(sv.len() as int) =~= sv);
        }
        self.active_segment.total_count() + sealed
    }

    /// The hits of every segment (the open one first) for the matches its
    /// index returned: `matches[i]` belongs to the `i`-th segment.
    pub fn collect_hits(&self, matches: &Vec<Vec<(u32, u32)>>) -> (r: Vec<SegmentHit>)
        requires
            self.wf(),
            matches@.len() == self.segs().len(),
        ensures
            r@.map_values(|h: SegmentHit| h@) == all_hits(
                self.segs(),
                matches@.map_values(|m: Vec<(u32, u32)>| m@),
            ),
    {
        let ghost segs = self.segs();
        let ghost ms = matches@.map_values(|m: Vec<(u32, u32)>| m@);
        proof {
            self.lemma_segs();
        }
        let mut out = self.active_segment.hits(matches[0].as_slice());
        proof {
            assert(segs.take(1).drop_last() =~= Seq::<SegView>::empty());
            assert(ms.take(1).drop_last() =~= Seq::<Seq<(u32, u32)>>::empty());
            assert(segs.take(1).last() == segs[0]);
            assert(ms.take(1).last() == ms[0]);
            assert(all_hits(Seq::<SegView>::empty(), Seq::<Seq<(u32, u32)>>::empty()) == Seq::<HitView>::empty());
            assert(all_hits(segs.take(1), ms.take(1)) =~= segment_hits(segs[0], ms[0]));
        }
        let mut i: usize = 0;
        while i < self.sealed_segments.len()
            invariant
                self.wf(),
                i <= self.sealed_segments.len(),
                segs == self.segs(),
                ms == matches@.map_values(|m: Vec<(u32, u32)>| m@),
                matches@.len() == segs.len(),
                segs.len() == self.sealed_segments.len() + 1,
                out@.map_values(|h: SegmentHit| h@) == all_hits(segs.take(i + 1), ms.take(i + 1)),
            decreases self.sealed_segments.len() - i,
        {
            proof {
                self.lemma_segs();
            }
            let mut more = self.sealed_segments[i].hits(matches[i + 1].as_slice());
            let ghost before = out@;
            out.append(&mut more);
            proof {
                assert(segs.take(i + 2).drop_last() =~= segs.take(i + 1));
                assert(ms.take(i + 2).drop_last() =~= ms.take(i + 1));
                assert(segs.take(i + 2).last() == segs[i + 1]);
                assert(ms.take(i + 2).last() == ms[i + 1]);
                assert(out@.map_values(|h: SegmentHit| h@) =~= before.map_values(|h: SegmentHit| h@) + segment_hits(
                    segs[i + 1],
                    ms[i + 1],
                ));
            }
            i = i + 1;
        }
        proof {
            assert(segs.take(segs.len() as int) =~= segs);
            assert(ms.take(ms.len() as int) =~= ms);
        }
        out
    }
}

/// Every hit names a live document of the segment.
proof fn lemma_hits_live(s: SegView, matches: Seq<(u32, u32)>)
    ensures
        forall|i: int| 0 <= i < segment_hits(s, matches).len() ==> s.live.contains_key(#[trigger] segment_hits(s, matches)[i].id),
    decreases matches.len(),
{
    if matches.len() > 0 {
        let rest = segment_hits(s, matches.drop_last());
        lemma_hits_live(s, matches.drop_last());
        let hs = segment_hits(s, matches);
        assert forall|i: int| 0 <= i < hs.len() implies s.live.contains_key(#[trigger] hs[i].id) by {
            if i < rest.len() {
                assert(hs[i] == rest[i]);
            }
        }
    }
}

/// Law: once a document is tombstoned, no search of the segment returns it,
/// whatever the index returns.
pub proof fn lemma_tombstoned_never_hit(s: SegView, doc: Seq<char>, matches: Seq<(u32, u32)>)
    ensures
        forall|i: int| 0 <= i < segment_hits(tombstoned(s, doc), matches).len() ==> (#[trigger] segment_hits(tombstoned(s, doc), matches)[i]).id != doc,
{
    lemma_hits_live(tombstoned(s, doc), matches);
}

/// Law: after `index(doc, ..)` succeeds, the document is live in the open
/// segment only, under the key the call returned, so indexing it again
/// replaces the old copy.
pub proof fn lemma_index_single_copy(segs: Seq<SegView>, doc: Seq<char>, fields: Seq<char>)
    requires
        segs.len() > 0,
    ensures
        ({
            let after = tombstoned_all(segs, doc).update(0, added(tombstoned(segs[0], doc), doc, fields));
            &&& after[0].live.contains_key(doc)
            &&& after[0].live[doc] == (segs[0].next_key, fields)
            &&& forall|i: int| 1 <= i < after.len() ==> !(#[trigger] after[i]).live.contains_key(doc)
        }),
{
}

} // verus!
