//! A sharded vector index: documents are routed to shards by the hash of
//! their id, and each shard keeps its own segments.

use crate::error::Error;
use crate::textutil::{chars_of, decimal_chars, string_from_chars};
use crate::vector::{shard_for_doc, shard_of, Metric};
use crate::vector_segment::{
    added, dimension_message, fresh_segment, live_sum, tombstoned, tombstoned_all, SegView, VectorShard,
};
use vstd::prelude::*;

verus! {

/// A document to index: its id, its vector (`f32` bits) and its fields
/// (JSON text).
pub struct VectorDoc {
    pub id: String,
    pub vector: Vec<u32>,
    pub fields: String,
}

pub struct VectorDocView {
    pub id: Seq<char>,
    pub dims: nat,
    pub fields: Seq<char>,
}

impl View for VectorDoc {
    type V = VectorDocView;

    open spec fn view(&self) -> VectorDocView {
        VectorDocView { id: self.id@, dims: self.vector@.len(), fields: self.fields@ }
    }
}

pub open spec fn doc_views(docs: Seq<VectorDoc>) -> Seq<VectorDocView> {
    docs.map_values(|d: VectorDoc| d@)
}

/// A shard's segments after `index(doc, _, fields)` with a vector of the
/// right length.
pub open spec fn indexed(segs: Seq<SegView>, doc: Seq<char>, fields: Seq<char>) -> Seq<SegView> {
    tombstoned_all(segs, doc).update(0, added(tombstoned(segs[0], doc), doc, fields))
}

/// The shards after indexing `docs` one after the other, each in the shard
/// its id hashes to.
pub open spec fn index_prefix(v: Seq<Seq<SegView>>, docs: Seq<VectorDocView>, n: usize) -> Seq<Seq<SegView>>
    decreases docs.len(),
{
    if docs.len() == 0 {
        v
    } else {
        let p = index_prefix(v, docs.drop_last(), n);
        let s = shard_of(docs.last().id, n) as int;
        p.update(s, indexed(p[s], docs.last().id, docs.last().fields))
    }
}

/// The shards after deleting `ids` one after the other.
pub open spec fn delete_prefix(v: Seq<Seq<SegView>>, ids: Seq<Seq<char>>, n: usize) -> Seq<Seq<SegView>>
    decreases ids.len(),
{
    if ids.len() == 0 {
        v
    } else {
        let p = delete_prefix(v, ids.drop_last(), n);
        let s = shard_of(ids.last(), n) as int;
        p.update(s, tombstoned_all(p[s], ids.last()))
    }
}

/// Live documents over all shards.
pub open spec fn shards_live(v: Seq<Seq<SegView>>) -> nat
    decreases v.len(),
{
    if v.len() == 0 {
        0
    } else {
        shards_live(v.drop_last()) + live_sum(v.last())
    }
}

/// A vector index split into shards.
pub struct ShardedVectorIndex {
    shards: Vec<VectorShard>,
    num_shards: usize,
    shard_oversample_bits: u32,
}

impl ShardedVectorIndex {
    /// Each shard's segments, by shard number.
    pub closed spec fn views(&self) -> Seq<Seq<SegView>> {
        self.shards@.map_values(|s: VectorShard| s.segs())
    }

    pub closed spec fn shard_count(&self) -> usize {
        self.num_shards
    }

    pub closed spec fn dims(&self) -> usize {
        self.shards@[0].dims()
    }

    pub closed spec fn oversample_bits(&self) -> u32 {
        self.shard_oversample_bits
    }

    /// One shard per shard number, all well formed, with the same dimensions.
    pub closed spec fn wf(&self) -> bool {
        &&& self.num_shards >= 1
        &&& self.shards.len() == self.num_shards
        &&& forall|i: int| 0 <= i < self.shards.len() ==> (#[trigger] self.shards@[i]).wf()
        &&& forall|i: int| 0 <= i < self.shards.len() ==> (#[trigger] self.shards@[i]).dims() == self.shards@[0].dims()
        &&& forall|i: int| 0 <= i < self.shards.len() ==> (#[trigger] self.shards@[i]).id() == i as u32
        &&& forall|i: int|
            0 <= i < self.shards.len() ==> (#[trigger] self.shards@[i]).index_settings() == self.shards@[0].index_settings()
                && self.shards@[i].embedding_fields() == self.shards@[0].embedding_fields()
    }

    /// The index settings of the shards: metric, `m`, `ef_construction` and
    /// `ef_search`.
    pub closed spec fn settings(&self) -> (Metric, usize, usize, usize) {
        self.shards@[0].index_settings()
    }

    /// The embedding source field, if any, and target field of the shards.
    pub closed spec fn embedding(&self) -> (Option<Seq<char>>, Seq<char>) {
        self.shards@[0].embedding_fields()
    }

    /// An index of `max(num_shards, 1)` empty shards numbered from 0.
    pub fn new(
        num_shards: usize,
        dimensions: usize,
        metric: Metric,
        m: usize,
        ef_construction: usize,
        ef_search: usize,
        embedding_source_field: Option<String>,
        embedding_target_field: String,
        shard_oversample_bits: u32,
    ) -> (r: Self)
        ensures
            r.wf(),
            r.shard_count() == (if num_shards == 0 { 1 } else { num_shards }),
            r.dims() == dimensions,
            r.oversample_bits() == shard_oversample_bits,
            r.settings() == (metric, m, ef_construction, ef_search),
            r.embedding() == (
                match embedding_source_field {
                    Some(s) => Some(s@),
                    None => None,
                },
                embedding_target_field@,
            ),
            forall|i: int| 0 <= i < r.shard_count() ==> #[trigger] r.views()[i] == seq![fresh_segment(0, dimensions, metric)],
    {
        let n = if num_shards == 0 {
            1
        } else {
            num_shards
        };
        let mut shards: Vec<VectorShard> = Vec::new();
        let mut i: usize = 0;
        while i < n
            invariant
                i <= n,
                shards.len() == i,
                forall|j: int| 0 <= j < i ==> (#[trigger] shards@[j]).wf() && shards@[j].dims() == dimensions
                    && shards@[j].segs() == seq![fresh_segment(0, dimensions, metric)]
                    && shards@[j].id() == j as u32
                    && shards@[j].index_settings() == (metric, m, ef_construction, ef_search)
                    && shards@[j].embedding_fields() == (
                    match embedding_source_field {
                        Some(s) => Some(s@),
                        None => None,
                    },
                    embedding_target_field@,
                ),
            decreases n - i,
        {
            let source = match &embedding_source_field {
                Some(s) => Some(s.clone()),
                None => None,
            };
            let shard = VectorShard::new(
                i as u32,
                dimensions,
                metric,
                m,
                ef_construction,
                ef_search,
                source,
                embedding_target_field.clone(),
            );
            shards.push(shard);
            i = i + 1;
        }
        ShardedVectorIndex { shards, num_shards: n, shard_oversample_bits }
    }

    pub fn num_shards(&self) -> (r: usize)
        ensures
            r == self.shard_count(),
    {
        self.num_shards
    }

    /// The shard factor for oversampling, as `f32` bits.
    pub fn shard_oversample_bits(&self) -> (r: u32)
        ensures
            r == self.oversample_bits(),
    {
        self.shard_oversample_bits
    }

    /// The vector dimensions of the index.
    pub fn dimensions(&self) -> (r: usize)
        requires
            self.wf(),
        ensures
            r == self.dims(),
    {
        self.shards[0].dimensions()
    }

    /// The field embeddings are made from, if any.
    pub fn embedding_source_field(&self) -> (r: Option<String>)
        requires
            self.wf(),
        ensures
            (match r {
                Some(s) => Some(s@),
                None => None,
            }) == self.embedding().0,
    {
        self.shards[0].embedding_source_field()
    }

    /// The field embeddings are stored in.
    pub fn embedding_target_field(&self) -> (r: String)
        requires
            self.wf(),
        ensures
            r@ == self.embedding().1,
    {
        self.shards[0].embedding_target_field()
    }

    /// The shard with the given number.
    pub fn shard(&self, i: usize) -> (r: &VectorShard)
        requires
            self.wf(),
            i < self.shard_count(),
        ensures
            r.wf(),
            r.segs() == self.views()[i as int],
    {
        &self.shards[i]
    }

    /// Index one document in the shard its id hashes to. A vector whose
    /// length is not the index's dimensions is refused with a schema error
    /// and nothing changes.
    pub fn index_one(&mut self, doc_id: &str, vector: &[u32], fields: String) -> (r: Result<(), Error>)
        requires
            old(self).wf(),
        ensures
            final(self).wf(),
            final(self).shard_count() == old(self).shard_count(),
            final(self).dims() == old(self).dims(),
            final(self).oversample_bits() == old(self).oversample_bits(),
            final(self).settings() == old(self).settings(),
            final(self).embedding() == old(self).embedding(),
            vector@.len() != old(self).dims() ==> (r matches Err(e) && e matches Error::Schema(m) && m@
                == dimension_message(old(self).dims() as nat, vector@.len()) && final(self).views()
                == old(self).views()),
            vector@.len() == old(self).dims() ==> r is Ok && final(self).views() == old(self).views().update(
                shard_of(doc_id@, old(self).shard_count()) as int,
                indexed(old(self).views()[shard_of(doc_id@, old(self).shard_count()) as int], doc_id@, fields@),
            ),
    {
        let dims = self.shards[0].dimensions();
        if vector.len() != dims {
            let mut v = chars_of("Expected ");
            let mut a = decimal_chars(dims as u64);
            v.append(&mut a);
            let mut b = chars_of(" dimensions, got ");
            v.append(&mut b);
            let mut c = decimal_chars(vector.len() as u64);
            v.append(&mut c);
            proof {
                assert(v@ =~= dimension_message(dims as nat, vector@.len()));
            }
            return Err(Error::Schema(string_from_chars(&v)));
        }
        let s = shard_for_doc(doc_id, self.num_shards) as usize;
        let ghost ov = self.views();
        let mut shard = self.shards.remove(s);
        let _ = shard.index(doc_id, vector, fields);
        self.shards.insert(s, shard);
        proof {
            assert(self.views() =~= ov.update(s as int, indexed(ov[s as int], doc_id@, fields@)));
        }
        Ok(())
    }
}

impl ShardedVectorIndex {
    /// Index documents in order, each in the shard its id hashes to. The
    /// first document whose vector length is not the index's dimensions
    /// stops the run with a schema error; the documents before it stay
    /// indexed.
    pub fn index_docs(&mut self, docs: Vec<VectorDoc>) -> (r: Result<(), Error>)
        requires
            old(self).wf(),
        ensures
            final(self).wf(),
            final(self).shard_count() == old(self).shard_count(),
            final(self).dims() == old(self).dims(),
            final(self).oversample_bits() == old(self).oversample_bits(),
            final(self).settings() == old(self).settings(),
            final(self).embedding() == old(self).embedding(),
            r is Ok <==> forall|i: int| 0 <= i < docs@.len() ==> (#[trigger] docs@[i])@.dims == old(self).dims(),
            r is Ok ==> final(self).views() == index_prefix(old(self).views(), doc_views(docs@), old(self).shard_count()),
            r matches Err(e) ==> exists|k: int|
                0 <= k < docs@.len() && (#[trigger] docs@[k])@.dims != old(self).dims()
                    && (forall|j: int| 0 <= j < k ==> (#[trigger] docs@[j])@.dims == old(self).dims())
                    && (e matches Error::Schema(m) && m@ == dimension_message(old(self).dims() as nat, docs@[k]@.dims))
                    && final(self).views() == index_prefix(
                    old(self).views(),
                    doc_views(docs@.take(k)),
                    old(self).shard_count(),
                ),
    {
        let ghost dv = doc_views(docs@);
        let ghost d0 = docs@;
        let mut rest = docs;
        let mut i: usize = 0;
        let n = rest.len();
        while rest.len() > 0
            invariant
                self.wf(),
                self.shard_count() == old(self).shard_count(),
                self.dims() == old(self).dims(),
                self.oversample_bits() == old(self).oversample_bits(),
                self.settings() == old(self).settings(),
                self.embedding() == old(self).embedding(),
                n == d0.len(),
                d0 == docs@,
                i + rest.len() == n,
                rest@ == d0.skip(i as int),
                forall|j: int| 0 <= j < i ==> (#[trigger] d0[j])@.dims == old(self).dims(),
                dv == doc_views(d0),
                self.views() == index_prefix(old(self).views(), doc_views(d0.take(i as int)), old(self).shard_count()),
            decreases rest.len(),
        {
            let d = rest.remove(0);
            proof {
                assert(d == d0[i as int]);
            }
            let VectorDoc { id, vector, fields } = d;
            let r = self.index_one(id.as_str(), vector.as_slice(), fields);
            proof {
                assert(doc_views(d0.take(i as int + 1)).drop_last() =~= doc_views(d0.take(i as int)));
                assert(doc_views(d0.take(i as int + 1)).last() == d0[i as int]@);
            }
            match r {
                Err(e) => {
                    proof {
                        assert(docs@[i as int]@.dims != old(self).dims());
                        assert(forall|j: int| 0 <= j < i ==> (#[trigger] docs@[j])@.dims == old(self).dims());
                    }
                    return Err(e);
                },
                Ok(()) => {},
            }
            i = i + 1;
        }
        proof {
            assert(d0.take(n as int) =~= d0);
        }
        Ok(())
    }

    /// The fields of a document, looked up in the shard its id hashes to.
    pub fn get(&self, doc_id: &str) -> (r: Option<String>)
        requires
            self.wf(),
        ensures
            ({
                let segs = self.views()[shard_of(doc_id@, self.shard_count()) as int];
                match r {
                    None => forall|i: int| 0 <= i < segs.len() ==> !(#[trigger] segs[i]).live.contains_key(doc_id@),
                    Some(f) => exists|i: int|
                        0 <= i < segs.len() && (#[trigger] segs[i]).live.contains_key(doc_id@) && f@ == segs[i].live[doc_id@].1
                            && forall|j: int| 0 <= j < i ==> !(#[trigger] segs[j]).live.contains_key(doc_id@),
                }
            }),
    {
        let s = shard_for_doc(doc_id, self.num_shards) as usize;
        self.shards[s].get(doc_id)
    }

    /// Delete documents, each from the shard its id hashes to.
    pub fn delete(&mut self, ids: &Vec<String>)
        requires
            old(self).wf(),
        ensures
            final(self).wf(),
            final(self).shard_count() == old(self).shard_count(),
            final(self).dims() == old(self).dims(),
            final(self).oversample_bits() == old(self).oversample_bits(),
            final(self).settings() == old(self).settings(),
            final(self).embedding() == old(self).embedding(),
            final(self).views() == delete_prefix(
                old(self).views(),
                ids@.map_values(|x: String| x@),
                old(self).shard_count(),
            ),
    {
        let ghost iv = ids@.map_values(|x: String| x@);
        let mut i: usize = 0;
        while i < ids.len()
            invariant
                self.wf(),
                self.shard_count() == old(self).shard_count(),
                self.dims() == old(self).dims(),
                self.oversample_bits() == old(self).oversample_bits(),
                self.settings() == old(self).settings(),
                self.embedding() == old(self).embedding(),
                i <= ids.len(),
                iv == ids@.map_values(|x: String| x@),
                self.views() == delete_prefix(old(self).views(), iv.take(i as int), old(self).shard_count()),
            decreases ids.len() - i,
        {
            let id = ids[i].as_str();
            let s = shard_for_doc(id, self.num_shards) as usize;
            let ghost ov = self.views();
            let mut shard = self.shards.remove(s);
            let _ = shard.delete(id);
            self.shards.insert(s, shard);
            proof {
                assert(self.views() =~= ov.update(s as int, tombstoned_all(ov[s as int], id@)));
                assert(iv.take(i as int + 1).drop_last() =~= iv.take(i as int));
                assert(iv.take(i as int + 1).last() == id@);
            }
            i = i + 1;
        }
        proof {
            assert(iv.take(ids.len() as int) =~= iv);
        }
    }
}

proof fn lemma_shards_prefix(v: Seq<Seq<SegView>>, i: int)
    requires
        0 <= i <= v.len(),
    ensures
        shards_live(v.take(i)) <= shards_live(v),
        i < v.len() ==> shards_live(v.take(i + 1)) == shards_live(v.take(i)) + live_sum(v[i]),
    decreases v.len() - i,
{
    if i < v.len() {
        assert(v.take(i + 1).drop_last() =~= v.take(i));
        lemma_shards_prefix(v, i + 1);
    } else {
        assert(v.take(i) =~= v);
    }
}

impl ShardedVectorIndex {
    /// Live documents over all shards.
    pub fn document_count(&self) -> (r: usize)
        requires
            self.wf(),
            shards_live(self.views()) <= usize::MAX,
        ensures
            r == shards_live(self.views()),
    {
        let ghost v = self.views();
        let mut total: usize = 0;
        let mut i: usize = 0;
        while i < self.shards.len()
            invariant
                self.wf(),
                v == self.views(),
                i <= self.shards.len(),
                total == shards_live(v.take(i as int)),
                shards_live(v) <= usize::MAX,
            decreases self.shards.len() - i,
        {
            proof {
                lemma_shards_prefix(v, i as int);
                lemma_shards_prefix(v, i as int + 1);
                assert(v[i as int] == self.shards@[i as int].segs());
            }
            let c = self.shards[i].live_count();
            total = total + c as usize;
            i = i + 1;
        }
        proof {
            assert(v.take(v.len() as int) =~= v);
        }
        total
    }
}

/// Law: after a document is indexed, the shard its id hashes to gives its
/// fields back: its open segment holds it live with those fields, and no
/// other segment holds it.
pub proof fn lemma_read_after_index(v: Seq<Seq<SegView>>, doc: Seq<char>, fields: Seq<char>, n: usize)
    requires
        n > 0,
        v.len() == n,
        forall|i: int| 0 <= i < v.len() ==> (#[trigger] v[i]).len() > 0,
    ensures
        ({
            let s = shard_of(doc, n) as int;
            let after = v.update(s, indexed(v[s], doc, fields));
            &&& after[s][0].live.contains_key(doc)
            &&& after[s][0].live[doc].1 == fields
            &&& forall|i: int| 1 <= i < after[s].len() ==> !(#[trigger] after[s][i]).live.contains_key(doc)
        }),
{
    assert(shard_of(doc, n) < n) by {
        assert(crate::vector::default_str_hash(doc) % (n as u64) < n as u64);
    }
}

/// Law: after a document is deleted, no segment of the shard its id hashes
/// to holds it.
pub proof fn lemma_deleted_not_found(v: Seq<Seq<SegView>>, doc: Seq<char>, n: usize)
    requires
        n > 0,
        v.len() == n,
    ensures
        ({
            let s = shard_of(doc, n) as int;
            let after = delete_prefix(v, seq![doc], n);
            forall|i: int| 0 <= i < after[s].len() ==> !(#[trigger] after[s][i]).live.contains_key(doc)
        }),
{
    assert(seq![doc].drop_last() =~= Seq::<Seq<char>>::empty());
    assert(shard_of(doc, n) < n) by {
        assert(crate::vector::default_str_hash(doc) % (n as u64) < n as u64);
    }
    let s = shard_of(doc, n) as int;
    let t = tombstoned_all(v[s], doc);
    assert(delete_prefix(v, Seq::<Seq<char>>::empty(), n) == v);
    assert(delete_prefix(v, seq![doc], n) == v.update(s, t));
    assert forall|i: int| 0 <= i < t.len() implies !(#[trigger] t[i]).live.contains_key(doc) by {
        assert(t[i] == tombstoned(v[s][i], doc));
    }
}

} // verus!
