//! Aggregations computed over search results: a terms bucket aggregation and
//! count, sum, average, min and max metrics. Each aggregation has three
//! stages: the request (`*Agg`), its prepared form (`*Prepared`), and the
//! per-segment collector (`*Segment`); partial results (`*Fruit`) of
//! segments are merged by the prepared form. Metric values read from fast
//! fields are `u64`, and their sums are kept exactly.

use crate::config::owned;
use crate::keyed::{has_key, keyed_map, lemma_keyed_at, lemma_keyed_push, lemma_keyed_update, unique_keys};
use crate::textutil::chars_of;
use vstd::prelude::*;

verus! {

// ---------------------------------------------------------------------------
// Order of strings
// ---------------------------------------------------------------------------

/// `a` sorts before `b`, comparing from position `i` on (the characters
/// before `i` being equal).
pub open spec fn str_lt_from(a: Seq<char>, b: Seq<char>, i: int) -> bool
    decreases a.len() - i,
{
    if i < 0 || i >= a.len() {
        0 <= i < b.len()
    } else if i >= b.len() {
        false
    } else if a[i] != b[i] {
        a[i] < b[i]
    } else {
        str_lt_from(a, b, i + 1)
    }
}

/// The order of `String`: lexicographic by characters (which for UTF-8 is
/// the order of the bytes).
pub open spec fn str_lt(a: Seq<char>, b: Seq<char>) -> bool {
    str_lt_from(a, b, 0)
}

proof fn lemma_str_lt_irreflexive(a: Seq<char>, i: int)
    requires
        0 <= i <= a.len(),
    ensures
        !str_lt_from(a, a, i),
    decreases a.len() - i,
{
    if i < a.len() {
        lemma_str_lt_irreflexive(a, i + 1);
    }
}

proof fn lemma_str_lt_transitive(a: Seq<char>, b: Seq<char>, c: Seq<char>, i: int)
    requires
        0 <= i,
        str_lt_from(a, b, i),
        str_lt_from(b, c, i),
    ensures
        str_lt_from(a, c, i),
    decreases a.len() - i,
{
    if i < a.len() && i < b.len() && i < c.len() && a[i] == b[i] && b[i] == c[i] {
        lemma_str_lt_transitive(a, b, c, i + 1);
    }
}

proof fn lemma_str_lt_total(a: Seq<char>, b: Seq<char>, i: int)
    requires
        0 <= i <= a.len(),
        i <= b.len(),
        a.subrange(0, i) == b.subrange(0, i),
        a != b,
    ensures
        str_lt_from(a, b, i) || str_lt_from(b, a, i),
    decreases a.len() - i,
{
    if i < a.len() && i < b.len() && a[i] == b[i] {
        assert(a.subrange(0, i + 1) =~= a.subrange(0, i).push(a[i]));
        assert(b.subrange(0, i + 1) =~= b.subrange(0, i).push(b[i]));
        lemma_str_lt_total(a, b, i + 1);
    } else if i == a.len() && i == b.len() {
        assert(a =~= a.subrange(0, i));
        assert(b =~= b.subrange(0, i));
    }
}

/// `String`'s order is a strict total order.
pub proof fn lemma_str_order(a: Seq<char>, b: Seq<char>, c: Seq<char>)
    ensures
        !str_lt(a, a),
        str_lt(a, b) && str_lt(b, c) ==> str_lt(a, c),
        a != b ==> str_lt(a, b) || str_lt(b, a),
        !(str_lt(a, b) && str_lt(b, a)),
{
    lemma_str_lt_irreflexive(a, 0);
    if str_lt(a, b) && str_lt(b, c) {
        lemma_str_lt_transitive(a, b, c, 0);
    }
    if a != b {
        assert(a.subrange(0, 0) =~= b.subrange(0, 0));
        lemma_str_lt_total(a, b, 0);
    }
    if str_lt(a, b) && str_lt(b, a) {
        lemma_str_lt_transitive(a, b, a, 0);
        lemma_str_lt_irreflexive(a, 0);
    }
}

/// Compare two strings as `String`'s `<` does.
pub fn string_less(a: &String, b: &String) -> (r: bool)
    ensures
        r == str_lt(a@, b@),
{
    let x = chars_of(a.as_str());
    let y = chars_of(b.as_str());
    let mut i: usize = 0;
    while i < x.len() && i < y.len()
        invariant
            i <= x.len(),
            i <= y.len(),
            x@ == a@,
            y@ == b@,
            str_lt(a@, b@) == str_lt_from(a@, b@, i as int),
        decreases x.len() - i,
    {
        if x[i] != y[i] {
            return x[i] < y[i];
        }
        i = i + 1;
    }
    i < y.len()
}

// ---------------------------------------------------------------------------
// Term counts
// ---------------------------------------------------------------------------

/// Counts per term, gathered by a terms aggregation.
///
/// The map is kept as a vector of entries with distinct keys (see
/// `keyed`): vstd specifies `HashMap` only for keys it knows to hash and
/// compare faithfully (integers and the like), not for `String`, so a
/// `HashMap<String, _>` would leave these contracts unprovable.
#[derive(Debug, Clone)]
pub struct TermsFruit {
    /// Distinct terms with their counts.
    entries: Vec<(String, u64)>,
}

pub open spec fn term_key() -> spec_fn((Seq<char>, u64)) -> Seq<char> {
    |p: (Seq<char>, u64)| p.0
}

/// The count of `t` in `m`, zero when absent.
pub open spec fn count_or_zero(m: Map<Seq<char>, u64>, t: Seq<char>) -> int {
    if m.contains_key(t) {
        m[t] as int
    } else {
        0
    }
}

/// The counts of `a` and `b` added term by term.
pub open spec fn add_counts(a: Map<Seq<char>, u64>, b: Map<Seq<char>, u64>) -> Map<Seq<char>, u64> {
    Map::new(
        |t: Seq<char>| a.contains_key(t) || b.contains_key(t),
        |t: Seq<char>| (count_or_zero(a, t) + count_or_zero(b, t)) as u64,
    )
}

impl TermsFruit {
    pub closed spec fn pairs(&self) -> Seq<(Seq<char>, u64)> {
        self.entries@.map_values(|e: (String, u64)| (e.0@, e.1))
    }

    /// The count of each term.
    pub open spec fn counts(&self) -> Map<Seq<char>, u64> {
        Map::new(
            |t: Seq<char>| keyed_map(self.pairs(), term_key()).contains_key(t),
            |t: Seq<char>| keyed_map(self.pairs(), term_key())[t].1,
        )
    }

    pub open spec fn wf(&self) -> bool {
        unique_keys(self.pairs(), term_key())
    }

    /// No counts yet.
    pub fn new() -> (r: Self)
        ensures
            r.wf(),
            r.counts() == Map::<Seq<char>, u64>::empty(),
    {
        let r = TermsFruit { entries: Vec::new() };
        assert(r.pairs() =~= Seq::empty());
        assert(r.counts() =~= Map::empty());
        r
    }

    /// The number of distinct terms.
    pub fn len(&self) -> (r: usize)
        requires
            self.wf(),
        ensures
            r == self.counts().dom().len(),
            r == self.pairs().len(),
    {
        proof {
            crate::keyed::lemma_keyed_len(self.pairs(), term_key());
            assert(self.counts().dom() =~= keyed_map(self.pairs(), term_key()).dom());
        }
        self.entries.len()
    }

    fn find(&self, term: &String) -> (r: Option<usize>)
        requires
            self.wf(),
        ensures
            match r {
                Some(i) => i < self.entries.len() && self.entries@[i as int].0@ == term@,
                None => !self.counts().contains_key(term@),
            },
    {
        let mut i: usize = 0;
        while i < self.entries.len()
            invariant
                i <= self.entries.len(),
                forall|j: int| 0 <= j < i ==> self.entries@[j].0@ != term@,
            decreases self.entries.len() - i,
        {
            if self.entries[i].0 == *term {
                return Some(i);
            }
            i = i + 1;
        }
        proof {
            let ps = self.pairs();
            if has_key(ps, term_key(), term@) {
                let j = choose|j: int| #![trigger ps[j]] 0 <= j < ps.len() && term_key()(ps[j]) == term@;
                assert(ps[j] == (self.entries@[j].0@, self.entries@[j].1));
            }
        }
        None
    }

    /// The count of a term, if it has one.
    pub fn get(&self, term: &str) -> (r: Option<u64>)
        requires
            self.wf(),
        ensures
            match r {
                Some(c) => self.counts().contains_key(term@) && c == self.counts()[term@],
                None => !self.counts().contains_key(term@),
            },
    {
        let key = owned(term);
        match self.find(&key) {
            Some(i) => {
                proof {
                    assert(self.pairs()[i as int] == (self.entries@[i as int].0@, self.entries@[i as int].1));
                    lemma_keyed_at(self.pairs(), term_key(), i as int);
                }
                Some(self.entries[i].1)
            },
            None => None,
        }
    }

    /// Set the count of a term.
    pub fn insert(&mut self, term: &str, count: u64)
        requires
            old(self).wf(),
        ensures
            final(self).wf(),
            final(self).counts() == old(self).counts().insert(term@, count),
    {
        let key = owned(term);
        let ghost ps = self.pairs();
        let ghost p = (term@, count);
        match self.find(&key) {
            Some(i) => {
                self.entries.set(i, (key, count));
                proof {
                    assert(self.pairs() =~= ps.update(i as int, p));
                    assert(ps[i as int] == (old(self).entries@[i as int].0@, old(self).entries@[i as int].1));
                    lemma_keyed_update(ps, term_key(), i as int, p);
                }
            },
            None => {
                self.entries.push((key, count));
                proof {
                    assert(self.pairs() =~= ps.push(p));
                    assert(!keyed_map(ps, term_key()).contains_key(term@));
                    lemma_keyed_push(ps, term_key(), p);
                }
            },
        }
        assert(self.counts() =~= old(self).counts().insert(term@, count));
    }

    /// Add `count` to the count of a term (absent terms count zero).
    fn add(&mut self, term: &String, count: u64)
        requires
            old(self).wf(),
            count_or_zero(old(self).counts(), term@) + count <= u64::MAX,
        ensures
            final(self).wf(),
            final(self).counts() == old(self).counts().insert(
                term@,
                (count_or_zero(old(self).counts(), term@) + count) as u64,
            ),
    {
        let ghost ps = self.pairs();
        let ghost newc = (count_or_zero(old(self).counts(), term@) + count) as u64;
        let ghost p = (term@, newc);
        match self.find(term) {
            Some(i) => {
                let c = self.entries[i].1;
                proof {
                    assert(ps[i as int] == (old(self).entries@[i as int].0@, old(self).entries@[i as int].1));
                    lemma_keyed_at(ps, term_key(), i as int);
                }
                self.entries.set(i, (term.clone(), c + count));
                proof {
                    assert(self.pairs() =~= ps.update(i as int, p));
                    lemma_keyed_update(ps, term_key(), i as int, p);
                }
            },
            None => {
                self.entries.push((term.clone(), count));
                proof {
                    assert(self.pairs() =~= ps.push(p));
                    assert(!keyed_map(ps, term_key()).contains_key(term@));
                    lemma_keyed_push(ps, term_key(), p);
                }
            },
        }
        assert(self.counts() =~= old(self).counts().insert(term@, newc));
    }

    /// A copy of these counts.
    pub fn copy(&self) -> (r: Self)
        requires
            self.wf(),
        ensures
            r.wf(),
            r.counts() == self.counts(),
    {
        let mut v: Vec<(String, u64)> = Vec::new();
        let mut i: usize = 0;
        while i < self.entries.len()
            invariant
                i <= self.entries.len(),
                v@.map_values(|e: (String, u64)| (e.0@, e.1)) == self.pairs().take(i as int),
            decreases self.entries.len() - i,
        {
            let ghost before = v@;
            v.push((self.entries[i].0.clone(), self.entries[i].1));
            proof {
                assert(v@.map_values(|e: (String, u64)| (e.0@, e.1)) =~= before.map_values(
                    |e: (String, u64)| (e.0@, e.1),
                ).push(self.pairs()[i as int]));
                assert(self.pairs().take(i + 1) =~= self.pairs().take(i as int).push(self.pairs()[i as int]));
            }
            i = i + 1;
        }
        let r = TermsFruit { entries: v };
        proof {
            assert(self.pairs().take(i as int) =~= self.pairs());
            assert(r.pairs() =~= self.pairs());
            assert(r.counts() =~= self.counts());
        }
        r
    }
}

impl Default for TermsFruit {
    fn default() -> (r: Self)
        ensures
            r.wf(),
            r.counts() == Map::<Seq<char>, u64>::empty(),
    {
        TermsFruit::new()
    }
}

// ---------------------------------------------------------------------------
// Choosing the buckets of a terms aggregation
// ---------------------------------------------------------------------------

/// Term/count pairs by their characters.
pub open spec fn pair_views(v: Seq<(String, u64)>) -> Seq<(Seq<char>, u64)> {
    v.map_values(|e: (String, u64)| (e.0@, e.1))
}

/// `(count, term)` of `p` sorts before that of `q`.
pub open spec fn pair_lt(p: (Seq<char>, u64), q: (Seq<char>, u64)) -> bool {
    p.1 < q.1 || (p.1 == q.1 && str_lt(p.0, q.0))
}

/// `p` comes before `q` among buckets: the higher count first, then the
/// smaller term.
pub open spec fn bucket_before(p: (Seq<char>, u64), q: (Seq<char>, u64)) -> bool {
    p.1 > q.1 || (p.1 == q.1 && str_lt(p.0, q.0))
}

fn pair_less(p: &(String, u64), q: &(String, u64)) -> (r: bool)
    ensures
        r == pair_lt((p.0@, p.1), (q.0@, q.1)),
{
    p.1 < q.1 || (p.1 == q.1 && string_less(&p.0, &q.0))
}

fn copy_pair(p: &(String, u64)) -> (r: (String, u64))
    ensures
        r.0@ == p.0@,
        r.1 == p.1,
{
    (p.0.clone(), p.1)
}

/// The order used to choose buckets: by `(count, term)` ascending, or (when
/// `desc`) by count descending and then term.
pub open spec fn rank_lt(desc: bool, p: (Seq<char>, u64), q: (Seq<char>, u64)) -> bool {
    if desc {
        bucket_before(p, q)
    } else {
        pair_lt(p, q)
    }
}

fn rank_less(desc: bool, p: &(String, u64), q: &(String, u64)) -> (r: bool)
    ensures
        r == rank_lt(desc, (p.0@, p.1), (q.0@, q.1)),
{
    if desc {
        p.1 > q.1 || (p.1 == q.1 && string_less(&p.0, &q.0))
    } else {
        pair_less(p, q)
    }
}

proof fn lemma_rank_order(desc: bool, p: (Seq<char>, u64), q: (Seq<char>, u64), x: (Seq<char>, u64))
    ensures
        !rank_lt(desc, p, p),
        rank_lt(desc, p, q) && rank_lt(desc, q, x) ==> rank_lt(desc, p, x),
        p != q ==> rank_lt(desc, p, q) || rank_lt(desc, q, p),
        !(rank_lt(desc, p, q) && rank_lt(desc, q, p)),
{
    lemma_pair_order(p, q, x);
    lemma_str_order(p.0, q.0, x.0);
    lemma_str_order(q.0, p.0, x.0);
    if p.0 == q.0 && p.1 == q.1 {
        assert(p == q);
    }
}

proof fn lemma_pair_order(p: (Seq<char>, u64), q: (Seq<char>, u64), x: (Seq<char>, u64))
    ensures
        !pair_lt(p, p),
        pair_lt(p, q) && pair_lt(q, x) ==> pair_lt(p, x),
        p != q ==> pair_lt(p, q) || pair_lt(q, p),
        !(pair_lt(p, q) && pair_lt(q, p)),
{
    lemma_str_order(p.0, q.0, x.0);
    lemma_str_order(q.0, p.0, x.0);
    if p.0 == q.0 && p.1 == q.1 {
        assert(p == q);
    }
}

/// The `k` first pairs of `v` in the order `rank_lt(desc, _, _)`, in that
/// order.
fn smallest_pairs(v: &Vec<(String, u64)>, k: usize, desc: bool) -> (r: Vec<(String, u64)>)
    requires
        k <= v.len(),
        unique_keys(pair_views(v@), term_key()),
    ensures
        r.len() == k,
        forall|a: int| #![trigger r@[a]] 0 <= a < r.len() ==> pair_views(v@).contains(pair_views(r@)[a]),
        forall|a: int, b: int| 0 <= a < b < r.len() ==> rank_lt(desc, pair_views(r@)[a], pair_views(r@)[b]),
        forall|a: int, j: int|
            #![trigger r@[a], v@[j]]
            0 <= a < r.len() && 0 <= j < v.len() && !pair_views(r@).contains(pair_views(v@)[j]) ==> rank_lt(desc, 
                pair_views(r@)[a],
                pair_views(v@)[j],
            ),
{
    let ghost ps = pair_views(v@);
    let mut rest: Vec<(String, u64)> = Vec::new();
    let mut i: usize = 0;
    while i < v.len()
        invariant
            i <= v.len(),
            ps == pair_views(v@),
            pair_views(rest@) == ps.take(i as int),
        decreases v.len() - i,
    {
        let ghost before = rest@;
        rest.push(copy_pair(&v[i]));
        proof {
            assert(pair_views(rest@) =~= pair_views(before).push(ps[i as int]));
            assert(ps.take(i + 1) =~= ps.take(i as int).push(ps[i as int]));
        }
        i = i + 1;
    }
    proof {
        assert(ps.take(v.len() as int) =~= ps);
    }
    let mut chosen: Vec<(String, u64)> = Vec::new();
    while chosen.len() < k
        invariant
            k <= v.len(),
            ps == pair_views(v@),
            unique_keys(ps, term_key()),
            chosen.len() <= k,
            rest.len() + chosen.len() == v.len(),
            forall|x: (Seq<char>, u64)| ps.contains(x) ==> pair_views(chosen@).contains(x) || pair_views(
                rest@,
            ).contains(x),
            forall|a: int| 0 <= a < rest.len() ==> ps.contains(#[trigger] pair_views(rest@)[a]),
            forall|a: int| 0 <= a < chosen.len() ==> ps.contains(#[trigger] pair_views(chosen@)[a]),
            forall|a: int, b: int|
                0 <= a < rest.len() && 0 <= b < rest.len() && a != b ==> pair_views(rest@)[a] != pair_views(
                    rest@,
                )[b],
            forall|a: int, b: int|
                0 <= a < chosen.len() && 0 <= b < rest.len() ==> rank_lt(desc, 
                    pair_views(chosen@)[a],
                    pair_views(rest@)[b],
                ),
            forall|a: int, b: int|
                0 <= a < b < chosen.len() ==> rank_lt(desc, pair_views(chosen@)[a], pair_views(chosen@)[b]),
        decreases k - chosen.len(),
    {
        let ghost rv = pair_views(rest@);
        let ghost cv = pair_views(chosen@);
        let mut m: usize = 0;
        let mut j: usize = 1;
        while j < rest.len()
            invariant
                rest.len() > 0,
                m < rest.len(),
                1 <= j <= rest.len(),
                m < j,
                rv == pair_views(rest@),
                forall|b: int| 0 <= b < j && b != m ==> rank_lt(desc, rv[m as int], #[trigger] rv[b]),
                forall|a: int, b: int| 0 <= a < rest.len() && 0 <= b < rest.len() && a != b ==> rv[a] != rv[b],
            decreases rest.len() - j,
        {
            if rank_less(desc, &rest[j], &rest[m]) {
                proof {
                    assert forall|b: int| 0 <= b < j + 1 && b != j implies rank_lt(desc, rv[j as int], #[trigger] rv[b]) by {
                        if b != m {
                            lemma_rank_order(desc, rv[j as int], rv[m as int], rv[b]);
                        }
                    }
                }
                m = j;
            } else {
                proof {
                    lemma_rank_order(desc, rv[j as int], rv[m as int], rv[m as int]);
                    assert(rv[j as int] != rv[m as int]);
                }
            }
            j = j + 1;
        }
        let picked = rest.remove(m);
        let ghost x = rv[m as int];
        chosen.push(picked);
        proof {
            let rv2 = pair_views(rest@);
            let cv2 = pair_views(chosen@);
            assert(rv2 =~= rv.remove(m as int));
            assert(cv2 =~= cv.push(x));
            assert forall|y: (Seq<char>, u64)| ps.contains(y) implies cv2.contains(y) || rv2.contains(y) by {
                if cv.contains(y) {
                    let a = choose|a: int| 0 <= a < cv.len() && cv[a] == y;
                    assert(cv2[a] == y);
                } else {
                    let a = choose|a: int| 0 <= a < rv.len() && rv[a] == y;
                    if a == m {
                        assert(cv2[cv.len() as int] == y);
                    } else if a < m {
                        assert(rv2[a] == y);
                    } else {
                        assert(rv2[a - 1] == y);
                    }
                }
            }
            assert forall|a: int| 0 <= a < rest.len() implies ps.contains(#[trigger] rv2[a]) by {
                if a < m {
                    assert(rv2[a] == rv[a]);
                } else {
                    assert(rv2[a] == rv[a + 1]);
                }
            }
            assert forall|a: int| 0 <= a < chosen.len() implies ps.contains(#[trigger] cv2[a]) by {
                if a < cv.len() {
                    assert(cv2[a] == cv[a]);
                }
            }
            assert forall|a: int, b: int|
                0 <= a < rest.len() && 0 <= b < rest.len() && a != b implies rv2[a] != rv2[b] by {
                let a2 = if a < m {
                    a
                } else {
                    a + 1
                };
                let b2 = if b < m {
                    b
                } else {
                    b + 1
                };
                assert(rv2[a] == rv[a2] && rv2[b] == rv[b2]);
            }
            assert forall|a: int, b: int| 0 <= a < chosen.len() && 0 <= b < rest.len() implies rank_lt(desc, 
                cv2[a],
                rv2[b],
            ) by {
                let b2 = if b < m {
                    b
                } else {
                    b + 1
                };
                assert(rv2[b] == rv[b2]);
                if a < cv.len() {
                    assert(cv2[a] == cv[a]);
                } else {
                    assert(cv2[a] == x);
                    assert(b2 != m);
                }
            }
            assert forall|a: int, b: int| 0 <= a < b < chosen.len() implies rank_lt(desc, cv2[a], cv2[b]) by {
                assert(cv2[a] == cv[a]);
                if b < cv.len() {
                    assert(cv2[b] == cv[b]);
                } else {
                    assert(cv2[b] == x);
                }
            }
        }
    }
    proof {
        let cv = pair_views(chosen@);
        let rv = pair_views(rest@);
        assert forall|a: int, j: int|
            #![trigger chosen@[a], v@[j]]
            0 <= a < chosen.len() && 0 <= j < v.len() && !cv.contains(ps[j]) implies rank_lt(desc, cv[a], ps[j]) by {
            assert(ps.contains(ps[j]));
            let b = choose|b: int| 0 <= b < rv.len() && rv[b] == ps[j];
        }
    }
    chosen
}

/// Reorder pairs sorted by `(count, term)` into bucket order: the higher
/// count first, then the smaller term.
fn bucket_order(a: &Vec<(String, u64)>) -> (r: Vec<(String, u64)>)
    requires
        forall|i: int, j: int| 0 <= i < j < a.len() ==> pair_lt(pair_views(a@)[i], pair_views(a@)[j]),
    ensures
        r.len() == a.len(),
        forall|x: (Seq<char>, u64)| pair_views(r@).contains(x) <==> pair_views(a@).contains(x),
        forall|i: int, j: int| 0 <= i < j < r.len() ==> bucket_before(pair_views(r@)[i], pair_views(r@)[j]),
{
    let ghost av = pair_views(a@);
    let mut out: Vec<(String, u64)> = Vec::new();
    let mut hi: usize = a.len();
    while hi > 0
        invariant
            hi <= a.len(),
            av == pair_views(a@),
            forall|i: int, j: int| 0 <= i < j < a.len() ==> pair_lt(av[i], av[j]),
            out.len() == a.len() - hi,
            forall|x: (Seq<char>, u64)| pair_views(out@).contains(x) <==> av.subrange(hi as int, a.len() as int).contains(
                x,
            ),
            forall|i: int, j: int| 0 <= i < j < out.len() ==> bucket_before(pair_views(out@)[i], pair_views(out@)[j]),
            forall|i: int, x: int| 0 <= i < out.len() && 0 <= x < hi ==> av[x].1 < pair_views(out@)[i].1,
        decreases hi,
    {
        let c = a[hi - 1].1;
        let mut lo: usize = hi - 1;
        while lo > 0 && a[lo - 1].1 == c
            invariant
                lo < hi,
                hi <= a.len(),
                c == av[hi - 1].1,
                av == pair_views(a@),
                forall|y: int| lo <= y < hi ==> #[trigger] av[y].1 == c,
            decreases lo,
        {
            lo = lo - 1;
        }
        proof {
            assert forall|x: int| 0 <= x < lo implies #[trigger] av[x].1 < c by {
                assert(av[lo - 1].1 != c);
                assert(pair_lt(av[lo - 1], av[lo as int]));
                if x < lo - 1 {
                    assert(pair_lt(av[x], av[lo - 1]));
                }
            }
        }
        let ghost before = pair_views(out@);
        let mut y: usize = lo;
        while y < hi
            invariant
                lo <= y <= hi,
                hi <= a.len(),
                av == pair_views(a@),
                forall|i: int, j: int| 0 <= i < j < a.len() ==> pair_lt(av[i], av[j]),
                forall|z: int| lo <= z < hi ==> #[trigger] av[z].1 == c,
                forall|x: int| 0 <= x < lo ==> #[trigger] av[x].1 < c,
                pair_views(out@) == before + av.subrange(lo as int, y as int),
                forall|i: int| 0 <= i < before.len() ==> c < #[trigger] before[i].1,
                forall|i: int, j: int| 0 <= i < j < before.len() ==> bucket_before(before[i], before[j]),
            decreases hi - y,
        {
            let ghost prev = out@;
            out.push(copy_pair(&a[y]));
            proof {
                assert(pair_views(out@) =~= pair_views(prev).push(av[y as int]));
                assert(av.subrange(lo as int, y + 1) =~= av.subrange(lo as int, y as int).push(av[y as int]));
            }
            y = y + 1;
        }
        proof {
            let ov = pair_views(out@);
            let g = av.subrange(lo as int, hi as int);
            assert(ov == before + g);
            assert forall|i: int, j: int| 0 <= i < j < out.len() implies bucket_before(ov[i], ov[j]) by {
                if j < before.len() {
                    assert(ov[i] == before[i] && ov[j] == before[j]);
                } else if i < before.len() {
                    assert(ov[i] == before[i]);
                    assert(ov[j] == av[lo + j - before.len()]);
                } else {
                    assert(ov[i] == av[lo + i - before.len()]);
                    assert(ov[j] == av[lo + j - before.len()]);
                    assert(pair_lt(av[lo + i - before.len()], av[lo + j - before.len()]));
                }
            }
            assert forall|i: int, x: int| 0 <= i < out.len() && 0 <= x < lo implies av[x].1 < ov[i].1 by {
                if i < before.len() {
                    assert(ov[i] == before[i]);
                } else {
                    assert(ov[i] == av[lo + i - before.len()]);
                }
            }
            assert forall|x: (Seq<char>, u64)| ov.contains(x) <==> av.subrange(lo as int, a.len() as int).contains(x) by {
                let tailv = av.subrange(hi as int, a.len() as int);
                let all = av.subrange(lo as int, a.len() as int);
                if ov.contains(x) {
                    let i = choose|i: int| 0 <= i < ov.len() && ov[i] == x;
                    if i < before.len() {
                        assert(before.contains(x));
                        let t = choose|t: int| 0 <= t < tailv.len() && tailv[t] == x;
                        assert(all[t + hi - lo] == x);
                    } else {
                        assert(all[i - before.len()] == x);
                    }
                }
                if all.contains(x) {
                    let t = choose|t: int| 0 <= t < all.len() && all[t] == x;
                    if t < hi - lo {
                        assert(ov[before.len() + t] == x);
                    } else {
                        assert(tailv[t - (hi - lo)] == x);
                        assert(before.contains(x));
                        let i = choose|i: int| 0 <= i < before.len() && before[i] == x;
                        assert(ov[i] == x);
                    }
                }
            }
        }
        hi = lo;
    }
    proof {
        assert(av.subrange(0, a.len() as int) =~= av);
    }
    out
}

// ---------------------------------------------------------------------------
// Terms aggregation
// ---------------------------------------------------------------------------

/// One bucket of a terms aggregation.
#[derive(Debug, Clone)]
pub struct TermsBucket {
    pub key: String,
    pub doc_count: u64,
}

/// Bucket term counts of a field.
#[derive(Debug, Clone)]
pub struct TermsAgg {
    field: String,
    size: usize,
}

/// A terms aggregation ready to collect.
#[derive(Debug, Clone)]
pub struct TermsPrepared {
    field: String,
    size: usize,
}

/// Per-segment collector of a terms aggregation.
#[derive(Debug, Clone)]
pub struct TermsSegment {
    field: String,
    size: usize,
    counts: TermsFruit,
}

/// The views of buckets as term/count pairs.
pub open spec fn bucket_views(v: Seq<TermsBucket>) -> Seq<(Seq<char>, u64)> {
    v.map_values(|b: TermsBucket| (b.key@, b.doc_count))
}

impl TermsAgg {
    /// A terms aggregation over `field` with at most `size` buckets.
    pub fn new(field: &str, size: usize) -> (r: Self)
        ensures
            r.field_name() == field@,
            r.size_limit() == size,
    {
        TermsAgg { field: owned(field), size }
    }

    pub closed spec fn field_name(&self) -> Seq<char> {
        self.field@
    }

    pub closed spec fn size_limit(&self) -> usize {
        self.size
    }

    /// The field aggregated.
    pub fn field(&self) -> (r: &str)
        ensures
            r@ == self.field_name(),
    {
        self.field.as_str()
    }

    /// The maximum number of buckets.
    pub fn size(&self) -> (r: usize)
        ensures
            r == self.size_limit(),
    {
        self.size
    }

    /// Prepare the aggregation for collection.
    pub fn prepare(&self) -> (r: TermsPrepared)
        ensures
            r.field_name() == self.field_name(),
            r.size_limit() == self.size_limit(),
    {
        TermsPrepared { field: self.field.clone(), size: self.size }
    }

    /// The buckets of the collected counts: the `size` pairs that are
    /// smallest by `(count, term)` (all of them when there are fewer), listed
    /// with the higher count first and, among equal counts, the smaller term
    /// first.
    pub fn into_buckets(&self, fruit: &TermsFruit) -> (r: Vec<TermsBucket>)
        requires
            fruit.wf(),
        ensures
            r.len() == (if self.size_limit() < fruit.counts().dom().len() {
                self.size_limit() as nat
            } else {
                fruit.counts().dom().len()
            }),
            forall|i: int|
                #![trigger r@[i]]
                0 <= i < r.len() ==> fruit.counts().contains_key(r@[i].key@) && r@[i].doc_count == fruit.counts()[r@[i].key@],
            forall|i: int, j: int| 0 <= i < j < r.len() ==> bucket_before(bucket_views(r@)[i], bucket_views(r@)[j]),
            forall|i: int, j: int| 0 <= i < j < r.len() ==> r@[i].key@ != r@[j].key@,
            forall|i: int, t: Seq<char>|
                #![trigger r@[i], fruit.counts()[t]]
                0 <= i < r.len() && fruit.counts().contains_key(t) && (forall|j: int| 0 <= j < r.len() ==> r@[j].key@ != t)
                    ==> pair_lt(bucket_views(r@)[i], (t, fruit.counts()[t])),
    {
        let n = fruit.len();
        let k = if self.size < n {
            self.size
        } else {
            n
        };
        let ghost ps = pair_views(fruit.entries@);
        proof {
            assert(ps =~= fruit.pairs());
        }
        let chosen = smallest_pairs(&fruit.entries, k, false);
        assert forall|i: int, j: int| 0 <= i < j < chosen.len() implies pair_lt(
            pair_views(chosen@)[i],
            pair_views(chosen@)[j],
        ) by {
            assert(rank_lt(false, pair_views(chosen@)[i], pair_views(chosen@)[j]));
        }
        let ordered = bucket_order(&chosen);
        let mut r: Vec<TermsBucket> = Vec::new();
        let mut i: usize = 0;
        while i < ordered.len()
            invariant
                i <= ordered.len(),
                bucket_views(r@) == pair_views(ordered@).take(i as int),
            decreases ordered.len() - i,
        {
            let ghost before = r@;
            r.push(TermsBucket { key: ordered[i].0.clone(), doc_count: ordered[i].1 });
            proof {
                assert(bucket_views(r@) =~= bucket_views(before).push(pair_views(ordered@)[i as int]));
                assert(pair_views(ordered@).take(i + 1) =~= pair_views(ordered@).take(i as int).push(
                    pair_views(ordered@)[i as int],
                ));
            }
            i = i + 1;
        }
        proof {
            let m = fruit.counts();
            let rv = bucket_views(r@);
            let cv = pair_views(chosen@);
            let ov = pair_views(ordered@);
            assert(ov.take(ov.len() as int) =~= ov);
            assert(rv == ov);
            // every bucket is a pair of the fruit
            assert forall|i: int| #![trigger r@[i]] 0 <= i < r.len() implies m.contains_key(r@[i].key@)
                && r@[i].doc_count == m[r@[i].key@] by {
                assert(rv[i] == (r@[i].key@, r@[i].doc_count));
                assert(ov.contains(ov[i]));
                let a = choose|a: int| 0 <= a < cv.len() && cv[a] == ov[i];
                assert(chosen@[a] == chosen@[a]);
                assert(ps.contains(cv[a]));
                let j = choose|j: int| 0 <= j < ps.len() && ps[j] == cv[a];
                lemma_keyed_at(ps, term_key(), j);
            }
            assert forall|i: int, j: int| 0 <= i < j < r.len() implies r@[i].key@ != r@[j].key@ by {
                assert(bucket_before(rv[i], rv[j]));
                assert(rv[i] == (r@[i].key@, r@[i].doc_count));
                assert(rv[j] == (r@[j].key@, r@[j].doc_count));
                if r@[i].key@ == r@[j].key@ {
                    lemma_str_order(rv[i].0, rv[j].0, rv[j].0);
                    assert(r@[i].doc_count == m[r@[i].key@]);
                    assert(r@[j].doc_count == m[r@[j].key@]);
                }
            }
            assert forall|i: int, t: Seq<char>|
                #![trigger r@[i], m[t]]
                0 <= i < r.len() && m.contains_key(t) && (forall|j: int| 0 <= j < r.len() ==> r@[j].key@ != t)
                    implies pair_lt(rv[i], (t, m[t])) by {
                let jt = crate::keyed::key_index(ps, term_key(), t);
                assert(has_key(ps, term_key(), t));
                lemma_keyed_at(ps, term_key(), jt);
                assert(ps[jt] == (t, m[t]));
                assert(!cv.contains(ps[jt])) by {
                    if cv.contains(ps[jt]) {
                        assert(ov.contains(ps[jt]));
                        let q = choose|q: int| 0 <= q < ov.len() && ov[q] == ps[jt];
                        assert(rv[q] == (r@[q].key@, r@[q].doc_count));
                    }
                }
                assert(ov.contains(ov[i]));
                let a = choose|a: int| 0 <= a < cv.len() && cv[a] == ov[i];
                assert(chosen@[a] == chosen@[a]);
                assert(fruit.entries@[jt] == fruit.entries@[jt]);
            }
        }
        r
    }
}

impl TermsPrepared {
    pub closed spec fn field_name(&self) -> Seq<char> {
        self.field@
    }

    pub closed spec fn size_limit(&self) -> usize {
        self.size
    }

    /// An empty fruit.
    pub fn create_fruit(&self) -> (r: TermsFruit)
        ensures
            r.wf(),
            r.counts() == Map::<Seq<char>, u64>::empty(),
    {
        TermsFruit::new()
    }

    /// A collector for one segment.
    pub fn for_segment(&self) -> (r: TermsSegment)
        ensures
            r.field_name() == self.field_name(),
            r.size_limit() == self.size_limit(),
            r.wf(),
            r.collected() == Map::<Seq<char>, u64>::empty(),
    {
        TermsSegment { field: self.field.clone(), size: self.size, counts: TermsFruit::new() }
    }

    /// Add the counts of `fruit` into `acc`, term by term.
    pub fn merge(&self, acc: &mut TermsFruit, fruit: TermsFruit)
        requires
            old(acc).wf(),
            fruit.wf(),
            forall|t: Seq<char>| count_or_zero(old(acc).counts(), t) + count_or_zero(fruit.counts(), t) <= u64::MAX,
        ensures
            final(acc).wf(),
            final(acc).counts() == add_counts(old(acc).counts(), fruit.counts()),
    {
        let ghost a0 = acc.counts();
        let ghost fp = fruit.pairs();
        let mut i: usize = 0;
        proof {
            assert(keyed_map(fp.take(0), term_key()) =~= Map::empty());
            assert(add_counts(a0, sub_counts(fp, 0)) =~= a0);
        }
        while i < fruit.entries.len()
            invariant
                i <= fruit.entries.len(),
                fruit.wf(),
                fp == fruit.pairs(),
                acc.wf(),
                forall|t: Seq<char>| count_or_zero(a0, t) + count_or_zero(fruit.counts(), t) <= u64::MAX,
                acc.counts() == add_counts(a0, sub_counts(fp, i as int)),
            decreases fruit.entries.len() - i,
        {
            let ghost p = fp[i as int];
            proof {
                assert(p == (fruit.entries@[i as int].0@, fruit.entries@[i as int].1));
                crate::keyed::lemma_keyed_prefix_step(fp, term_key(), i as int);
                lemma_keyed_at(fp, term_key(), i as int);
                let b = sub_counts(fp, i as int);
                assert(!b.contains_key(p.0));
                assert(sub_counts(fp, i + 1) =~= b.insert(p.0, p.1));
                assert(count_or_zero(fruit.counts(), p.0) == p.1);
                assert(count_or_zero(acc.counts(), p.0) == count_or_zero(a0, p.0));
                assert(add_counts(a0, b.insert(p.0, p.1)) =~= acc.counts().insert(
                    p.0,
                    (count_or_zero(acc.counts(), p.0) + p.1) as u64,
                ));
            }
            acc.add(&fruit.entries[i].0, fruit.entries[i].1);
            i = i + 1;
        }
        proof {
            assert(fp.take(fp.len() as int) =~= fp);
            assert(sub_counts(fp, fp.len() as int) =~= fruit.counts());
        }
    }
}

/// The counts of the first `i` pairs of `fp`.
pub open spec fn sub_counts(fp: Seq<(Seq<char>, u64)>, i: int) -> Map<Seq<char>, u64> {
    Map::new(
        |t: Seq<char>| keyed_map(fp.take(i), term_key()).contains_key(t),
        |t: Seq<char>| keyed_map(fp.take(i), term_key())[t].1,
    )
}

impl Default for TermsPrepared {
    fn default() -> (r: Self)
        ensures
            r.field_name() == Seq::<char>::empty(),
            r.size_limit() == 10,
    {
        TermsPrepared { field: String::new(), size: 10 }
    }
}

impl TermsSegment {
    pub closed spec fn field_name(&self) -> Seq<char> {
        self.field@
    }

    pub closed spec fn size_limit(&self) -> usize {
        self.size
    }

    pub closed spec fn collected(&self) -> Map<Seq<char>, u64> {
        self.counts.counts()
    }

    pub closed spec fn wf(&self) -> bool {
        self.counts.wf()
    }

    /// The counts this segment collected.
    pub fn create_fruit(&self) -> (r: TermsFruit)
        requires
            self.wf(),
        ensures
            r.wf(),
            r.counts() == self.collected(),
    {
        self.counts.copy()
    }

    /// Collecting a document counts nothing: term collection from string
    /// fields is not done per document.
    pub fn collect(&mut self, doc: u32, fruit: &mut TermsFruit)
        ensures
            *final(self) == *old(self),
            *final(fruit) == *old(fruit),
    {
    }
}

/// Law: merging term counts does not depend on the order of the fruits.
pub proof fn lemma_add_counts_commutative(a: Map<Seq<char>, u64>, b: Map<Seq<char>, u64>)
    ensures
        add_counts(a, b) == add_counts(b, a),
{
    assert(add_counts(a, b) =~= add_counts(b, a));
}

/// Law: merging term counts is associative, when no count overflows.
pub proof fn lemma_add_counts_associative(a: Map<Seq<char>, u64>, b: Map<Seq<char>, u64>, c: Map<Seq<char>, u64>)
    requires
        forall|t: Seq<char>| count_or_zero(a, t) + count_or_zero(b, t) + count_or_zero(c, t) <= u64::MAX,
    ensures
        add_counts(add_counts(a, b), c) == add_counts(a, add_counts(b, c)),
{
    assert forall|t: Seq<char>| #[trigger] add_counts(add_counts(a, b), c).contains_key(t) implies add_counts(
        add_counts(a, b),
        c,
    )[t] == add_counts(a, add_counts(b, c))[t] by {
        assert(count_or_zero(a, t) + count_or_zero(b, t) + count_or_zero(c, t) <= u64::MAX);
    }
    assert(add_counts(add_counts(a, b), c) =~= add_counts(a, add_counts(b, c)));
}

// ---------------------------------------------------------------------------
// Count
// ---------------------------------------------------------------------------

/// Count the matching documents.
#[derive(Debug, Clone, Copy)]
pub struct CountAgg;

#[derive(Debug, Clone, Copy)]
pub struct CountPrepared;

#[derive(Debug, Clone, Copy)]
pub struct CountSegment;

/// A document count.
#[derive(Debug, Clone, Copy)]
pub struct CountFruit(pub u64);

impl Default for CountFruit {
    fn default() -> (r: Self)
        ensures
            r.0 == 0,
    {
        CountFruit(0)
    }
}

impl CountAgg {
    pub fn prepare(&self) -> (r: CountPrepared) {
        CountPrepared
    }
}

impl CountPrepared {
    /// A zero count.
    pub fn create_fruit(&self) -> (r: CountFruit)
        ensures
            r.0 == 0,
    {
        CountFruit(0)
    }

    pub fn for_segment(&self) -> (r: CountSegment) {
        CountSegment
    }

    /// Add the count of `fruit` to `acc`.
    pub fn merge(&self, acc: &mut CountFruit, fruit: CountFruit)
        requires
            old(acc).0 + fruit.0 <= u64::MAX,
        ensures
            final(acc).0 == old(acc).0 + fruit.0,
    {
        acc.0 = acc.0 + fruit.0;
    }
}

impl CountSegment {
    /// A zero count.
    pub fn create_fruit(&self) -> (r: CountFruit)
        ensures
            r.0 == 0,
    {
        CountFruit(0)
    }

    /// Count one more document.
    pub fn collect(&mut self, doc: u32, fruit: &mut CountFruit)
        requires
            old(fruit).0 < u64::MAX,
        ensures
            final(fruit).0 == old(fruit).0 + 1,
    {
        fruit.0 = fruit.0 + 1;
    }
}

// ---------------------------------------------------------------------------
// Sum
// ---------------------------------------------------------------------------

/// Sum a numeric fast field.
#[derive(Debug, Clone)]
pub struct SumAgg {
    field: String,
}

#[derive(Debug, Clone)]
pub struct SumPrepared {
    field: String,
}

/// Per-segment collector of a sum.
#[derive(Debug, Clone)]
pub struct SumSegment {
    field: String,
    sum: u128,
}

/// A sum of field values.
#[derive(Debug, Clone, Copy)]
pub struct SumFruit(pub u128);

impl Default for SumFruit {
    fn default() -> (r: Self)
        ensures
            r.0 == 0,
    {
        SumFruit(0)
    }
}

impl SumAgg {
    /// Sum the values of `field`.
    pub fn sum(field: &str) -> (r: Self)
        ensures
            r.field_name() == field@,
    {
        SumAgg { field: owned(field) }
    }

    pub closed spec fn field_name(&self) -> Seq<char> {
        self.field@
    }

    /// The field summed.
    pub fn field(&self) -> (r: &str)
        ensures
            r@ == self.field_name(),
    {
        self.field.as_str()
    }

    pub fn prepare(&self) -> (r: SumPrepared)
        ensures
            r.field_name() == self.field_name(),
    {
        SumPrepared { field: self.field.clone() }
    }
}

impl SumPrepared {
    pub closed spec fn field_name(&self) -> Seq<char> {
        self.field@
    }

    /// A zero sum.
    pub fn create_fruit(&self) -> (r: SumFruit)
        ensures
            r.0 == 0,
    {
        SumFruit(0)
    }

    pub fn for_segment(&self) -> (r: SumSegment)
        ensures
            r.field_name() == self.field_name(),
            r.total() == 0,
    {
        SumSegment { field: self.field.clone(), sum: 0 }
    }

    /// Add the sum of `fruit` to `acc`.
    pub fn merge(&self, acc: &mut SumFruit, fruit: SumFruit)
        requires
            old(acc).0 + fruit.0 <= u128::MAX,
        ensures
            final(acc).0 == old(acc).0 + fruit.0,
    {
        acc.0 = acc.0 + fruit.0;
    }
}

impl Default for SumPrepared {
    fn default() -> (r: Self)
        ensures
            r.field_name() == Seq::<char>::empty(),
    {
        SumPrepared { field: String::new() }
    }
}

impl SumSegment {
    pub closed spec fn field_name(&self) -> Seq<char> {
        self.field@
    }

    pub closed spec fn total(&self) -> u128 {
        self.sum
    }

    /// The sum so far.
    pub fn create_fruit(&self) -> (r: SumFruit)
        ensures
            r.0 == self.total(),
    {
        SumFruit(self.sum)
    }

    /// Collect the field value of one document (`None` when it has none):
    /// the running sum grows by it and the fruit becomes the running sum.
    pub fn collect(&mut self, value: Option<u64>, fruit: &mut SumFruit)
        requires
            old(self).total() + (match value {
                Some(v) => v as int,
                None => 0,
            }) <= u128::MAX,
        ensures
            final(self).field_name() == old(self).field_name(),
            match value {
                Some(v) => final(self).total() == old(self).total() + v && final(fruit).0 == final(self).total(),
                None => final(self).total() == old(self).total() && *final(fruit) == *old(fruit),
            },
    {
        match value {
            Some(v) => {
                self.sum = self.sum + v as u128;
                fruit.0 = self.sum;
            },
            None => {},
        }
    }
}

// ---------------------------------------------------------------------------
// Average
// ---------------------------------------------------------------------------

/// Average a numeric fast field.
#[derive(Debug, Clone)]
pub struct AvgAgg {
    field: String,
}

#[derive(Debug, Clone)]
pub struct AvgPrepared {
    field: String,
}

/// Per-segment collector of an average.
#[derive(Debug, Clone)]
pub struct AvgSegment {
    field: String,
    sum: u128,
    count: u64,
}

/// The sum and number of the values averaged.
#[derive(Debug, Clone, Copy)]
pub struct AvgFruit {
    pub sum: u128,
    pub count: u64,
}

impl Default for AvgFruit {
    fn default() -> (r: Self)
        ensures
            r.sum == 0,
            r.count == 0,
    {
        AvgFruit { sum: 0, count: 0 }
    }
}

impl AvgAgg {
    /// Average the values of `field`.
    pub fn avg(field: &str) -> (r: Self)
        ensures
            r.field_name() == field@,
    {
        AvgAgg { field: owned(field) }
    }

    pub closed spec fn field_name(&self) -> Seq<char> {
        self.field@
    }

    /// The field averaged.
    pub fn field(&self) -> (r: &str)
        ensures
            r@ == self.field_name(),
    {
        self.field.as_str()
    }

    pub fn prepare(&self) -> (r: AvgPrepared)
        ensures
            r.field_name() == self.field_name(),
    {
        AvgPrepared { field: self.field.clone() }
    }
}

impl AvgPrepared {
    pub closed spec fn field_name(&self) -> Seq<char> {
        self.field@
    }

    /// An empty sum and count.
    pub fn create_fruit(&self) -> (r: AvgFruit)
        ensures
            r.sum == 0,
            r.count == 0,
    {
        AvgFruit { sum: 0, count: 0 }
    }

    pub fn for_segment(&self) -> (r: AvgSegment)
        ensures
            r.field_name() == self.field_name(),
            r.total() == 0,
            r.values() == 0,
            r.wf(),
    {
        AvgSegment { field: self.field.clone(), sum: 0, count: 0 }
    }

    /// Add the sum and count of `fruit` to `acc`.
    pub fn merge(&self, acc: &mut AvgFruit, fruit: AvgFruit)
        requires
            old(acc).sum + fruit.sum <= u128::MAX,
            old(acc).count + fruit.count <= u64::MAX,
        ensures
            final(acc).sum == old(acc).sum + fruit.sum,
            final(acc).count == old(acc).count + fruit.count,
    {
        acc.sum = acc.sum + fruit.sum;
        acc.count = acc.count + fruit.count;
    }
}

impl Default for AvgPrepared {
    fn default() -> (r: Self)
        ensures
            r.field_name() == Seq::<char>::empty(),
    {
        AvgPrepared { field: String::new() }
    }
}

impl AvgSegment {
    pub closed spec fn field_name(&self) -> Seq<char> {
        self.field@
    }

    pub closed spec fn total(&self) -> u128 {
        self.sum
    }

    pub closed spec fn values(&self) -> u64 {
        self.count
    }

    /// The sum is of at most `count` values of a `u64` field.
    pub closed spec fn wf(&self) -> bool {
        self.sum <= self.count as int * u64::MAX as int
    }

    /// The sum and count so far.
    pub fn create_fruit(&self) -> (r: AvgFruit)
        ensures
            r.sum == self.total(),
            r.count == self.values(),
    {
        AvgFruit { sum: self.sum, count: self.count }
    }

    /// Collect the field value of one document (`None` when it has none):
    /// the running sum and count grow, and the fruit becomes them.
    pub fn collect(&mut self, value: Option<u64>, fruit: &mut AvgFruit)
        requires
            old(self).wf(),
            value is Some ==> old(self).values() < u64::MAX,
        ensures
            final(self).wf(),
            final(self).field_name() == old(self).field_name(),
            match value {
                Some(v) => final(self).total() == old(self).total() + v && final(self).values() == old(self).values() + 1
                    && final(fruit).sum == final(self).total() && final(fruit).count == final(self).values(),
                None => *final(self) == *old(self) && *final(fruit) == *old(fruit),
            },
    {
        match value {
            Some(v) => {
                proof {
                    assert(self.sum + v <= (self.count + 1) as int * u64::MAX as int) by (nonlinear_arith)
                        requires
                            self.sum <= self.count as int * u64::MAX as int,
                            v <= u64::MAX,
                    ;
                    assert((self.count + 1) as int * u64::MAX as int <= u64::MAX as int * u64::MAX as int) by (nonlinear_arith)
                        requires
                            self.count + 1 <= u64::MAX,
                    ;
                }
                self.sum = self.sum + v as u128;
                self.count = self.count + 1;
                fruit.sum = self.sum;
                fruit.count = self.count;
            },
            None => {},
        }
    }
}

// ---------------------------------------------------------------------------
// Min and max
// ---------------------------------------------------------------------------

/// The smallest or largest value of a numeric fast field.
#[derive(Debug, Clone)]
pub struct MinMaxAgg {
    field: String,
    is_min: bool,
}

#[derive(Debug, Clone)]
pub struct MinMaxPrepared {
    field: String,
    is_min: bool,
}

/// Per-segment collector of a min or max.
#[derive(Debug, Clone)]
pub struct MinMaxSegment {
    field: String,
    is_min: bool,
    value: Option<u64>,
}

/// The extreme value found, if any.
#[derive(Debug, Clone, Copy)]
pub struct MinMaxFruit(pub Option<u64>);

impl Default for MinMaxFruit {
    fn default() -> (r: Self)
        ensures
            r.0 is None,
    {
        MinMaxFruit(None)
    }
}

/// The smaller (`is_min`) or larger of two values.
pub open spec fn pick(is_min: bool, a: u64, b: u64) -> u64 {
    if is_min {
        if a <= b {
            a
        } else {
            b
        }
    } else {
        if a >= b {
            a
        } else {
            b
        }
    }
}

/// The extreme of two optional values.
pub open spec fn combine(is_min: bool, a: Option<u64>, b: Option<u64>) -> Option<u64> {
    match (a, b) {
        (None, Some(v)) => Some(v),
        (Some(x), Some(v)) => Some(pick(is_min, x, v)),
        _ => a,
    }
}

impl MinMaxAgg {
    /// The smallest value of `field`.
    pub fn min(field: &str) -> (r: Self)
        ensures
            r.field_name() == field@,
            r.finds_min(),
    {
        MinMaxAgg { field: owned(field), is_min: true }
    }

    /// The largest value of `field`.
    pub fn max(field: &str) -> (r: Self)
        ensures
            r.field_name() == field@,
            !r.finds_min(),
    {
        MinMaxAgg { field: owned(field), is_min: false }
    }

    pub closed spec fn field_name(&self) -> Seq<char> {
        self.field@
    }

    pub closed spec fn finds_min(&self) -> bool {
        self.is_min
    }

    /// The field examined.
    pub fn field(&self) -> (r: &str)
        ensures
            r@ == self.field_name(),
    {
        self.field.as_str()
    }

    /// Whether this finds the minimum (else the maximum).
    pub fn is_min(&self) -> (r: bool)
        ensures
            r == self.finds_min(),
    {
        self.is_min
    }

    pub fn prepare(&self) -> (r: MinMaxPrepared)
        ensures
            r.field_name() == self.field_name(),
            r.finds_min() == self.finds_min(),
    {
        MinMaxPrepared { field: self.field.clone(), is_min: self.is_min }
    }
}

impl MinMaxPrepared {
    pub closed spec fn field_name(&self) -> Seq<char> {
        self.field@
    }

    pub closed spec fn finds_min(&self) -> bool {
        self.is_min
    }

    /// No value yet.
    pub fn create_fruit(&self) -> (r: MinMaxFruit)
        ensures
            r.0 is None,
    {
        MinMaxFruit(None)
    }

    pub fn for_segment(&self) -> (r: MinMaxSegment)
        ensures
            r.field_name() == self.field_name(),
            r.finds_min() == self.finds_min(),
            r.held() is None,
    {
        MinMaxSegment { field: self.field.clone(), is_min: self.is_min, value: None }
    }

    /// Combine `fruit` into `acc`: the smaller (or larger) of the two values,
    /// or the one that is present.
    pub fn merge(&self, acc: &mut MinMaxFruit, fruit: MinMaxFruit)
        ensures
            final(acc).0 == combine(self.finds_min(), old(acc).0, fruit.0),
    {
        match (acc.0, fruit.0) {
            (None, Some(v)) => {
                acc.0 = Some(v);
            },
            (Some(a), Some(v)) => {
                if self.is_min {
                    acc.0 = Some(if a <= v {
                        a
                    } else {
                        v
                    });
                } else {
                    acc.0 = Some(if a >= v {
                        a
                    } else {
                        v
                    });
                }
            },
            _ => {},
        }
    }
}

impl Default for MinMaxPrepared {
    fn default() -> (r: Self)
        ensures
            r.field_name() == Seq::<char>::empty(),
            r.finds_min(),
    {
        MinMaxPrepared { field: String::new(), is_min: true }
    }
}

impl MinMaxSegment {
    pub closed spec fn field_name(&self) -> Seq<char> {
        self.field@
    }

    pub closed spec fn finds_min(&self) -> bool {
        self.is_min
    }

    pub closed spec fn held(&self) -> Option<u64> {
        self.value
    }

    /// The value held by this segment.
    pub fn create_fruit(&self) -> (r: MinMaxFruit)
        ensures
            r.0 == self.held(),
    {
        MinMaxFruit(self.value)
    }

    /// Collect the field value of one document (`None` when it has none):
    /// the fruit becomes the extreme of the value held by the segment and
    /// this value. The held value itself does not change.
    pub fn collect(&mut self, value: Option<u64>, fruit: &mut MinMaxFruit)
        ensures
            *final(self) == *old(self),
            match value {
                Some(v) => final(fruit).0 == Some(
                    match old(self).held() {
                        Some(acc) => pick(old(self).finds_min(), acc, v),
                        None => v,
                    },
                ),
                None => *final(fruit) == *old(fruit),
            },
    {
        match value {
            Some(v) => {
                let r = match self.value {
                    Some(acc) => {
                        if self.is_min {
                            if acc <= v {
                                acc
                            } else {
                                v
                            }
                        } else {
                            if acc >= v {
                                acc
                            } else {
                                v
                            }
                        }
                    },
                    None => v,
                };
                fruit.0 = Some(r);
            },
            None => {},
        }
    }
}

/// Law: combining min/max fruits does not depend on their order.
pub proof fn lemma_combine_commutative(is_min: bool, a: Option<u64>, b: Option<u64>)
    ensures
        combine(is_min, a, b) == combine(is_min, b, a),
{
}

/// Law: the combined value is one of the inputs and is no worse than either.
pub proof fn lemma_combine_extreme(is_min: bool, a: u64, b: u64)
    ensures
        combine(is_min, Some(a), Some(b)) == Some(a) || combine(is_min, Some(a), Some(b)) == Some(b),
        is_min ==> pick(is_min, a, b) <= a && pick(is_min, a, b) <= b,
        !is_min ==> pick(is_min, a, b) >= a && pick(is_min, a, b) >= b,
{
}

// ---------------------------------------------------------------------------
// Counting field values
// ---------------------------------------------------------------------------

/// How often `t` occurs in `s`.
pub open spec fn occurrences(s: Seq<Seq<char>>, t: Seq<char>) -> nat
    decreases s.len(),
{
    if s.len() == 0 {
        0
    } else {
        occurrences(s.drop_last(), t) + if s.last() == t {
            1nat
        } else {
            0nat
        }
    }
}

/// Each value of `s` with the number of times it occurs.
pub open spec fn value_counts(s: Seq<Seq<char>>) -> Map<Seq<char>, u64> {
    Map::new(|t: Seq<char>| s.contains(t), |t: Seq<char>| occurrences(s, t) as u64)
}

proof fn lemma_occurrences(s: Seq<Seq<char>>, t: Seq<char>)
    ensures
        occurrences(s, t) <= s.len(),
        occurrences(s, t) > 0 <==> s.contains(t),
    decreases s.len(),
{
    if s.len() > 0 {
        let p = s.drop_last();
        lemma_occurrences(p, t);
        if p.contains(t) {
            let i = choose|i: int| 0 <= i < p.len() && p[i] == t;
            assert(s[i] == t);
        }
        if s.contains(t) && s.last() != t {
            let i = choose|i: int| 0 <= i < s.len() && s[i] == t;
            assert(i < p.len());
            assert(p[i] == t);
        }
        if s.last() == t {
            assert(s[s.len() - 1] == t);
        }
    }
}

/// Count the values of a field over documents: each distinct value with the
/// number of documents that have it.
pub fn count_values(values: &Vec<String>) -> (r: TermsFruit)
    ensures
        r.wf(),
        r.counts() == value_counts(crate::splitter::strings_view(values@)),
{
    let ghost sv = crate::splitter::strings_view(values@);
    let mut f = TermsFruit::new();
    let mut i: usize = 0;
    proof {
        assert(value_counts(sv.take(0)) =~= Map::empty());
    }
    while i < values.len()
        invariant
            i <= values.len(),
            sv == crate::splitter::strings_view(values@),
            f.wf(),
            f.counts() == value_counts(sv.take(i as int)),
        decreases values.len() - i,
    {
        let ghost t = sv[i as int];
        let ghost p = sv.take(i as int);
        let ghost q = sv.take(i + 1);
        proof {
            assert(values@[i as int]@ == t);
            assert(q.drop_last() =~= p);
            assert(q.last() == t);
            lemma_occurrences(p, t);
            lemma_occurrences(q, t);
            assert(count_or_zero(f.counts(), t) == occurrences(p, t));
            assert(occurrences(q, t) == occurrences(p, t) + 1);
            assert forall|x: Seq<char>| x != t implies occurrences(q, x) == occurrences(p, x) by {}
            assert forall|x: Seq<char>| #[trigger] q.contains(x) <==> (p.contains(x) || x == t) by {
                if q.contains(x) {
                    let j = choose|j: int| 0 <= j < q.len() && q[j] == x;
                    if j < p.len() {
                        assert(p[j] == x);
                    }
                }
                if p.contains(x) {
                    let j = choose|j: int| 0 <= j < p.len() && p[j] == x;
                    assert(q[j] == x);
                }
                if x == t {
                    assert(q[i as int] == x);
                }
            }
            assert(value_counts(q) =~= value_counts(p).insert(t, (occurrences(p, t) + 1) as u64));
        }
        f.add(&values[i], 1);
        i = i + 1;
    }
    proof {
        assert(sv.take(values.len() as int) =~= sv);
    }
    f
}

/// The buckets with the highest counts, at most `size`, highest first and,
/// among equal counts, the smaller term first.
pub fn top_buckets(fruit: &TermsFruit, size: usize) -> (r: Vec<TermsBucket>)
    requires
        fruit.wf(),
    ensures
        r.len() == (if size < fruit.counts().dom().len() {
            size as nat
        } else {
            fruit.counts().dom().len()
        }),
        forall|i: int|
            #![trigger r@[i]]
            0 <= i < r.len() ==> fruit.counts().contains_key(r@[i].key@) && r@[i].doc_count == fruit.counts()[r@[i].key@],
        forall|i: int, j: int| 0 <= i < j < r.len() ==> bucket_before(bucket_views(r@)[i], bucket_views(r@)[j]),
        forall|i: int, t: Seq<char>|
            #![trigger r@[i], fruit.counts()[t]]
            0 <= i < r.len() && fruit.counts().contains_key(t) && (forall|j: int| 0 <= j < r.len() ==> r@[j].key@ != t)
                ==> bucket_before(bucket_views(r@)[i], (t, fruit.counts()[t])),
{
    let n = fruit.len();
    let k = if size < n {
        size
    } else {
        n
    };
    let ghost ps = pair_views(fruit.entries@);
    proof {
        assert(ps =~= fruit.pairs());
    }
    let chosen = smallest_pairs(&fruit.entries, k, true);
    let mut r: Vec<TermsBucket> = Vec::new();
    let mut i: usize = 0;
    while i < chosen.len()
        invariant
            i <= chosen.len(),
            bucket_views(r@) == pair_views(chosen@).take(i as int),
        decreases chosen.len() - i,
    {
        let ghost before = r@;
        r.push(TermsBucket { key: chosen[i].0.clone(), doc_count: chosen[i].1 });
        proof {
            assert(bucket_views(r@) =~= bucket_views(before).push(pair_views(chosen@)[i as int]));
            assert(pair_views(chosen@).take(i + 1) =~= pair_views(chosen@).take(i as int).push(
                pair_views(chosen@)[i as int],
            ));
        }
        i = i + 1;
    }
    proof {
        let m = fruit.counts();
        let rv = bucket_views(r@);
        let cv = pair_views(chosen@);
        assert(cv.take(cv.len() as int) =~= cv);
        assert(rv == cv);
        assert forall|i: int| #![trigger r@[i]] 0 <= i < r.len() implies m.contains_key(r@[i].key@)
            && r@[i].doc_count == m[r@[i].key@] by {
            assert(rv[i] == (r@[i].key@, r@[i].doc_count));
            assert(chosen@[i] == chosen@[i]);
            assert(ps.contains(cv[i]));
            let j = choose|j: int| 0 <= j < ps.len() && ps[j] == cv[i];
            lemma_keyed_at(ps, term_key(), j);
        }
        assert forall|i: int, j: int| 0 <= i < j < r.len() implies bucket_before(rv[i], rv[j]) by {
            assert(rank_lt(true, cv[i], cv[j]));
        }
        assert forall|i: int, t: Seq<char>|
            #![trigger r@[i], m[t]]
            0 <= i < r.len() && m.contains_key(t) && (forall|j: int| 0 <= j < r.len() ==> r@[j].key@ != t)
                implies bucket_before(rv[i], (t, m[t])) by {
            let jt = crate::keyed::key_index(ps, term_key(), t);
            assert(has_key(ps, term_key(), t));
            lemma_keyed_at(ps, term_key(), jt);
            assert(ps[jt] == (t, m[t]));
            assert(!cv.contains(ps[jt])) by {
                if cv.contains(ps[jt]) {
                    let q = choose|q: int| 0 <= q < cv.len() && cv[q] == ps[jt];
                    assert(rv[q] == (r@[q].key@, r@[q].doc_count));
                }
            }
            assert(chosen@[i] == chosen@[i]);
            assert(fruit.entries@[jt] == fruit.entries@[jt]);
            assert(rank_lt(true, cv[i], ps[jt]));
        }
    }
    r
}

} // verus!
