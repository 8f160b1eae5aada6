//! A single graph shard: nodes and typed, weighted edges held in memory.
//! Edges may only reference nodes within the same shard. Persistence is
//! the caller's business; this module keeps the in-memory state.

use crate::config::owned;
use crate::error::Error;
use crate::keyed::{has_key, keyed_map, lemma_keyed_at, lemma_keyed_len, lemma_keyed_prefix_step,
    lemma_keyed_push, lemma_keyed_remove, lemma_keyed_update, lemma_keyed_value_key, unique_keys};
use crate::splitter::strings_view;
use crate::textutil::{chars_of, string_from_chars};
use vstd::prelude::*;

verus! {

// ---------------------------------------------------------------------------
// Records and their views
// ---------------------------------------------------------------------------

/// A node in the graph.
#[derive(Debug, Clone)]
pub struct GraphNode {
    /// Unique node identifier.
    pub id: String,
    /// Node type/category.
    pub node_type: String,
    /// Human-readable title.
    pub title: String,
    /// Additional payload data, as JSON text.
    pub payload: String,
}

/// An edge in the graph.
#[derive(Debug, Clone)]
pub struct GraphEdge {
    /// Source node id.
    pub from: String,
    /// Target node id.
    pub to: String,
    /// Edge type/relationship.
    pub edge_type: String,
    /// Edge weight for weighted algorithms, as the bits of an `f32`.
    pub weight_bits: u32,
}

/// The allowed edge types of a graph, as configured in its schema.
#[derive(Debug, Clone)]
pub struct EdgeTypeConfig {
    pub edge_type: String,
    pub from_field: String,
    pub to_field: String,
}

/// Statistics about a graph shard (or aggregated across shards).
#[derive(Debug, Clone, Copy)]
pub struct GraphStats {
    /// Number of nodes.
    pub node_count: usize,
    /// Number of edges.
    pub edge_count: usize,
}

/// Adjacency list entry.
#[derive(Debug, Clone)]
pub struct EdgeEntry {
    to: String,
    edge_type: String,
    weight_bits: u32,
}

/// All outgoing edges of one node.
#[derive(Debug, Clone)]
pub struct AdjList {
    from: String,
    entries: Vec<EdgeEntry>,
}

pub struct NodeView {
    pub id: Seq<char>,
    pub node_type: Seq<char>,
    pub title: Seq<char>,
    pub payload: Seq<char>,
}

pub struct EdgeView {
    pub to: Seq<char>,
    pub edge_type: Seq<char>,
    pub weight_bits: u32,
}

pub struct AdjView {
    pub from: Seq<char>,
    pub entries: Seq<EdgeView>,
}

pub struct EdgeRecord {
    pub from: Seq<char>,
    pub to: Seq<char>,
    pub edge_type: Seq<char>,
    pub weight_bits: u32,
}

impl View for GraphNode {
    type V = NodeView;

    open spec fn view(&self) -> NodeView {
        NodeView { id: self.id@, node_type: self.node_type@, title: self.title@, payload: self.payload@ }
    }
}

impl View for GraphEdge {
    type V = EdgeRecord;

    open spec fn view(&self) -> EdgeRecord {
        EdgeRecord { from: self.from@, to: self.to@, edge_type: self.edge_type@, weight_bits: self.weight_bits }
    }
}

impl View for EdgeEntry {
    type V = EdgeView;

    closed spec fn view(&self) -> EdgeView {
        EdgeView { to: self.to@, edge_type: self.edge_type@, weight_bits: self.weight_bits }
    }
}

impl View for AdjList {
    type V = AdjView;

    closed spec fn view(&self) -> AdjView {
        AdjView { from: self.from@, entries: entry_views(self.entries@) }
    }
}

pub closed spec fn entry_views(es: Seq<EdgeEntry>) -> Seq<EdgeView> {
    es.map_values(|e: EdgeEntry| e@)
}

/// The views of a list of edges.
pub open spec fn edge_list_view(es: Seq<GraphEdge>) -> Seq<EdgeRecord> {
    es.map_values(|e: GraphEdge| e@)
}

/// The edges from `from` described by the adjacency entries `es`.
pub open spec fn records_of(from: Seq<char>, es: Seq<EdgeView>) -> Seq<EdgeRecord> {
    es.map_values(|e: EdgeView| record_of(from, e))
}

/// An adjacency list after `remove_node(id)`.
pub open spec fn pruned(a: AdjView, id: Seq<char>) -> AdjView {
    AdjView { from: a.from, entries: drop_target(a.entries, id) }
}

/// The adjacency map after `remove_node(id)`.
pub open spec fn prune_map(m: Map<Seq<char>, AdjView>, id: Seq<char>) -> Map<Seq<char>, AdjView> {
    m.remove(id).map_values(|a: AdjView| pruned(a, id))
}

/// An optional string parameter, by its characters.
pub open spec fn opt_str(o: Option<&str>) -> Option<Seq<char>> {
    match o {
        Some(s) => Some(s@),
        None => None,
    }
}

pub open spec fn node_key() -> spec_fn(NodeView) -> Seq<char> {
    |v: NodeView| v.id
}

pub open spec fn adj_key() -> spec_fn(AdjView) -> Seq<char> {
    |a: AdjView| a.from
}

/// The edge from `from` described by the adjacency entry `e`.
pub open spec fn record_of(from: Seq<char>, e: EdgeView) -> EdgeRecord {
    EdgeRecord { from, to: e.to, edge_type: e.edge_type, weight_bits: e.weight_bits }
}

/// The outgoing edges of `x` in the adjacency map `g`.
pub open spec fn out_edges(g: Map<Seq<char>, AdjView>, x: Seq<char>) -> Seq<EdgeView> {
    if g.contains_key(x) {
        g[x].entries
    } else {
        Seq::empty()
    }
}

/// `es` without the edges that point at `target`.
pub open spec fn drop_target(es: Seq<EdgeView>, target: Seq<char>) -> Seq<EdgeView>
    decreases es.len(),
{
    if es.len() == 0 {
        es
    } else {
        let rest = drop_target(es.drop_last(), target);
        if es.last().to == target {
            rest
        } else {
            rest.push(es.last())
        }
    }
}

/// Whether `remove_edge(_, to, edge_type)` keeps the entry `e`.
pub open spec fn keeps_edge(e: EdgeView, to: Seq<char>, edge_type: Option<Seq<char>>) -> bool {
    e.to != to || (edge_type matches Some(t) && e.edge_type != t)
}

/// `es` without the edges that `remove_edge(_, to, edge_type)` removes.
pub open spec fn kept_edges(es: Seq<EdgeView>, to: Seq<char>, edge_type: Option<Seq<char>>) -> Seq<EdgeView>
    decreases es.len(),
{
    if es.len() == 0 {
        es
    } else {
        let rest = kept_edges(es.drop_last(), to, edge_type);
        if keeps_edge(es.last(), to, edge_type) {
            rest.push(es.last())
        } else {
            rest
        }
    }
}

/// The entries of `es` with the given type.
pub open spec fn typed_edges(es: Seq<EdgeView>, edge_type: Seq<char>) -> Seq<EdgeView>
    decreases es.len(),
{
    if es.len() == 0 {
        es
    } else {
        let rest = typed_edges(es.drop_last(), edge_type);
        if es.last().edge_type == edge_type {
            rest.push(es.last())
        } else {
            rest
        }
    }
}

/// Number of edges over all adjacency lists.
pub open spec fn total_edges(ls: Seq<AdjView>) -> nat
    decreases ls.len(),
{
    if ls.len() == 0 {
        0
    } else {
        total_edges(ls.drop_last()) + ls.last().entries.len()
    }
}

/// Adjacency lists after `remove_node(id)`: the list of `id` goes, and every
/// other list loses the edges that point at `id`.
pub open spec fn prune_lists(ls: Seq<AdjView>, id: Seq<char>) -> Seq<AdjView>
    decreases ls.len(),
{
    if ls.len() == 0 {
        ls
    } else {
        let rest = prune_lists(ls.drop_last(), id);
        let a = ls.last();
        if a.from == id {
            rest
        } else {
            rest.push(pruned(a, id))
        }
    }
}

/// The message of the error returned for an edge type outside the schema.
pub open spec fn unknown_edge_type_message(edge_type: Seq<char>, allowed: Seq<Seq<char>>) -> Seq<char> {
    "Unknown edge type: "@ + edge_type + ". Valid types: "@ + debug_list(allowed)
}

/// `[a, b, ...]` with each item as `{:?}` prints it.
pub open spec fn debug_list(items: Seq<Seq<char>>) -> Seq<char> {
    "["@ + debug_items(items) + "]"@
}

pub open spec fn debug_items(items: Seq<Seq<char>>) -> Seq<char>
    decreases items.len(),
{
    if items.len() == 0 {
        Seq::empty()
    } else if items.len() == 1 {
        str_debug(items[0])
    } else {
        debug_items(items.drop_last()) + ", "@ + str_debug(items.last())
    }
}

/// What `format!("{:?}", s)` gives for a string with these characters.
pub uninterp spec fn str_debug(s: Seq<char>) -> Seq<char>;

/// `format!("{:?}", s)`: the string quoted and escaped as `Debug` prints it.
/// Claimed: the result is the named value.
#[verifier::external_body]
fn debug_quoted(s: &str) -> (r: String)
    ensures
        r@ == str_debug(s@),
{
    format!("{:?}", s)
}

impl GraphNode {
    /// A copy of this node.
    pub fn copy(&self) -> (r: GraphNode)
        ensures
            r@ == self@,
    {
        GraphNode {
            id: self.id.clone(),
            node_type: self.node_type.clone(),
            title: self.title.clone(),
            payload: self.payload.clone(),
        }
    }
}

impl EdgeTypeConfig {
    /// A copy of this configuration.
    pub fn copy(&self) -> (r: EdgeTypeConfig)
        ensures
            r.edge_type@ == self.edge_type@,
            r.from_field@ == self.from_field@,
            r.to_field@ == self.to_field@,
    {
        EdgeTypeConfig {
            edge_type: self.edge_type.clone(),
            from_field: self.from_field.clone(),
            to_field: self.to_field.clone(),
        }
    }
}

impl EdgeEntry {
    fn copy(&self) -> (r: EdgeEntry)
        ensures
            r@ == self@,
    {
        EdgeEntry { to: self.to.clone(), edge_type: self.edge_type.clone(), weight_bits: self.weight_bits }
    }

    fn to_edge(&self, from: &String) -> (r: GraphEdge)
        ensures
            r@ == record_of(from@, self@),
    {
        GraphEdge {
            from: from.clone(),
            to: self.to.clone(),
            edge_type: self.edge_type.clone(),
            weight_bits: self.weight_bits,
        }
    }
}

// ---------------------------------------------------------------------------
// The shard
// ---------------------------------------------------------------------------

/// A single graph shard.
///
/// Nodes and adjacency lists are kept as a vector of entries with distinct keys (see
/// `keyed`): vstd specifies `HashMap` only for keys it knows to hash and
/// compare faithfully (integers and the like), not for `String`, so a
/// `HashMap<String, _>` would leave these contracts unprovable.
pub struct GraphShard {
    /// Shard numeric id.
    shard_id: u32,
    /// Collection name.
    collection: String,
    /// Shard identifier (such as "default" or "shard_0").
    shard_name: String,
    /// Nodes, with distinct ids.
    nodes: Vec<GraphNode>,
    /// Adjacency lists, with distinct source ids.
    edges: Vec<AdjList>,
    /// Edge type configurations from the schema.
    edge_configs: Vec<EdgeTypeConfig>,
}

impl GraphShard {
    pub closed spec fn node_views(&self) -> Seq<NodeView> {
        self.nodes@.map_values(|n: GraphNode| n@)
    }

    pub closed spec fn adj_views(&self) -> Seq<AdjView> {
        self.edges@.map_values(|a: AdjList| a@)
    }

    /// The nodes, by id.
    pub open spec fn node_map(&self) -> Map<Seq<char>, NodeView> {
        keyed_map(self.node_views(), node_key())
    }

    /// The adjacency lists, by source id.
    pub open spec fn adj_map(&self) -> Map<Seq<char>, AdjView> {
        keyed_map(self.adj_views(), adj_key())
    }

    /// The number of edges held.
    pub open spec fn edge_total(&self) -> nat {
        total_edges(self.adj_views())
    }

    /// The edge types the schema allows (empty: any type).
    pub closed spec fn allowed_types(&self) -> Seq<Seq<char>> {
        self.edge_configs@.map_values(|c: EdgeTypeConfig| c.edge_type@)
    }

    pub closed spec fn id(&self) -> u32 {
        self.shard_id
    }

    /// The shard's numeric id.
    pub fn shard_id(&self) -> (r: u32)
        ensures
            r == self.id(),
    {
        self.shard_id
    }

    pub closed spec fn collection_name(&self) -> Seq<char> {
        self.collection@
    }

    pub closed spec fn name(&self) -> Seq<char> {
        self.shard_name@
    }

    /// Well-formedness: distinct node ids, distinct adjacency sources and an
    /// edge count that fits a `usize`.
    pub open spec fn wf(&self) -> bool {
        &&& unique_keys(self.node_views(), node_key())
        &&& unique_keys(self.adj_views(), adj_key())
        &&& self.edge_total() <= usize::MAX
    }

    /// Create an empty shard.
    pub fn new(shard_id: u32, collection: &str, shard_name: &str, edge_configs: &[EdgeTypeConfig]) -> (r: Self)
        ensures
            r.wf(),
            r.id() == shard_id,
            r.collection_name() == collection@,
            r.name() == shard_name@,
            r.node_map() == Map::<Seq<char>, NodeView>::empty(),
            r.adj_map() == Map::<Seq<char>, AdjView>::empty(),
            r.edge_total() == 0,
            r.allowed_types() == edge_configs@.map_values(|c: EdgeTypeConfig| c.edge_type@),
    {
        let mut configs: Vec<EdgeTypeConfig> = Vec::new();
        let mut i: usize = 0;
        while i < edge_configs.len()
            invariant
                i <= edge_configs.len(),
                configs@.len() == i,
                configs@.map_values(|c: EdgeTypeConfig| c.edge_type@) == edge_configs@.take(
                    i as int,
                ).map_values(|c: EdgeTypeConfig| c.edge_type@),
            decreases edge_configs.len() - i,
        {
            let ghost prev = configs@;
            let c = edge_configs[i].copy();
            configs.push(c);
            proof {
                let a = configs@.map_values(|c: EdgeTypeConfig| c.edge_type@);
                let b = edge_configs@.take(i + 1).map_values(|c: EdgeTypeConfig| c.edge_type@);
                assert forall|k: int| 0 <= k < b.len() implies a[k] == b[k] by {
                    if k < i {
                        assert(configs@[k] == prev[k]);
                        assert(prev.map_values(|c: EdgeTypeConfig| c.edge_type@)[k] == edge_configs@.take(
                            i as int,
                        ).map_values(|c: EdgeTypeConfig| c.edge_type@)[k]);
                    }
                }
                assert(a =~= b);
            }
            i = i + 1;
        }
        assert(edge_configs@.take(edge_configs@.len() as int) =~= edge_configs@);
        let r = GraphShard {
            shard_id,
            collection: owned(collection),
            shard_name: owned(shard_name),
            nodes: Vec::new(),
            edges: Vec::new(),
            edge_configs: configs,
        };
        assert(r.node_views() =~= Seq::empty());
        assert(r.adj_views() =~= Seq::empty());
        assert(r.node_map() =~= Map::empty());
        assert(r.adj_map() =~= Map::empty());
        r
    }

    fn find_node(&self, id: &String) -> (r: Option<usize>)
        requires
            self.wf(),
        ensures
            match r {
                Some(i) => i < self.nodes.len() && self.nodes@[i as int].id@ == id@,
                None => !self.node_map().contains_key(id@),
            },
    {
        let mut i: usize = 0;
        while i < self.nodes.len()
            invariant
                i <= self.nodes.len(),
                forall|j: int| 0 <= j < i ==> self.nodes@[j].id@ != id@,
            decreases self.nodes.len() - i,
        {
            if self.nodes[i].id == *id {
                return Some(i);
            }
            i = i + 1;
        }
        proof {
            let vs = self.node_views();
            if has_key(vs, node_key(), id@) {
                let j = choose|j: int| #![trigger vs[j]] 0 <= j < vs.len() && node_key()(vs[j]) == id@;
                assert(vs[j] == self.nodes@[j]@);
            }
        }
        None
    }

    fn find_adj(&self, from: &String) -> (r: Option<usize>)
        requires
            self.wf(),
        ensures
            match r {
                Some(i) => i < self.edges.len() && self.edges@[i as int].from@ == from@,
                None => !self.adj_map().contains_key(from@),
            },
    {
        let mut i: usize = 0;
        while i < self.edges.len()
            invariant
                i <= self.edges.len(),
                forall|j: int| 0 <= j < i ==> self.edges@[j].from@ != from@,
            decreases self.edges.len() - i,
        {
            if self.edges[i].from == *from {
                return Some(i);
            }
            i = i + 1;
        }
        proof {
            let vs = self.adj_views();
            if has_key(vs, adj_key(), from@) {
                let j = choose|j: int| #![trigger vs[j]] 0 <= j < vs.len() && adj_key()(vs[j]) == from@;
                assert(vs[j] == self.edges@[j]@);
            }
        }
        None
    }

    /// Add a node, replacing any node with the same id.
    pub fn add_node(&mut self, node: GraphNode)
        requires
            old(self).wf(),
        ensures
            final(self).wf(),
            final(self).node_map() == old(self).node_map().insert(node.id@, node@),
            final(self).adj_map() == old(self).adj_map(),
            final(self).edge_total() == old(self).edge_total(),
            final(self).allowed_types() == old(self).allowed_types(),
    {
        let ghost old_views = self.node_views();
        let ghost v = node@;
        match self.find_node(&node.id) {
            Some(i) => {
                self.nodes.set(i, node);
                proof {
                    assert(self.node_views() =~= old_views.update(i as int, v));
                    assert(old_views[i as int] == old(self).nodes@[i as int]@);
                    lemma_keyed_update(old_views, node_key(), i as int, v);
                }
            },
            None => {
                self.nodes.push(node);
                proof {
                    assert(self.node_views() =~= old_views.push(v));
                    assert(!has_key(old_views, node_key(), v.id));
                    lemma_keyed_push(old_views, node_key(), v);
                }
            },
        }
        assert(self.adj_views() =~= old(self).adj_views());
        assert(self.allowed_types() =~= old(self).allowed_types());
    }

    /// The node with this id, if any.
    pub fn get_node(&self, id: &str) -> (r: Option<GraphNode>)
        requires
            self.wf(),
        ensures
            match r {
                Some(n) => self.node_map().contains_key(id@) && n@ == self.node_map()[id@],
                None => !self.node_map().contains_key(id@),
            },
    {
        let key = owned(id);
        match self.find_node(&key) {
            Some(i) => {
                proof {
                    assert(self.node_views()[i as int] == self.nodes@[i as int]@);
                    lemma_keyed_at(self.node_views(), node_key(), i as int);
                }
                Some(self.nodes[i].copy())
            },
            None => None,
        }
    }

    /// Get statistics about this shard.
    pub fn stats(&self) -> (r: GraphStats)
        requires
            self.wf(),
        ensures
            r.node_count == self.node_map().dom().len(),
            r.edge_count == self.edge_total(),
    {
        let mut count: usize = 0;
        let mut i: usize = 0;
        while i < self.edges.len()
            invariant
                i <= self.edges.len(),
                self.wf(),
                count == total_edges(self.adj_views().take(i as int)),
            decreases self.edges.len() - i,
        {
            proof {
                let vs = self.adj_views();
                assert(vs.take(i + 1).drop_last() =~= vs.take(i as int));
                assert(vs[i as int] == self.edges@[i as int]@);
                lemma_total_prefix(vs, i + 1);
            }
            count = count + self.edges[i].entries.len();
            i = i + 1;
        }
        proof {
            assert(self.adj_views().take(i as int) =~= self.adj_views());
            lemma_keyed_len(self.node_views(), node_key());
        }
        GraphStats { node_count: self.nodes.len(), edge_count: count }
    }
}

/// The edge count of a prefix is at most that of the whole.
proof fn lemma_total_prefix(ls: Seq<AdjView>, n: int)
    requires
        0 <= n <= ls.len(),
    ensures
        total_edges(ls.take(n)) <= total_edges(ls),
    decreases ls.len(),
{
    if n < ls.len() {
        assert(ls.drop_last().take(n) =~= ls.take(n));
        lemma_total_prefix(ls.drop_last(), n);
    } else {
        assert(ls.take(n) =~= ls);
    }
}

/// Appending an adjacency list adds its entries to the count.
proof fn lemma_total_push(ls: Seq<AdjView>, a: AdjView)
    ensures
        total_edges(ls.push(a)) == total_edges(ls) + a.entries.len(),
{
    assert(ls.push(a).drop_last() =~= ls);
}

/// Replacing one adjacency list changes the count by the difference.
proof fn lemma_total_update(ls: Seq<AdjView>, j: int, a: AdjView)
    requires
        0 <= j < ls.len(),
    ensures
        total_edges(ls.update(j, a)) == total_edges(ls) - ls[j].entries.len() + a.entries.len(),
    decreases ls.len(),
{
    let t = ls.update(j, a);
    if j == ls.len() - 1 {
        assert(t.drop_last() =~= ls.drop_last());
    } else {
        assert(t.drop_last() =~= ls.drop_last().update(j, a));
        lemma_total_update(ls.drop_last(), j, a);
    }
}

proof fn lemma_drop_target_len(es: Seq<EdgeView>, id: Seq<char>)
    ensures
        drop_target(es, id).len() <= es.len(),
    decreases es.len(),
{
    if es.len() > 0 {
        lemma_drop_target_len(es.drop_last(), id);
    }
}

proof fn lemma_kept_edges_len(es: Seq<EdgeView>, to: Seq<char>, t: Option<Seq<char>>)
    ensures
        kept_edges(es, to, t).len() <= es.len(),
    decreases es.len(),
{
    if es.len() > 0 {
        lemma_kept_edges_len(es.drop_last(), to, t);
    }
}

proof fn lemma_unique_drop_last<V>(s: Seq<V>, key: spec_fn(V) -> Seq<char>)
    requires
        unique_keys(s, key),
        s.len() > 0,
    ensures
        unique_keys(s.drop_last(), key),
        !has_key(s.drop_last(), key, key(s.last())),
{
    let p = s.drop_last();
    assert forall|a: int, b: int|
        #![trigger p[a], p[b]]
        0 <= a < p.len() && 0 <= b < p.len() && a != b implies key(p[a]) != key(p[b]) by {
        assert(p[a] == s[a] && p[b] == s[b]);
    }
    if has_key(p, key, key(s.last())) {
        let i = choose|i: int| #![trigger p[i]] 0 <= i < p.len() && key(p[i]) == key(s.last());
        assert(p[i] == s[i]);
        assert(s[s.len() - 1] == s.last());
    }
}

/// Pruning the lists for `remove_node(id)` keeps the keys distinct, gives the
/// pruned map and does not add edges.
proof fn lemma_prune(ls: Seq<AdjView>, id: Seq<char>)
    requires
        unique_keys(ls, adj_key()),
    ensures
        unique_keys(prune_lists(ls, id), adj_key()),
        keyed_map(prune_lists(ls, id), adj_key()) =~= prune_map(keyed_map(ls, adj_key()), id),
        total_edges(prune_lists(ls, id)) <= total_edges(ls),
    decreases ls.len(),
{
    if ls.len() == 0 {
        assert(keyed_map(ls, adj_key()) =~= Map::empty());
        assert(keyed_map(prune_lists(ls, id), adj_key()) =~= Map::empty());
    } else {
        let p = ls.drop_last();
        let a = ls.last();
        lemma_unique_drop_last(ls, adj_key());
        lemma_prune(p, id);
        lemma_keyed_push(p, adj_key(), a);
        assert(p.push(a) =~= ls);
        let m = keyed_map(p, adj_key());
        if a.from == id {
            assert(prune_map(m.insert(a.from, a), id) =~= prune_map(m, id));
        } else {
            let q = prune_lists(p, id);
            assert(!has_key(q, adj_key(), a.from)) by {
                if has_key(q, adj_key(), a.from) {
                    assert(keyed_map(q, adj_key()).contains_key(a.from));
                }
            }
            lemma_keyed_push(q, adj_key(), pruned(a, id));
            assert(prune_map(m.insert(a.from, a), id) =~= prune_map(m, id).insert(a.from, pruned(a, id)));
            lemma_total_push(q, pruned(a, id));
            lemma_drop_target_len(a.entries, id);
        }
    }
}

/// Copies the entries that do not point at `target`.
fn entries_without_target(es: &Vec<EdgeEntry>, target: &String) -> (r: Vec<EdgeEntry>)
    ensures
        entry_views(r@) == drop_target(entry_views(es@), target@),
{
    let mut r: Vec<EdgeEntry> = Vec::new();
    let mut i: usize = 0;
    while i < es.len()
        invariant
            i <= es.len(),
            entry_views(r@) == drop_target(entry_views(es@).take(i as int), target@),
        decreases es.len() - i,
    {
        let ghost prev = r@;
        let ghost vs = entry_views(es@);
        if es[i].to != *target {
            r.push(es[i].copy());
            proof {
                assert(entry_views(r@) =~= entry_views(prev).push(vs[i as int]));
            }
        }
        proof {
            assert(vs.take(i + 1).drop_last() =~= vs.take(i as int));
            assert(vs.take(i + 1).last() == vs[i as int]);
        }
        i = i + 1;
    }
    assert(entry_views(es@).take(es.len() as int) =~= entry_views(es@));
    r
}

/// Copies the entries that `remove_edge(_, to, edge_type)` keeps.
fn entries_kept(es: &Vec<EdgeEntry>, to: &String, edge_type: &Option<String>) -> (r: Vec<EdgeEntry>)
    ensures
        entry_views(r@) == kept_edges(
            entry_views(es@),
            to@,
            match edge_type {
                Some(t) => Some(t@),
                None => None,
            },
        ),
{
    let ghost et = match edge_type {
        Some(t) => Some(t@),
        None => None,
    };
    let mut r: Vec<EdgeEntry> = Vec::new();
    let mut i: usize = 0;
    while i < es.len()
        invariant
            i <= es.len(),
            et == match edge_type {
                Some(t) => Some(t@),
                None => None::<Seq<char>>,
            },
            entry_views(r@) == kept_edges(entry_views(es@).take(i as int), to@, et),
        decreases es.len() - i,
    {
        let ghost prev = r@;
        let ghost vs = entry_views(es@);
        let keep = if es[i].to != *to {
            true
        } else {
            match edge_type {
                Some(t) => es[i].edge_type != *t,
                None => false,
            }
        };
        assert(keep == keeps_edge(vs[i as int], to@, et));
        if keep {
            r.push(es[i].copy());
            proof {
                assert(entry_views(r@) =~= entry_views(prev).push(vs[i as int]));
            }
        }
        proof {
            assert(vs.take(i + 1).drop_last() =~= vs.take(i as int));
            assert(vs.take(i + 1).last() == vs[i as int]);
        }
        i = i + 1;
    }
    assert(entry_views(es@).take(es.len() as int) =~= entry_views(es@));
    r
}

/// The edges from `from` for the entries `es` (of one type, if given).
fn edges_from(from: &String, es: &Vec<EdgeEntry>, edge_type: &Option<String>) -> (r: Vec<GraphEdge>)
    ensures
        edge_list_view(r@) == match edge_type {
            Some(t) => records_of(from@, typed_edges(entry_views(es@), t@)),
            None => records_of(from@, entry_views(es@)),
        },
{
    let ghost vs = entry_views(es@);
    let mut r: Vec<GraphEdge> = Vec::new();
    let mut i: usize = 0;
    while i < es.len()
        invariant
            i <= es.len(),
            vs == entry_views(es@),
            edge_list_view(r@) == match edge_type {
                Some(t) => records_of(from@, typed_edges(vs.take(i as int), t@)),
                None => records_of(from@, vs.take(i as int)),
            },
        decreases es.len() - i,
    {
        let ghost prev = r@;
        let keep = match edge_type {
            Some(t) => es[i].edge_type == *t,
            None => true,
        };
        if keep {
            r.push(es[i].to_edge(from));
            proof {
                assert(edge_list_view(r@) =~= edge_list_view(prev).push(record_of(from@, vs[i as int])));
            }
        }
        proof {
            assert(vs.take(i + 1).drop_last() =~= vs.take(i as int));
            assert(vs.take(i + 1).last() == vs[i as int]);
            match edge_type {
                Some(t) => {
                    let a = typed_edges(vs.take(i as int), t@);
                    if keep {
                        assert(records_of(from@, a.push(vs[i as int])) =~= records_of(from@, a).push(
                            record_of(from@, vs[i as int]),
                        ));
                    }
                },
                None => {
                    assert(vs.take(i + 1) =~= vs.take(i as int).push(vs[i as int]));
                    assert(records_of(from@, vs.take(i + 1)) =~= records_of(from@, vs.take(i as int)).push(
                        record_of(from@, vs[i as int]),
                    ));
                },
            }
        }
        i = i + 1;
    }
    assert(vs.take(es.len() as int) =~= vs);
    r
}

impl GraphShard {
    /// Remove a node and all its edges, outgoing and incoming. Returns
    /// whether the node existed; nothing changes when it did not.
    pub fn remove_node(&mut self, id: &str) -> (r: bool)
        requires
            old(self).wf(),
        ensures
            final(self).wf(),
            r == old(self).node_map().contains_key(id@),
            r ==> final(self).node_map() == old(self).node_map().remove(id@),
            r ==> final(self).adj_map() == prune_map(old(self).adj_map(), id@),
            !r ==> final(self).node_map() == old(self).node_map(),
            !r ==> final(self).adj_map() == old(self).adj_map(),
            final(self).edge_total() <= old(self).edge_total(),
            final(self).allowed_types() == old(self).allowed_types(),
    {
        let key = owned(id);
        match self.find_node(&key) {
            None => false,
            Some(i) => {
                let ghost old_nodes = self.node_views();
                let ghost old_lists = self.adj_views();
                self.nodes.remove(i);
                proof {
                    assert(self.node_views() =~= old_nodes.remove(i as int));
                    assert(old_nodes[i as int] == old(self).nodes@[i as int]@);
                    lemma_keyed_remove(old_nodes, node_key(), i as int);
                }
                let mut lists: Vec<AdjList> = Vec::new();
                let mut j: usize = 0;
                while j < self.edges.len()
                    invariant
                        j <= self.edges.len(),
                        old_lists == self.adj_views(),
                        key@ == id@,
                        lists@.map_values(|a: AdjList| a@) == prune_lists(old_lists.take(j as int), id@),
                    decreases self.edges.len() - j,
                {
                    let ghost prev = lists@;
                    if self.edges[j].from != key {
                        let es = entries_without_target(&self.edges[j].entries, &key);
                        let a = AdjList { from: self.edges[j].from.clone(), entries: es };
                        lists.push(a);
                        proof {
                            assert(a@ == pruned(old_lists[j as int], id@));
                            assert(lists@.map_values(|a: AdjList| a@) =~= prev.map_values(|a: AdjList| a@).push(
                                a@,
                            ));
                        }
                    }
                    proof {
                        assert(old_lists[j as int] == self.edges@[j as int]@);
                        assert(old_lists.take(j + 1).drop_last() =~= old_lists.take(j as int));
                        assert(old_lists.take(j + 1).last() == old_lists[j as int]);
                    }
                    j = j + 1;
                }
                proof {
                    assert(old_lists.take(old_lists.len() as int) =~= old_lists);
                    lemma_prune(old_lists, id@);
                }
                self.edges = lists;
                assert(self.allowed_types() =~= old(self).allowed_types());
                true
            },
        }
    }

    /// Whether the schema allows edges of this type.
    fn type_allowed(&self, edge_type: &String) -> (r: bool)
        ensures
            r == (self.allowed_types().len() == 0 || self.allowed_types().contains(edge_type@)),
    {
        if self.edge_configs.len() == 0 {
            return true;
        }
        let mut i: usize = 0;
        while i < self.edge_configs.len()
            invariant
                i <= self.edge_configs.len(),
                forall|j: int| 0 <= j < i ==> self.allowed_types()[j] != edge_type@,
            decreases self.edge_configs.len() - i,
        {
            if self.edge_configs[i].edge_type == *edge_type {
                assert(self.allowed_types()[i as int] == edge_type@);
                return true;
            }
            i = i + 1;
        }
        false
    }

    /// The error for an edge type outside the schema.
    fn unknown_type_error(&self, edge_type: &String) -> (r: Error)
        ensures
            r matches Error::Schema(m) && m@ == unknown_edge_type_message(edge_type@, self.allowed_types()),
    {
        let ghost allowed = self.allowed_types();
        let mut v = chars_of("Unknown edge type: ");
        let mut t = chars_of(edge_type.as_str());
        v.append(&mut t);
        let mut mid = chars_of(". Valid types: [");
        v.append(&mut mid);
        let ghost head = v@;
        proof {
            reveal_strlit("Unknown edge type: ");
            reveal_strlit(". Valid types: [");
            reveal_strlit(". Valid types: ");
            reveal_strlit("[");
        }
        let mut i: usize = 0;
        while i < self.edge_configs.len()
            invariant
                i <= self.edge_configs.len(),
                allowed == self.allowed_types(),
                v@ == head + debug_items(allowed.take(i as int)),
            decreases self.edge_configs.len() - i,
        {
            let ghost before = v@;
            if i > 0 {
                let mut sep = chars_of(", ");
                v.append(&mut sep);
            }
            let q = debug_quoted(self.edge_configs[i].edge_type.as_str());
            let mut qc = chars_of(q.as_str());
            v.append(&mut qc);
            proof {
                let items = allowed.take(i + 1);
                assert(items.drop_last() =~= allowed.take(i as int));
                assert(items.last() == allowed[i as int]);
                assert(allowed[i as int] == self.edge_configs@[i as int].edge_type@);
                if i == 0 {
                    assert(items[0] == allowed[0]);
                    assert(debug_items(allowed.take(0)) =~= Seq::<char>::empty());
                    assert(v@ =~= head + debug_items(items));
                } else {
                    assert(v@ =~= head + (debug_items(allowed.take(i as int)) + ", "@ + str_debug(items.last())));
                }
            }
            i = i + 1;
        }
        let mut close = chars_of("]");
        v.append(&mut close);
        proof {
            reveal_strlit("]");
            assert(allowed.take(allowed.len() as int) =~= allowed);
            assert(v@ =~= unknown_edge_type_message(edge_type@, allowed));
        }
        Error::Schema(string_from_chars(&v))
    }

    /// Add an edge. With edge types configured, an edge of another type is
    /// refused with a schema error and nothing changes.
    pub fn add_edge(&mut self, edge: GraphEdge) -> (r: Result<(), Error>)
        requires
            old(self).wf(),
            old(self).edge_total() < usize::MAX,
        ensures
            final(self).wf(),
            r is Err <==> (old(self).allowed_types().len() > 0 && !old(self).allowed_types().contains(
                edge.edge_type@,
            )),
            r matches Err(e) ==> e matches Error::Schema(m) && m@ == unknown_edge_type_message(
                edge.edge_type@,
                old(self).allowed_types(),
            ),
            r is Err ==> final(self).adj_map() == old(self).adj_map() && final(self).edge_total() == old(
                self,
            ).edge_total(),
            r is Ok ==> final(self).adj_map() == old(self).adj_map().insert(
                edge.from@,
                AdjView {
                    from: edge.from@,
                    entries: out_edges(old(self).adj_map(), edge.from@).push(
                        EdgeView { to: edge.to@, edge_type: edge.edge_type@, weight_bits: edge.weight_bits },
                    ),
                },
            ),
            r is Ok ==> final(self).edge_total() == old(self).edge_total() + 1,
            final(self).node_map() == old(self).node_map(),
            final(self).allowed_types() == old(self).allowed_types(),
    {
        if !self.type_allowed(&edge.edge_type) {
            return Err(self.unknown_type_error(&edge.edge_type));
        }
        let ghost old_lists = self.adj_views();
        let ghost ev = EdgeView { to: edge.to@, edge_type: edge.edge_type@, weight_bits: edge.weight_bits };
        let GraphEdge { from, to, edge_type, weight_bits } = edge;
        let entry = EdgeEntry { to, edge_type, weight_bits };
        assert(entry@ == ev);
        match self.find_adj(&from) {
            Some(i) => {
                let mut lst = self.edges.remove(i);
                let ghost old_entries = lst.entries@;
                lst.entries.push(entry);
                proof {
                    assert(entry_views(lst.entries@) =~= entry_views(old_entries).push(ev));
                }
                let ghost nv = lst@;
                self.edges.insert(i, lst);
                proof {
                    assert(self.edges@ =~= old(self).edges@.update(i as int, self.edges@[i as int]));
                    assert(self.adj_views() =~= old_lists.update(i as int, nv));
                    assert(old_lists[i as int] == old(self).edges@[i as int]@);
                    lemma_keyed_at(old_lists, adj_key(), i as int);
                    lemma_keyed_update(old_lists, adj_key(), i as int, nv);
                    lemma_total_update(old_lists, i as int, nv);
                }
            },
            None => {
                let mut entries: Vec<EdgeEntry> = Vec::new();
                entries.push(entry);
                let lst = AdjList { from, entries };
                proof {
                    assert(entry_views(lst.entries@) =~= Seq::<EdgeView>::empty().push(ev));
                    assert(Seq::<EdgeView>::empty().push(ev) =~= out_edges(old(self).adj_map(), lst.from@).push(ev));
                }
                let ghost nv = lst@;
                self.edges.push(lst);
                proof {
                    assert(self.adj_views() =~= old_lists.push(nv));
                    lemma_keyed_push(old_lists, adj_key(), nv);
                    lemma_total_push(old_lists, nv);
                }
            },
        }
        assert(self.node_views() =~= old(self).node_views());
        assert(self.allowed_types() =~= old(self).allowed_types());
        Ok(())
    }

    /// Remove the edges from `from` to `to` (of `edge_type` only, if given).
    /// Returns whether any edge was removed.
    pub fn remove_edge(&mut self, from: &str, to: &str, edge_type: Option<&str>) -> (r: bool)
        requires
            old(self).wf(),
        ensures
            final(self).wf(),
            r == (kept_edges(out_edges(old(self).adj_map(), from@), to@, opt_str(edge_type)).len() < out_edges(
                old(self).adj_map(),
                from@,
            ).len()),
            old(self).adj_map().contains_key(from@) ==> final(self).adj_map() == old(self).adj_map().insert(
                from@,
                AdjView {
                    from: from@,
                    entries: kept_edges(out_edges(old(self).adj_map(), from@), to@, opt_str(edge_type)),
                },
            ),
            !old(self).adj_map().contains_key(from@) ==> final(self).adj_map() == old(self).adj_map(),
            final(self).edge_total() <= old(self).edge_total(),
            final(self).node_map() == old(self).node_map(),
            final(self).allowed_types() == old(self).allowed_types(),
    {
        let key = owned(from);
        let target = owned(to);
        let et: Option<String> = match edge_type {
            Some(t) => Some(owned(t)),
            None => None,
        };
        assert(match et {
            Some(t) => Some(t@),
            None => None,
        } == opt_str(edge_type));
        let ghost old_lists = self.adj_views();
        match self.find_adj(&key) {
            None => {
                proof {
                    assert(out_edges(old(self).adj_map(), from@) =~= Seq::<EdgeView>::empty());
                }
                false
            },
            Some(i) => {
                let lst = self.edges.remove(i);
                let ghost old_len = entry_views(lst.entries@).len();
                let kept = entries_kept(&lst.entries, &target, &et);
                let removed = kept.len() < lst.entries.len();
                let nl = AdjList { from: lst.from, entries: kept };
                let ghost nv = nl@;
                self.edges.insert(i, nl);
                proof {
                    assert(self.edges@ =~= old(self).edges@.update(i as int, self.edges@[i as int]));
                    assert(self.adj_views() =~= old_lists.update(i as int, nv));
                    assert(old_lists[i as int] == old(self).edges@[i as int]@);
                    lemma_keyed_at(old_lists, adj_key(), i as int);
                    lemma_keyed_update(old_lists, adj_key(), i as int, nv);
                    lemma_total_update(old_lists, i as int, nv);
                    lemma_kept_edges_len(old_lists[i as int].entries, to@, opt_str(edge_type));
                }
                assert(self.node_views() =~= old(self).node_views());
                assert(self.allowed_types() =~= old(self).allowed_types());
                removed
            },
        }
    }

    /// All outgoing edges of a node.
    pub fn get_edges(&self, from: &str) -> (r: Vec<GraphEdge>)
        requires
            self.wf(),
        ensures
            edge_list_view(r@) == records_of(from@, out_edges(self.adj_map(), from@)),
    {
        let key = owned(from);
        match self.find_adj(&key) {
            None => {
                let r: Vec<GraphEdge> = Vec::new();
                assert(records_of(from@, out_edges(self.adj_map(), from@)) =~= Seq::<EdgeRecord>::empty());
                assert(edge_list_view(r@) =~= Seq::<EdgeRecord>::empty());
                r
            },
            Some(i) => {
                proof {
                    assert(self.adj_views()[i as int] == self.edges@[i as int]@);
                    lemma_keyed_at(self.adj_views(), adj_key(), i as int);
                }
                edges_from(&key, &self.edges[i].entries, &None)
            },
        }
    }

    /// The outgoing edges of a node that have the given type.
    pub fn get_edges_by_type(&self, from: &str, edge_type: &str) -> (r: Vec<GraphEdge>)
        requires
            self.wf(),
        ensures
            edge_list_view(r@) == records_of(from@, typed_edges(out_edges(self.adj_map(), from@), edge_type@)),
    {
        let key = owned(from);
        match self.find_adj(&key) {
            None => {
                let ghost e: Seq<EdgeView> = Seq::empty();
                assert(out_edges(self.adj_map(), from@) =~= e);
                assert(typed_edges(e, edge_type@) =~= e);
                let r: Vec<GraphEdge> = Vec::new();
                assert(records_of(from@, e) =~= Seq::<EdgeRecord>::empty());
                assert(edge_list_view(r@) =~= Seq::<EdgeRecord>::empty());
                r
            },
            Some(i) => {
                proof {
                    assert(self.adj_views()[i as int] == self.edges@[i as int]@);
                    lemma_keyed_at(self.adj_views(), adj_key(), i as int);
                }
                edges_from(&key, &self.edges[i].entries, &Some(owned(edge_type)))
            },
        }
    }

    /// Remove every node and edge.
    pub fn clear(&mut self)
        requires
            old(self).wf(),
        ensures
            final(self).wf(),
            final(self).node_map() == Map::<Seq<char>, NodeView>::empty(),
            final(self).adj_map() == Map::<Seq<char>, AdjView>::empty(),
            final(self).edge_total() == 0,
            final(self).allowed_types() == old(self).allowed_types(),
    {
        self.nodes.clear();
        self.edges.clear();
        assert(self.node_views() =~= Seq::empty());
        assert(self.adj_views() =~= Seq::empty());
        assert(self.node_map() =~= Map::empty());
        assert(self.adj_map() =~= Map::empty());
        assert(self.allowed_types() =~= old(self).allowed_types());
    }

    /// All nodes of this shard, each once.
    pub fn list_nodes(&self) -> (r: Vec<GraphNode>)
        requires
            self.wf(),
        ensures
            r.len() == self.node_map().dom().len(),
            forall|i: int| 0 <= i < r.len() ==> #[trigger] self.node_map().contains_key(r@[i].id@)
                && self.node_map()[r@[i].id@] == r@[i]@,
            forall|i: int, j: int| 0 <= i < j < r.len() ==> r@[i].id@ != r@[j].id@,
            r@.map_values(|n: GraphNode| n@) == self.node_views(),
    {
        let mut r: Vec<GraphNode> = Vec::new();
        let mut i: usize = 0;
        while i < self.nodes.len()
            invariant
                i <= self.nodes.len(),
                self.wf(),
                r.len() == i,
                forall|k: int| 0 <= k < i ==> #[trigger] r@[k]@ == self.nodes@[k]@,
            decreases self.nodes.len() - i,
        {
            r.push(self.nodes[i].copy());
            i = i + 1;
        }
        proof {
            lemma_keyed_len(self.node_views(), node_key());
            assert forall|k: int| 0 <= k < r.len() implies #[trigger] self.node_map().contains_key(r@[k].id@)
                && self.node_map()[r@[k].id@] == r@[k]@ by {
                assert(self.node_views()[k] == self.nodes@[k]@);
                assert(r@[k]@ == self.nodes@[k]@);
                assert(node_key()(self.node_views()[k]) == r@[k].id@);
                lemma_keyed_at(self.node_views(), node_key(), k);
            }
            assert(r@.map_values(|n: GraphNode| n@) =~= self.node_views());
            assert forall|a: int, b: int| 0 <= a < b < r.len() implies r@[a].id@ != r@[b].id@ by {
                assert(self.node_views()[a] == self.nodes@[a]@);
                assert(self.node_views()[b] == self.nodes@[b]@);
                assert(r@[a]@ == self.nodes@[a]@);
                assert(r@[b]@ == self.nodes@[b]@);
                assert(node_key()(self.node_views()[a]) != node_key()(self.node_views()[b]));
            }
        }
        r
    }
}

// ---------------------------------------------------------------------------
// Breadth-first search
// ---------------------------------------------------------------------------

/// The targets newly reached through the edges `es` of type `et`, in edge
/// order: each target once, and none already in `seen`.
pub open spec fn scan_edges(es: Seq<EdgeView>, et: Seq<char>, seen: Set<Seq<char>>) -> Seq<Seq<char>>
    decreases es.len(),
{
    if es.len() == 0 {
        Seq::empty()
    } else {
        let prev = scan_edges(es.drop_last(), et, seen);
        let e = es.last();
        if e.edge_type == et && !seen.contains(e.to) && !prev.contains(e.to) {
            prev.push(e.to)
        } else {
            prev
        }
    }
}

/// The next BFS level: the nodes of `frontier` expanded in order, each new
/// target once, none already in `seen`.
pub open spec fn scan_frontier(
    g: Map<Seq<char>, AdjView>,
    et: Seq<char>,
    frontier: Seq<Seq<char>>,
    seen: Set<Seq<char>>,
) -> Seq<Seq<char>>
    decreases frontier.len(),
{
    if frontier.len() == 0 {
        Seq::empty()
    } else {
        let prev = scan_frontier(g, et, frontier.drop_last(), seen);
        prev + scan_edges(out_edges(g, frontier.last()), et, seen + prev.to_set())
    }
}

/// The next `depth` BFS levels after `frontier`, one after the other.
pub open spec fn bfs_levels(
    g: Map<Seq<char>, AdjView>,
    et: Seq<char>,
    frontier: Seq<Seq<char>>,
    seen: Set<Seq<char>>,
    depth: nat,
) -> Seq<Seq<char>>
    decreases depth,
{
    if depth == 0 {
        Seq::empty()
    } else {
        let next = scan_frontier(g, et, frontier, seen);
        next + bfs_levels(g, et, next, seen + next.to_set(), (depth - 1) as nat)
    }
}

/// The nodes a breadth-first search from `start` over edges of type `et`
/// reports, level by level, up to `max_depth` hops; `start` itself is not
/// reported.
pub open spec fn bfs_order(g: Map<Seq<char>, AdjView>, start: Seq<char>, et: Seq<char>, max_depth: nat) -> Seq<
    Seq<char>,
> {
    bfs_levels(g, et, seq![start], set![start], max_depth)
}

proof fn lemma_bfs_levels_empty(g: Map<Seq<char>, AdjView>, et: Seq<char>, seen: Set<Seq<char>>, depth: nat)
    ensures
        bfs_levels(g, et, Seq::empty(), seen, depth) == Seq::<Seq<char>>::empty(),
    decreases depth,
{
    if depth > 0 {
        let e: Seq<Seq<char>> = Seq::empty();
        assert(scan_frontier(g, et, e, seen) == e);
        lemma_bfs_levels_empty(g, et, seen + e.to_set(), (depth - 1) as nat);
        assert(e + e =~= e);
    }
}

fn contains_string(v: &Vec<String>, s: &String) -> (r: bool)
    ensures
        r == strings_view(v@).contains(s@),
{
    let mut i: usize = 0;
    while i < v.len()
        invariant
            i <= v.len(),
            forall|j: int| 0 <= j < i ==> v@[j]@ != s@,
        decreases v.len() - i,
    {
        if v[i] == *s {
            assert(strings_view(v@)[i as int] == s@);
            return true;
        }
        i = i + 1;
    }
    proof {
        if strings_view(v@).contains(s@) {
            let j = choose|j: int| 0 <= j < strings_view(v@).len() && strings_view(v@)[j] == s@;
            assert(strings_view(v@)[j] == v@[j]@);
        }
    }
    false
}

proof fn lemma_push_to_set(s: Seq<Seq<char>>, x: Seq<char>)
    ensures
        s.push(x).to_set() =~= s.to_set().insert(x),
{
    assert(s.push(x) =~= s + seq![x]);
    Seq::lemma_to_set_insert_commutes(s, x);
}

impl GraphShard {
    /// Expand one BFS level: the new targets, in order; each is also added
    /// to `visited`.
    fn expand_level(&self, frontier: &Vec<String>, et: &String, visited: &mut Vec<String>) -> (next: Vec<String>)
        requires
            self.wf(),
        ensures
            strings_view(next@) == scan_frontier(
                self.adj_map(),
                et@,
                strings_view(frontier@),
                strings_view(old(visited)@).to_set(),
            ),
            strings_view(final(visited)@).to_set() == strings_view(old(visited)@).to_set() + strings_view(
                next@,
            ).to_set(),
    {
        let ghost g = self.adj_map();
        let ghost v0 = strings_view(visited@).to_set();
        let ghost fr = strings_view(frontier@);
        let mut next: Vec<String> = Vec::new();
        let mut i: usize = 0;
        proof {
            assert(strings_view(next@) =~= Seq::<Seq<char>>::empty());
            assert(strings_view(next@).to_set() =~= Set::<Seq<char>>::empty());
            assert(v0 + Set::<Seq<char>>::empty() =~= v0);
        }
        while i < frontier.len()
            invariant
                i <= frontier.len(),
                self.wf(),
                g == self.adj_map(),
                fr == strings_view(frontier@),
                strings_view(next@) == scan_frontier(g, et@, fr.take(i as int), v0),
                strings_view(visited@).to_set() == v0 + strings_view(next@).to_set(),
            decreases frontier.len() - i,
        {
            let ghost p = strings_view(next@);
            let ghost sp = v0 + p.to_set();
            let ghost x = fr[i as int];
            assert(frontier@[i as int]@ == x);
            proof {
                assert(fr.take(i + 1).drop_last() =~= fr.take(i as int));
                assert(fr.take(i + 1).last() == x);
            }
            match self.find_adj(&frontier[i]) {
                None => {
                    proof {
                        assert(out_edges(g, x) =~= Seq::<EdgeView>::empty());
                        assert(p + Seq::<Seq<char>>::empty() =~= p);
                    }
                },
                Some(j) => {
                    let ghost es = entry_views(self.edges@[j as int].entries@);
                    proof {
                        assert(self.adj_views()[j as int] == self.edges@[j as int]@);
                        lemma_keyed_at(self.adj_views(), adj_key(), j as int);
                        assert(out_edges(g, x) == es);
                        assert(p + Seq::<Seq<char>>::empty() =~= p);
                        assert(scan_edges(es.take(0), et@, sp) =~= Seq::<Seq<char>>::empty());
                    }
                    let mut k: usize = 0;
                    while k < self.edges[j].entries.len()
                        invariant
                            j < self.edges.len(),
                            k <= self.edges@[j as int].entries.len(),
                            es == entry_views(self.edges@[j as int].entries@),
                            sp == v0 + p.to_set(),
                            strings_view(next@) == p + scan_edges(es.take(k as int), et@, sp),
                            strings_view(visited@).to_set() == v0 + strings_view(next@).to_set(),
                        decreases self.edges@[j as int].entries.len() - k,
                    {
                        let ghost q = scan_edges(es.take(k as int), et@, sp);
                        let e = &self.edges[j].entries[k];
                        assert(e@ == es[k as int]);
                        proof {
                            assert(es.take(k + 1).drop_last() =~= es.take(k as int));
                            assert(es.take(k + 1).last() == es[k as int]);
                            vstd::seq_lib::seq_to_set_distributes_over_add(p, q);
                            assert(strings_view(visited@).to_set() =~= sp + q.to_set());
                        }
                        let fresh = e.edge_type == *et && !contains_string(visited, &e.to);
                        proof {
                            let cond = es[k as int].edge_type == et@ && !sp.contains(es[k as int].to) && !q.contains(
                                es[k as int].to,
                            );
                            let x = es[k as int].to;
                            assert(e.to@ == x);
                            assert(e.edge_type@ == es[k as int].edge_type);
                            assert(strings_view(visited@).to_set().contains(x) == strings_view(visited@).contains(x));
                            assert(q.to_set().contains(x) == q.contains(x));
                            assert(strings_view(visited@).contains(x) == (sp.contains(x) || q.contains(x)));
                            assert(fresh == cond);
                            assert(scan_edges(es.take(k + 1), et@, sp) == (if cond {
                                q.push(es[k as int].to)
                            } else {
                                q
                            }));
                        }
                        if fresh {
                            let ghost before_next = next@;
                            let ghost before_visited = visited@;
                            visited.push(e.to.clone());
                            next.push(e.to.clone());
                            proof {
                                assert(strings_view(next@) =~= strings_view(before_next).push(e.to@));
                                assert(strings_view(visited@) =~= strings_view(before_visited).push(e.to@));
                                lemma_push_to_set(strings_view(before_visited), e.to@);
                                lemma_push_to_set(strings_view(before_next), e.to@);
                                assert(p + q.push(e.to@) =~= (p + q).push(e.to@));
                                assert(strings_view(visited@).to_set() =~= v0 + strings_view(next@).to_set());
                            }
                        }
                        k = k + 1;
                    }
                    proof {
                        assert(es.take(es.len() as int) =~= es);
                    }
                },
            }
            i = i + 1;
        }
        proof {
            assert(fr.take(fr.len() as int) =~= fr);
        }
        next
    }

    /// Breadth-first search from `start` over edges of `edge_type`, up to
    /// `max_depth` hops. The start node is not reported; every other node is
    /// reported once, level by level.
    pub fn bfs(&self, start: &str, edge_type: &str, max_depth: usize) -> (r: Vec<String>)
        requires
            self.wf(),
        ensures
            strings_view(r@) == bfs_order(self.adj_map(), start@, edge_type@, max_depth as nat),
    {
        let ghost g = self.adj_map();
        let et = owned(edge_type);
        let mut visited: Vec<String> = Vec::new();
        visited.push(owned(start));
        let mut frontier: Vec<String> = Vec::new();
        frontier.push(owned(start));
        let mut result: Vec<String> = Vec::new();
        let mut depth: usize = max_depth;
        proof {
            assert(strings_view(frontier@) =~= seq![start@]);
            assert(strings_view(visited@) =~= seq![start@]);
            assert(seq![start@].to_set() =~= set![start@]) by {
                lemma_push_to_set(Seq::<Seq<char>>::empty(), start@);
                assert(Seq::<Seq<char>>::empty().push(start@) =~= seq![start@]);
                assert(Seq::<Seq<char>>::empty().to_set() =~= Set::<Seq<char>>::empty());
            }
            assert(strings_view(result@) =~= Seq::<Seq<char>>::empty());
            assert(Seq::<Seq<char>>::empty() + bfs_order(g, start@, et@, max_depth as nat) =~= bfs_order(
                g,
                start@,
                et@,
                max_depth as nat,
            ));
        }
        while depth > 0 && frontier.len() > 0
            invariant
                self.wf(),
                g == self.adj_map(),
                et@ == edge_type@,
                strings_view(result@) + bfs_levels(
                    g,
                    et@,
                    strings_view(frontier@),
                    strings_view(visited@).to_set(),
                    depth as nat,
                ) == bfs_order(g, start@, et@, max_depth as nat),
            decreases depth,
        {
            let ghost f0 = strings_view(frontier@);
            let ghost v0 = strings_view(visited@).to_set();
            let ghost r0 = strings_view(result@);
            let next = self.expand_level(&frontier, &et, &mut visited);
            let ghost nv = strings_view(next@);
            let mut k: usize = 0;
            while k < next.len()
                invariant
                    k <= next.len(),
                    strings_view(result@) == r0 + strings_view(next@).take(k as int),
                decreases next.len() - k,
            {
                let ghost before = result@;
                result.push(next[k].clone());
                proof {
                    assert(strings_view(result@) =~= strings_view(before).push(next@[k as int]@));
                    assert(strings_view(next@).take(k + 1) =~= strings_view(next@).take(k as int).push(
                        next@[k as int]@,
                    ));
                }
                k = k + 1;
            }
            proof {
                assert(strings_view(next@).take(next.len() as int) =~= nv);
                assert(bfs_levels(g, et@, f0, v0, depth as nat) == nv + bfs_levels(
                    g,
                    et@,
                    nv,
                    v0 + nv.to_set(),
                    (depth - 1) as nat,
                ));
                assert(r0 + (nv + bfs_levels(g, et@, nv, v0 + nv.to_set(), (depth - 1) as nat)) =~= (r0 + nv)
                    + bfs_levels(g, et@, nv, v0 + nv.to_set(), (depth - 1) as nat));
            }
            frontier = next;
            depth = depth - 1;
        }
        proof {
            if depth > 0 {
                lemma_bfs_levels_empty(g, et@, strings_view(visited@).to_set(), depth as nat);
                assert(strings_view(frontier@) =~= Seq::<Seq<char>>::empty());
            }
            assert(strings_view(result@) + Seq::<Seq<char>>::empty() =~= strings_view(result@));
        }
        result
    }
}

// ---------------------------------------------------------------------------
// What the search reaches
// ---------------------------------------------------------------------------

/// The targets of the entries of `es` that have type `et`.
pub open spec fn typed_targets(es: Seq<EdgeView>, et: Seq<char>) -> Set<Seq<char>> {
    Set::new(|y: Seq<char>| exists|i: int| 0 <= i < es.len() && es[i].to == y && es[i].edge_type == et)
}

/// The nodes one hop from some node of `s` over an edge of type `et`.
pub open spec fn targets(g: Map<Seq<char>, AdjView>, et: Seq<char>, s: Set<Seq<char>>) -> Set<Seq<char>> {
    Set::new(|y: Seq<char>| exists|x: Seq<char>| s.contains(x) && #[trigger] typed_targets(out_edges(g, x), et).contains(y))
}

/// The nodes at most `n` hops from a node of `s` over edges of type `et`.
pub open spec fn hops_closure(g: Map<Seq<char>, AdjView>, et: Seq<char>, s: Set<Seq<char>>, n: nat) -> Set<Seq<char>>
    decreases n,
{
    if n == 0 {
        s
    } else {
        hops_closure(g, et, s + targets(g, et, s), (n - 1) as nat)
    }
}

/// No element of `s` is in `v`.
pub open spec fn avoids(s: Seq<Seq<char>>, v: Set<Seq<char>>) -> bool {
    forall|i: int| 0 <= i < s.len() ==> !v.contains(#[trigger] s[i])
}

proof fn lemma_scan_edges(es: Seq<EdgeView>, et: Seq<char>, seen: Set<Seq<char>>)
    ensures
        scan_edges(es, et, seen).to_set() =~= typed_targets(es, et) - seen,
        scan_edges(es, et, seen).no_duplicates(),
        avoids(scan_edges(es, et, seen), seen),
    decreases es.len(),
{
    let r = scan_edges(es, et, seen);
    if es.len() == 0 {
        assert(r.to_set() =~= Set::<Seq<char>>::empty());
        assert(typed_targets(es, et) =~= Set::<Seq<char>>::empty());
    } else {
        let p = es.drop_last();
        let prev = scan_edges(p, et, seen);
        let e = es.last();
        lemma_scan_edges(p, et, seen);
        assert forall|y: Seq<char>| #[trigger] typed_targets(es, et).contains(y) <==> (typed_targets(p, et).contains(y)
            || (e.to == y && e.edge_type == et)) by {
            if typed_targets(es, et).contains(y) {
                let i = choose|i: int| 0 <= i < es.len() && es[i].to == y && es[i].edge_type == et;
                if i < p.len() {
                    assert(p[i] == es[i]);
                }
            }
            if typed_targets(p, et).contains(y) {
                let i = choose|i: int| 0 <= i < p.len() && p[i].to == y && p[i].edge_type == et;
                assert(p[i] == es[i]);
            }
            if e.to == y && e.edge_type == et {
                assert(es[es.len() - 1] == e);
            }
        }
        if e.edge_type == et && !seen.contains(e.to) && !prev.contains(e.to) {
            lemma_push_to_set(prev, e.to);
            assert forall|i: int, j: int|
                0 <= i < r.len() && 0 <= j < r.len() && i != j implies r[i] != r[j] by {
                if i < prev.len() && j < prev.len() {
                } else if i < prev.len() {
                    assert(r[j] == e.to);
                    assert(prev.contains(r[i]));
                } else {
                    assert(r[i] == e.to);
                    assert(prev.contains(r[j]));
                }
            }
            assert forall|i: int| 0 <= i < r.len() implies !seen.contains(#[trigger] r[i]) by {
                if i < prev.len() {
                    assert(r[i] == prev[i]);
                }
            }
        } else {
            assert forall|y: Seq<char>| #[trigger] (typed_targets(es, et) - seen).contains(y) implies prev.to_set().contains(
                y,
            ) by {
                if !typed_targets(p, et).contains(y) {
                    assert(e.to == y);
                    assert(prev.contains(y));
                }
            }
        }
    }
}

proof fn lemma_targets_push(g: Map<Seq<char>, AdjView>, et: Seq<char>, f: Seq<Seq<char>>, x: Seq<char>)
    ensures
        targets(g, et, f.push(x).to_set()) =~= targets(g, et, f.to_set()) + typed_targets(out_edges(g, x), et),
{
    lemma_push_to_set(f, x);
    assert forall|y: Seq<char>| #[trigger] targets(g, et, f.push(x).to_set()).contains(y) implies (targets(
        g,
        et,
        f.to_set(),
    ) + typed_targets(out_edges(g, x), et)).contains(y) by {
        let z = choose|z: Seq<char>| f.push(x).to_set().contains(z) && #[trigger] typed_targets(out_edges(g, z), et).contains(y);
        if z != x {
            assert(f.to_set().contains(z));
        }
    }
    assert forall|y: Seq<char>| #[trigger] (targets(g, et, f.to_set()) + typed_targets(out_edges(g, x), et)).contains(y)
        implies targets(g, et, f.push(x).to_set()).contains(y) by {
        if typed_targets(out_edges(g, x), et).contains(y) {
            assert(f.push(x).to_set().contains(x));
        } else {
            let z = choose|z: Seq<char>| f.to_set().contains(z) && #[trigger] typed_targets(out_edges(g, z), et).contains(y);
            assert(f.push(x).to_set().contains(z));
        }
    }
}

proof fn lemma_scan_frontier(g: Map<Seq<char>, AdjView>, et: Seq<char>, f: Seq<Seq<char>>, seen: Set<Seq<char>>)
    ensures
        scan_frontier(g, et, f, seen).to_set() =~= targets(g, et, f.to_set()) - seen,
        scan_frontier(g, et, f, seen).no_duplicates(),
        avoids(scan_frontier(g, et, f, seen), seen),
    decreases f.len(),
{
    let r = scan_frontier(g, et, f, seen);
    if f.len() == 0 {
        assert(f.to_set() =~= Set::<Seq<char>>::empty());
        assert(targets(g, et, f.to_set()) =~= Set::<Seq<char>>::empty());
        assert(r.to_set() =~= Set::<Seq<char>>::empty());
    } else {
        let p = f.drop_last();
        let x = f.last();
        let prev = scan_frontier(g, et, p, seen);
        let s2 = seen + prev.to_set();
        let tail = scan_edges(out_edges(g, x), et, s2);
        lemma_scan_frontier(g, et, p, seen);
        lemma_scan_edges(out_edges(g, x), et, s2);
        assert(p.push(x) =~= f);
        lemma_targets_push(g, et, p, x);
        vstd::seq_lib::seq_to_set_distributes_over_add(prev, tail);
        assert(r == prev + tail);
        assert forall|i: int, j: int|
            0 <= i < r.len() && 0 <= j < r.len() && i != j implies r[i] != r[j] by {
            if i < prev.len() && j < prev.len() {
            } else if i < prev.len() {
                assert(r[j] == tail[j - prev.len()]);
                assert(s2.contains(r[i]));
            } else if j < prev.len() {
                assert(r[i] == tail[i - prev.len()]);
                assert(s2.contains(r[j]));
            } else {
                assert(r[i] == tail[i - prev.len()]);
                assert(r[j] == tail[j - prev.len()]);
            }
        }
        assert forall|i: int| 0 <= i < r.len() implies !seen.contains(#[trigger] r[i]) by {
            if i < prev.len() {
                assert(r[i] == prev[i]);
            } else {
                assert(r[i] == tail[i - prev.len()]);
            }
        }
    }
}

proof fn lemma_bfs_levels(
    g: Map<Seq<char>, AdjView>,
    et: Seq<char>,
    f: Seq<Seq<char>>,
    v: Set<Seq<char>>,
    d: nat,
)
    requires
        f.to_set().subset_of(v),
        targets(g, et, v - f.to_set()).subset_of(v),
    ensures
        v + bfs_levels(g, et, f, v, d).to_set() =~= hops_closure(g, et, v, d),
        bfs_levels(g, et, f, v, d).no_duplicates(),
        avoids(bfs_levels(g, et, f, v, d), v),
    decreases d,
{
    let r = bfs_levels(g, et, f, v, d);
    if d == 0 {
        assert(r.to_set() =~= Set::<Seq<char>>::empty());
    } else {
        let next = scan_frontier(g, et, f, v);
        let v2 = v + next.to_set();
        let rest = bfs_levels(g, et, next, v2, (d - 1) as nat);
        lemma_scan_frontier(g, et, f, v);
        // v2 is v with one more hop
        assert forall|y: Seq<char>| #[trigger] targets(g, et, v).contains(y) implies v2.contains(y) by {
            let z = choose|z: Seq<char>| v.contains(z) && #[trigger] typed_targets(out_edges(g, z), et).contains(y);
            if f.to_set().contains(z) {
                assert(targets(g, et, f.to_set()).contains(y));
            } else {
                assert(targets(g, et, v - f.to_set()).contains(y));
            }
        }
        assert forall|y: Seq<char>| #[trigger] next.to_set().contains(y) implies targets(g, et, v).contains(y) by {
            assert(targets(g, et, f.to_set()).contains(y));
            let z = choose|z: Seq<char>| f.to_set().contains(z) && #[trigger] typed_targets(out_edges(g, z), et).contains(y);
            assert(v.contains(z));
        }
        assert(v2 =~= v + targets(g, et, v));
        // the invariant holds for the next level
        assert(v2 - next.to_set() =~= v) by {
            assert forall|y: Seq<char>| v.contains(y) implies !next.to_set().contains(y) by {
                if next.to_set().contains(y) {
                    let i = choose|i: int| 0 <= i < next.len() && next[i] == y;
                    assert(!v.contains(next[i]));
                }
            }
        }
        assert(targets(g, et, v2 - next.to_set()).subset_of(v2));
        lemma_bfs_levels(g, et, next, v2, (d - 1) as nat);
        vstd::seq_lib::seq_to_set_distributes_over_add(next, rest);
        assert(r == next + rest);
        assert forall|i: int, j: int|
            0 <= i < r.len() && 0 <= j < r.len() && i != j implies r[i] != r[j] by {
            if i < next.len() && j < next.len() {
            } else if i < next.len() {
                assert(r[j] == rest[j - next.len()]);
                assert(v2.contains(r[i]));
            } else if j < next.len() {
                assert(r[i] == rest[i - next.len()]);
                assert(v2.contains(r[j]));
            } else {
                assert(r[i] == rest[i - next.len()]);
                assert(r[j] == rest[j - next.len()]);
            }
        }
        assert forall|i: int| 0 <= i < r.len() implies !v.contains(#[trigger] r[i]) by {
            if i < next.len() {
                assert(r[i] == next[i]);
            } else {
                assert(r[i] == rest[i - next.len()]);
                assert(!v2.contains(rest[i - next.len()]));
            }
        }
    }
}

/// Law: a breadth-first search reports each node within `max_depth` hops of
/// `start` over edges of type `et` exactly once, and nothing else; the
/// start node itself is not reported.
pub proof fn lemma_bfs_reaches_exactly(g: Map<Seq<char>, AdjView>, start: Seq<char>, et: Seq<char>, max_depth: nat)
    ensures
        bfs_order(g, start, et, max_depth).no_duplicates(),
        !bfs_order(g, start, et, max_depth).contains(start),
        bfs_order(g, start, et, max_depth).to_set() =~= hops_closure(g, et, set![start], max_depth).remove(start),
{
    let f = seq![start];
    let v = set![start];
    assert(f.to_set() =~= v) by {
        assert(f[0] == start);
    }
    assert(v - f.to_set() =~= Set::<Seq<char>>::empty());
    assert(targets(g, et, Set::<Seq<char>>::empty()) =~= Set::<Seq<char>>::empty());
    lemma_bfs_levels(g, et, f, v, max_depth);
    let r = bfs_order(g, start, et, max_depth);
    if r.contains(start) {
        let i = choose|i: int| 0 <= i < r.len() && r[i] == start;
        assert(!v.contains(r[i]));
    }
    assert forall|y: Seq<char>| #[trigger] r.to_set().contains(y) implies y != start by {}
}

// ---------------------------------------------------------------------------
// Merging shards
// ---------------------------------------------------------------------------

/// Adjacency after merging `b` into `a`: every source of either, with its
/// edges in `a` followed by its edges in `b`.
pub open spec fn merge_adj(a: Map<Seq<char>, AdjView>, b: Map<Seq<char>, AdjView>) -> Map<Seq<char>, AdjView> {
    Map::new(
        |k: Seq<char>| a.contains_key(k) || b.contains_key(k),
        |k: Seq<char>| AdjView { from: k, entries: out_edges(a, k) + out_edges(b, k) },
    )
}

impl GraphShard {
    /// Append `extra` to the adjacency list of `from` (creating it, even
    /// when `extra` is empty).
    fn append_entries(&mut self, from: &String, extra: &Vec<EdgeEntry>)
        requires
            old(self).wf(),
            old(self).edge_total() + extra.len() <= usize::MAX,
        ensures
            final(self).wf(),
            final(self).adj_map() == old(self).adj_map().insert(
                from@,
                AdjView { from: from@, entries: out_edges(old(self).adj_map(), from@) + entry_views(extra@) },
            ),
            final(self).edge_total() == old(self).edge_total() + extra.len(),
            final(self).node_map() == old(self).node_map(),
            final(self).allowed_types() == old(self).allowed_types(),
    {
        let ghost old_lists = self.adj_views();
        let ghost ev = entry_views(extra@);
        let mut copied: Vec<EdgeEntry> = Vec::new();
        let mut k: usize = 0;
        while k < extra.len()
            invariant
                k <= extra.len(),
                ev == entry_views(extra@),
                entry_views(copied@) == ev.take(k as int),
            decreases extra.len() - k,
        {
            let ghost before = copied@;
            copied.push(extra[k].copy());
            proof {
                assert(entry_views(copied@) =~= entry_views(before).push(ev[k as int]));
                assert(ev.take(k + 1) =~= ev.take(k as int).push(ev[k as int]));
            }
            k = k + 1;
        }
        assert(ev.take(extra.len() as int) =~= ev);
        match self.find_adj(from) {
            Some(i) => {
                let mut lst = self.edges.remove(i);
                let ghost old_entries = entry_views(lst.entries@);
                lst.entries.append(&mut copied);
                proof {
                    assert(entry_views(lst.entries@) =~= old_entries + ev);
                }
                let ghost nv = lst@;
                self.edges.insert(i, lst);
                proof {
                    assert(self.edges@ =~= old(self).edges@.update(i as int, self.edges@[i as int]));
                    assert(self.adj_views() =~= old_lists.update(i as int, nv));
                    assert(old_lists[i as int] == old(self).edges@[i as int]@);
                    lemma_keyed_at(old_lists, adj_key(), i as int);
                    lemma_keyed_update(old_lists, adj_key(), i as int, nv);
                    lemma_total_update(old_lists, i as int, nv);
                }
            },
            None => {
                let lst = AdjList { from: from.clone(), entries: copied };
                proof {
                    assert(out_edges(old(self).adj_map(), from@) + ev =~= ev);
                }
                let ghost nv = lst@;
                self.edges.push(lst);
                proof {
                    assert(self.adj_views() =~= old_lists.push(nv));
                    lemma_keyed_push(old_lists, adj_key(), nv);
                    lemma_total_push(old_lists, nv);
                }
            },
        }
        assert(self.node_views() =~= old(self).node_views());
        assert(self.allowed_types() =~= old(self).allowed_types());
    }

    /// Merge the nodes and edges of `other` into this shard: nodes of
    /// `other` replace nodes with the same id, and edges of `other` are
    /// appended after this shard's edges from the same source.
    pub fn merge_from(&mut self, other: &GraphShard)
        requires
            old(self).wf(),
            other.wf(),
            old(self).edge_total() + other.edge_total() <= usize::MAX,
        ensures
            final(self).wf(),
            final(self).node_map() == old(self).node_map().union_prefer_right(other.node_map()),
            final(self).adj_map() == merge_adj(old(self).adj_map(), other.adj_map()),
            final(self).edge_total() == old(self).edge_total() + other.edge_total(),
            final(self).allowed_types() == old(self).allowed_types(),
    {
        let ghost n0 = self.node_map();
        let ghost a0 = self.adj_map();
        let ghost t0 = self.edge_total();
        let ghost on = other.node_views();
        let ghost ol = other.adj_views();
        let mut i: usize = 0;
        proof {
            assert(keyed_map(on.take(0), node_key()) =~= Map::empty());
            assert(n0.union_prefer_right(Map::empty()) =~= n0);
        }
        while i < other.nodes.len()
            invariant
                i <= other.nodes.len(),
                other.wf(),
                on == other.node_views(),
                self.wf(),
                self.node_map() == n0.union_prefer_right(keyed_map(on.take(i as int), node_key())),
                self.adj_map() == a0,
                self.edge_total() == t0,
                self.allowed_types() == old(self).allowed_types(),
            decreases other.nodes.len() - i,
        {
            let n = other.nodes[i].copy();
            proof {
                assert(on[i as int] == other.nodes@[i as int]@);
                lemma_keyed_prefix_step(on, node_key(), i as int);
                let b = keyed_map(on.take(i as int), node_key());
                assert(n0.union_prefer_right(b.insert(n@.id, n@)) =~= n0.union_prefer_right(b).insert(n@.id, n@));
            }
            self.add_node(n);
            i = i + 1;
        }
        proof {
            assert(on.take(on.len() as int) =~= on);
        }
        let mut j: usize = 0;
        proof {
            assert(keyed_map(ol.take(0), adj_key()) =~= Map::empty());
            assert(merge_adj(a0, Map::empty()) =~= a0) by {
                assert forall|k: Seq<char>| #[trigger] a0.contains_key(k) implies merge_adj(a0, Map::empty())[k] == a0[k] by {
                    lemma_keyed_value_key(old(self).adj_views(), adj_key(), k);
                    assert(out_edges(a0, k) + out_edges(Map::empty(), k) =~= a0[k].entries);
                }
            }
            assert(total_edges(ol.take(0)) == 0);
        }
        while j < other.edges.len()
            invariant
                j <= other.edges.len(),
                other.wf(),
                ol == other.adj_views(),
                self.wf(),
                self.adj_map() == merge_adj(a0, keyed_map(ol.take(j as int), adj_key())),
                self.edge_total() == t0 + total_edges(ol.take(j as int)),
                t0 + other.edge_total() <= usize::MAX,
                self.node_map() == n0.union_prefer_right(other.node_map()),
                self.allowed_types() == old(self).allowed_types(),
            decreases other.edges.len() - j,
        {
            proof {
                assert(ol[j as int] == other.edges@[j as int]@);
                lemma_keyed_prefix_step(ol, adj_key(), j as int);
                lemma_total_prefix(ol, j + 1);
                assert(ol.take(j + 1).drop_last() =~= ol.take(j as int));
                let b = keyed_map(ol.take(j as int), adj_key());
                let l = ol[j as int];
                let m = merge_adj(a0, b);
                assert(!b.contains_key(l.from));
                assert(out_edges(b, l.from) =~= Seq::<EdgeView>::empty());
                assert(merge_adj(a0, b.insert(l.from, l)) =~= m.insert(
                    l.from,
                    AdjView { from: l.from, entries: out_edges(m, l.from) + l.entries },
                )) by {
                    assert(out_edges(a0, l.from) + Seq::<EdgeView>::empty() =~= out_edges(a0, l.from));
                }
            }
            self.append_entries(&other.edges[j].from, &other.edges[j].entries);
            j = j + 1;
        }
        proof {
            assert(ol.take(ol.len() as int) =~= ol);
        }
    }
}

/// All edges of the adjacency lists `ls`, list after list.
pub open spec fn flat_edges(ls: Seq<AdjView>) -> Seq<EdgeRecord>
    decreases ls.len(),
{
    if ls.len() == 0 {
        Seq::empty()
    } else {
        flat_edges(ls.drop_last()) + records_of(ls.last().from, ls.last().entries)
    }
}

/// The adjacency entry that describes an edge record.
pub open spec fn entry_of(rec: EdgeRecord) -> EdgeView {
    EdgeView { to: rec.to, edge_type: rec.edge_type, weight_bits: rec.weight_bits }
}

proof fn lemma_flat_edges(ls: Seq<AdjView>, rec: EdgeRecord)
    requires
        unique_keys(ls, adj_key()),
    ensures
        flat_edges(ls).len() == total_edges(ls),
        flat_edges(ls).contains(rec) <==> (keyed_map(ls, adj_key()).contains_key(rec.from) && keyed_map(
            ls,
            adj_key(),
        )[rec.from].entries.contains(entry_of(rec))),
    decreases ls.len(),
{
    if ls.len() == 0 {
    } else {
        let p = ls.drop_last();
        let a = ls.last();
        let tail = records_of(a.from, a.entries);
        lemma_unique_drop_last(ls, adj_key());
        lemma_flat_edges(p, rec);
        lemma_keyed_push(p, adj_key(), a);
        assert(p.push(a) =~= ls);
        let m = keyed_map(ls, adj_key());
        let mp = keyed_map(p, adj_key());
        if flat_edges(ls).contains(rec) {
            let i = choose|i: int| 0 <= i < flat_edges(ls).len() && flat_edges(ls)[i] == rec;
            if i >= flat_edges(p).len() {
                let k = i - flat_edges(p).len();
                assert(tail[k] == rec);
                assert(a.entries[k] == entry_of(rec));
                assert(m[a.from] == a);
            } else {
                assert(flat_edges(p)[i] == rec);
                assert(mp.contains_key(rec.from));
                assert(rec.from != a.from);
            }
        }
        if m.contains_key(rec.from) && m[rec.from].entries.contains(entry_of(rec)) {
            let k = choose|k: int| 0 <= k < m[rec.from].entries.len() && m[rec.from].entries[k] == entry_of(rec);
            if rec.from == a.from {
                assert(tail[k] == rec);
                assert(flat_edges(ls)[flat_edges(p).len() + k] == rec);
            } else {
                assert(mp[rec.from] == m[rec.from]);
                let i = choose|i: int| 0 <= i < flat_edges(p).len() && flat_edges(p)[i] == rec;
                assert(flat_edges(ls)[i] == rec);
            }
        }
    }
}

impl GraphShard {
    /// All edges of this shard.
    pub fn list_edges(&self) -> (r: Vec<GraphEdge>)
        requires
            self.wf(),
        ensures
            r.len() == self.edge_total(),
            forall|rec: EdgeRecord| #[trigger] edge_list_view(r@).contains(rec) <==> (self.adj_map().contains_key(
                rec.from,
            ) && self.adj_map()[rec.from].entries.contains(entry_of(rec))),
    {
        let ghost ls = self.adj_views();
        let mut r: Vec<GraphEdge> = Vec::new();
        let mut i: usize = 0;
        while i < self.edges.len()
            invariant
                i <= self.edges.len(),
                ls == self.adj_views(),
                edge_list_view(r@) == flat_edges(ls.take(i as int)),
            decreases self.edges.len() - i,
        {
            let mut part = edges_from(&self.edges[i].from, &self.edges[i].entries, &None);
            let ghost before = r@;
            r.append(&mut part);
            proof {
                assert(ls[i as int] == self.edges@[i as int]@);
                assert(ls.take(i + 1).drop_last() =~= ls.take(i as int));
                assert(ls.take(i + 1).last() == ls[i as int]);
                assert(edge_list_view(r@) =~= edge_list_view(before) + records_of(
                    ls[i as int].from,
                    ls[i as int].entries,
                ));
            }
            i = i + 1;
        }
        proof {
            assert(ls.take(ls.len() as int) =~= ls);
            assert forall|rec: EdgeRecord| #[trigger] edge_list_view(r@).contains(rec) <==> (self.adj_map().contains_key(
                rec.from,
            ) && self.adj_map()[rec.from].entries.contains(entry_of(rec))) by {
                lemma_flat_edges(ls, rec);
            }
            let any: EdgeRecord = EdgeRecord { from: Seq::empty(), to: Seq::empty(), edge_type: Seq::empty(), weight_bits: 0 };
            lemma_flat_edges(ls, any);
        }
        r
    }
}

proof fn lemma_drop_target_none(es: Seq<EdgeView>, id: Seq<char>)
    ensures
        forall|i: int| 0 <= i < drop_target(es, id).len() ==> (#[trigger] drop_target(es, id)[i]).to != id,
    decreases es.len(),
{
    if es.len() > 0 {
        lemma_drop_target_none(es.drop_last(), id);
        let r = drop_target(es, id);
        let p = drop_target(es.drop_last(), id);
        assert forall|i: int| 0 <= i < r.len() implies (#[trigger] r[i]).to != id by {
            if i < p.len() {
                assert(r[i] == p[i]);
            }
        }
    }
}

/// Law: after a node is removed, no adjacency list belongs to it and no edge
/// points at it.
pub proof fn lemma_removed_node_unreachable(m: Map<Seq<char>, AdjView>, id: Seq<char>)
    ensures
        !prune_map(m, id).contains_key(id),
        forall|k: Seq<char>, i: int|
            #![trigger prune_map(m, id)[k].entries[i]]
            prune_map(m, id).contains_key(k) && 0 <= i < prune_map(m, id)[k].entries.len()
                ==> prune_map(m, id)[k].entries[i].to != id,
{
    assert forall|k: Seq<char>, i: int|
        #![trigger prune_map(m, id)[k].entries[i]]
        prune_map(m, id).contains_key(k) && 0 <= i < prune_map(m, id)[k].entries.len() implies prune_map(
            m,
            id,
        )[k].entries[i].to != id by {
        lemma_drop_target_none(m[k].entries, id);
    }
}

/// Law: what a shard's node map holds after `add_node(n)` is `n` under its id,
/// so a lookup of that id gives `n` back.
pub proof fn lemma_node_read_after_write(after: Map<Seq<char>, NodeView>, before: Map<Seq<char>, NodeView>, n: NodeView)
    requires
        after == before.insert(n.id, n),
    ensures
        after.contains_key(n.id),
        after[n.id] == n,
        forall|k: Seq<char>| k != n.id ==> (after.contains_key(k) == before.contains_key(k)),
{
}

/// Law: after `remove_edge(_, to, edge_type)`, no edge that the call removes
/// is left among the source's outgoing edges, and every edge it keeps is
/// still there.
pub proof fn lemma_removed_edges_gone(es: Seq<EdgeView>, to: Seq<char>, edge_type: Option<Seq<char>>)
    ensures
        forall|i: int|
            0 <= i < kept_edges(es, to, edge_type).len() ==> keeps_edge(
                #[trigger] kept_edges(es, to, edge_type)[i],
                to,
                edge_type,
            ),
        forall|j: int|
            0 <= j < es.len() && keeps_edge(#[trigger] es[j], to, edge_type) ==> kept_edges(
                es,
                to,
                edge_type,
            ).contains(es[j]),
    decreases es.len(),
{
    if es.len() > 0 {
        let p = es.drop_last();
        lemma_removed_edges_gone(p, to, edge_type);
        let rest = kept_edges(p, to, edge_type);
        assert forall|j: int| 0 <= j < es.len() && keeps_edge(#[trigger] es[j], to, edge_type) implies kept_edges(
            es,
            to,
            edge_type,
        ).contains(es[j]) by {
            if j < es.len() - 1 {
                assert(es[j] == p[j]);
                let k = choose|k: int| 0 <= k < rest.len() && rest[k] == p[j];
                if keeps_edge(es.last(), to, edge_type) {
                    assert(rest.push(es.last())[k] == p[j]);
                }
            } else {
                assert(es[j] == es.last());
                assert(rest.push(es.last())[rest.len() as int] == es.last());
            }
        }
    }
}

/// Law: removing the edges of one target and type undoes adding such an
/// edge: the edges kept are those kept before the edge was added.
pub proof fn lemma_remove_undoes_add(es: Seq<EdgeView>, e: EdgeView)
    ensures
        kept_edges(es.push(e), e.to, Some(e.edge_type)) == kept_edges(es, e.to, Some(e.edge_type)),
        kept_edges(es.push(e), e.to, None) == kept_edges(es, e.to, None),
{
    assert(es.push(e).drop_last() =~= es);
}

} // verus!
