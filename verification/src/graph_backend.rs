//! Sharded graph backend: distributes nodes across graph shards by the same
//! hash as the vector backend, so that a node lands in the same shard as its
//! embedding.

use crate::config::owned;
use crate::error::Error;
use crate::graph::{bfs_order, edge_list_view, merge_adj, out_edges, records_of, typed_edges, AdjView,
    EdgeRecord, EdgeTypeConfig, EdgeView, GraphEdge, GraphNode, GraphShard, GraphStats, NodeView};
use crate::splitter::strings_view;
use crate::textutil::{chars_of, decimal, decimal_chars, string_from_chars};
use crate::vector::{shard_for_doc, shard_of};
use vstd::prelude::*;

verus! {

/// Whether edges may cross shards.
#[derive(Debug, Clone, Copy, PartialEq, Eq, Structural)]
pub enum GraphScope {
    /// Both endpoints of an edge must live in the same shard.
    Shard,
    /// Edges may point at nodes of any shard.
    Global,
}

/// Graph settings of a collection.
#[derive(Debug, Clone)]
pub struct GraphBackendConfig {
    pub path: String,
    pub edges: Vec<EdgeTypeConfig>,
    pub num_shards: usize,
    pub scope: GraphScope,
}

/// Multi-shard graph backend. With one shard it behaves as a single graph.
pub struct ShardedGraphBackend {
    collection: String,
    shards: Vec<GraphShard>,
    num_shards: usize,
    scope: GraphScope,
}

/// Nodes over all shards.
/// The node lists of the shards, joined in shard order.
pub open spec fn joined_nodes(s: Seq<GraphShard>) -> Seq<NodeView>
    decreases s.len(),
{
    if s.len() == 0 {
        Seq::empty()
    } else {
        joined_nodes(s.drop_last()) + s.last().node_views()
    }
}

pub open spec fn sum_nodes(s: Seq<GraphShard>) -> nat
    decreases s.len(),
{
    if s.len() == 0 {
        0
    } else {
        sum_nodes(s.drop_last()) + s.last().node_map().dom().len()
    }
}

/// Edges over all shards.
pub open spec fn sum_edges(s: Seq<GraphShard>) -> nat
    decreases s.len(),
{
    if s.len() == 0 {
        0
    } else {
        sum_edges(s.drop_last()) + s.last().edge_total()
    }
}

/// The name of shard `i` of `n`.
pub open spec fn shard_name(n: usize, i: int) -> Seq<char> {
    if n == 1 {
        "default"@
    } else {
        "shard_"@ + decimal(i as nat)
    }
}

/// The message of the error for an edge between shards under shard scope.
pub open spec fn cross_shard_message(from: Seq<char>, from_shard: int, to: Seq<char>, to_shard: int) -> Seq<char> {
    "Cross-shard edge not allowed (scope=shard): '"@ + from + "' (shard "@ + decimal(from_shard as nat) + ") -> '"@
        + to + "' (shard "@ + decimal(to_shard as nat) + ")"@
}

/// The fold of the node maps of `s`, later shards winning.
pub open spec fn merged_nodes(s: Seq<GraphShard>) -> Map<Seq<char>, NodeView>
    decreases s.len(),
{
    if s.len() == 0 {
        Map::empty()
    } else {
        merged_nodes(s.drop_last()).union_prefer_right(s.last().node_map())
    }
}

/// The fold of the adjacency maps of `s`, in shard order.
pub open spec fn merged_adj(s: Seq<GraphShard>) -> Map<Seq<char>, AdjView>
    decreases s.len(),
{
    if s.len() == 0 {
        Map::empty()
    } else {
        merge_adj(merged_adj(s.drop_last()), s.last().adj_map())
    }
}

proof fn lemma_sum_update(s: Seq<GraphShard>, j: int, t: GraphShard)
    requires
        0 <= j < s.len(),
    ensures
        sum_nodes(s.update(j, t)) == sum_nodes(s) - s[j].node_map().dom().len() + t.node_map().dom().len(),
        sum_edges(s.update(j, t)) == sum_edges(s) - s[j].edge_total() + t.edge_total(),
    decreases s.len(),
{
    let u = s.update(j, t);
    if j == s.len() - 1 {
        assert(u.drop_last() =~= s.drop_last());
    } else {
        assert(u.drop_last() =~= s.drop_last().update(j, t));
        lemma_sum_update(s.drop_last(), j, t);
    }
}

proof fn lemma_sum_member(s: Seq<GraphShard>, j: int)
    requires
        0 <= j < s.len(),
    ensures
        s[j].node_map().dom().len() <= sum_nodes(s),
        s[j].edge_total() <= sum_edges(s),
    decreases s.len(),
{
    if j < s.len() - 1 {
        lemma_sum_member(s.drop_last(), j);
        assert(s.drop_last()[j] == s[j]);
    }
}

impl ShardedGraphBackend {
    pub closed spec fn count(&self) -> usize {
        self.num_shards
    }

    pub closed spec fn shard_seq(&self) -> Seq<GraphShard> {
        self.shards@
    }

    pub closed spec fn scope_of(&self) -> GraphScope {
        self.scope
    }

    pub closed spec fn collection_name(&self) -> Seq<char> {
        self.collection@
    }

    /// The shard that a node id routes to.
    pub open spec fn route(&self, id: Seq<char>) -> int {
        shard_of(id, self.count()) as int
    }

    /// The shard that a node id routes to.
    pub open spec fn routed(&self, id: Seq<char>) -> GraphShard {
        self.shard_seq()[self.route(id)]
    }

    /// Under shard scope, an edge between these ids would cross shards.
    pub open spec fn crosses(&self, from: Seq<char>, to: Seq<char>) -> bool {
        self.scope_of() == GraphScope::Shard && self.route(from) != self.route(to)
    }

    /// The nodes as routing finds them: each id looked up in its shard.
    pub open spec fn node_map(&self) -> Map<Seq<char>, NodeView> {
        Map::new(
            |k: Seq<char>| self.routed(k).node_map().contains_key(k),
            |k: Seq<char>| self.routed(k).node_map()[k],
        )
    }

    /// The adjacency lists as routing finds them: each source looked up in
    /// its shard.
    pub open spec fn adj_map(&self) -> Map<Seq<char>, AdjView> {
        Map::new(
            |k: Seq<char>| self.routed(k).adj_map().contains_key(k),
            |k: Seq<char>| self.routed(k).adj_map()[k],
        )
    }

    pub open spec fn total_nodes(&self) -> nat {
        sum_nodes(self.shard_seq())
    }

    pub open spec fn total_edges(&self) -> nat {
        sum_edges(self.shard_seq())
    }

    /// Well-formedness: at least one shard, each well-formed, and node and
    /// edge totals that fit a `usize`.
    pub open spec fn wf(&self) -> bool {
        &&& self.count() >= 1
        &&& self.shard_seq().len() == self.count()
        &&& forall|i: int| 0 <= i < self.shard_seq().len() ==> (#[trigger] self.shard_seq()[i]).wf()
        &&& self.total_nodes() <= usize::MAX
        &&& self.total_edges() <= usize::MAX
    }

    /// The backend is unchanged but for shard `i`, which became `t`.
    pub open spec fn only_shard_changed(&self, old_self: &Self, i: int, t: GraphShard) -> bool {
        &&& self.shard_seq() == old_self.shard_seq().update(i, t)
        &&& self.count() == old_self.count()
        &&& self.scope_of() == old_self.scope_of()
        &&& self.collection_name() == old_self.collection_name()
    }

    /// Create a backend with `max(config.num_shards, 1)` empty shards.
    pub fn new(collection: &str, config: &GraphBackendConfig) -> (r: Self)
        ensures
            r.wf(),
            r.count() == (if config.num_shards == 0 {
                1
            } else {
                config.num_shards
            }),
            r.collection_name() == collection@,
            r.scope_of() == config.scope,
            forall|i: int|
                0 <= i < r.count() ==> {
                    &&& (#[trigger] r.shard_seq()[i]).id() == i as u32
                    &&& r.shard_seq()[i].name() == shard_name(r.count(), i)
                    &&& r.shard_seq()[i].collection_name() == collection@
                    &&& r.shard_seq()[i].node_map() == Map::<Seq<char>, NodeView>::empty()
                    &&& r.shard_seq()[i].adj_map() == Map::<Seq<char>, AdjView>::empty()
                    &&& r.shard_seq()[i].edge_total() == 0
                    &&& r.shard_seq()[i].allowed_types() == config.edges@.map_values(
                        |c: EdgeTypeConfig| c.edge_type@,
                    )
                },
    {
        let n: usize = if config.num_shards == 0 {
            1
        } else {
            config.num_shards
        };
        let mut shards: Vec<GraphShard> = Vec::new();
        let mut i: usize = 0;
        while i < n
            invariant
                i <= n,
                n >= 1,
                shards.len() == i,
                sum_nodes(shards@) == 0,
                sum_edges(shards@) == 0,
                forall|k: int|
                    0 <= k < i ==> {
                        &&& (#[trigger] shards@[k]).wf()
                        &&& shards@[k].id() == k as u32
                        &&& shards@[k].name() == shard_name(n, k)
                        &&& shards@[k].collection_name() == collection@
                        &&& shards@[k].node_map() == Map::<Seq<char>, NodeView>::empty()
                        &&& shards@[k].adj_map() == Map::<Seq<char>, AdjView>::empty()
                        &&& shards@[k].edge_total() == 0
                        &&& shards@[k].allowed_types() == config.edges@.map_values(
                            |c: EdgeTypeConfig| c.edge_type@,
                        )
                    },
            decreases n - i,
        {
            let name = if n == 1 {
                owned("default")
            } else {
                let mut v = chars_of("shard_");
                let mut d = decimal_chars(i as u64);
                v.append(&mut d);
                string_from_chars(&v)
            };
            let s = GraphShard::new(i as u32, collection, name.as_str(), config.edges.as_slice());
            let ghost before = shards@;
            shards.push(s);
            proof {
                assert(shards@.drop_last() =~= before);
                assert(s.node_map().dom() =~= Set::<Seq<char>>::empty());
                assert forall|k: int| 0 <= k < i + 1 implies #[trigger] shards@[k] == (if k < i {
                    before[k]
                } else {
                    s
                }) by {}
            }
            i = i + 1;
        }
        ShardedGraphBackend { collection: owned(collection), shards, num_shards: n, scope: config.scope }
    }

    /// The shard index of a node id.
    fn shard_idx(&self, id: &str) -> (r: usize)
        requires
            self.wf(),
        ensures
            r == self.route(id@),
            r < self.shard_seq().len(),
    {
        shard_for_doc(id, self.num_shards) as usize
    }

    /// Shard `i` of this backend.
    pub fn shard(&self, i: usize) -> (r: &GraphShard)
        requires
            self.wf(),
            i < self.count(),
        ensures
            *r == self.shard_seq()[i as int],
    {
        &self.shards[i]
    }

    /// Run `op` on shard `i`: take it out, change it, put it back.
    fn take_shard(&mut self, i: usize) -> (r: GraphShard)
        requires
            i < old(self).shards.len(),
        ensures
            r == old(self).shard_seq()[i as int],
            final(self).shards@ == old(self).shards@.remove(i as int),
            final(self).num_shards == old(self).num_shards,
            final(self).scope == old(self).scope,
            final(self).collection == old(self).collection,
    {
        self.shards.remove(i)
    }

    fn put_shard(&mut self, i: usize, s: GraphShard)
        requires
            i <= old(self).shards.len(),
        ensures
            final(self).shards@ == old(self).shards@.insert(i as int, s),
            final(self).num_shards == old(self).num_shards,
            final(self).scope == old(self).scope,
            final(self).collection == old(self).collection,
    {
        self.shards.insert(i, s);
    }

    /// Add a node to the shard its id routes to.
    pub fn add_node(&mut self, node: GraphNode)
        requires
            old(self).wf(),
            old(self).total_nodes() < usize::MAX,
        ensures
            final(self).wf(),
            final(self).node_map() == old(self).node_map().insert(node.id@, node@),
            final(self).adj_map() == old(self).adj_map(),
            final(self).only_shard_changed(&old(self), old(self).route(node.id@), final(self).routed(node.id@)),
    {
        let idx = self.shard_idx(node.id.as_str());
        let ghost id = node.id@;
        let ghost nv = node@;
        let mut s = self.take_shard(idx);
        s.add_node(node);
        let ghost t = s;
        self.put_shard(idx, s);
        proof {
            let o = old(self).shard_seq();
            assert(self.shard_seq() =~= o.update(idx as int, t));
            lemma_sum_update(o, idx as int, t);
            lemma_keyed_len_of(o[idx as int]);
            lemma_keyed_len_of(t);
            assert(t.node_map().dom() =~= o[idx as int].node_map().dom().insert(id));
            assert(forall|i: int| 0 <= i < self.shard_seq().len() ==> (#[trigger] self.shard_seq()[i]).wf());
            assert(self.node_map() =~= old(self).node_map().insert(id, nv));
            assert(self.adj_map() =~= old(self).adj_map());
        }
    }

    /// The node with this id, looked up in its shard.
    pub fn get_node(&self, id: &str) -> (r: Option<GraphNode>)
        requires
            self.wf(),
        ensures
            match r {
                Some(n) => self.node_map().contains_key(id@) && n@ == self.node_map()[id@],
                None => !self.node_map().contains_key(id@),
            },
    {
        let idx = self.shard_idx(id);
        self.shards[idx].get_node(id)
    }

    /// Remove a node and its edges from the shard its id routes to.
    pub fn remove_node(&mut self, id: &str) -> (r: bool)
        requires
            old(self).wf(),
        ensures
            final(self).wf(),
            r == old(self).node_map().contains_key(id@),
            final(self).node_map() == old(self).node_map().remove(id@),
            final(self).only_shard_changed(&old(self), old(self).route(id@), final(self).routed(id@)),
    {
        let idx = self.shard_idx(id);
        let mut s = self.take_shard(idx);
        let r = s.remove_node(id);
        let ghost t = s;
        self.put_shard(idx, s);
        proof {
            let o = old(self).shard_seq();
            assert(self.shard_seq() =~= o.update(idx as int, t));
            lemma_sum_update(o, idx as int, t);
            lemma_keyed_len_of(o[idx as int]);
            lemma_keyed_len_of(t);
            if r {
                assert(t.node_map().dom() =~= o[idx as int].node_map().dom().remove(id@));
            } else {
                assert(t.node_map().dom() =~= o[idx as int].node_map().dom());
            }
            assert(forall|i: int| 0 <= i < self.shard_seq().len() ==> (#[trigger] self.shard_seq()[i]).wf());
            assert(self.node_map() =~= old(self).node_map().remove(id@));
        }
        r
    }

    /// The error for an edge across shards under shard scope.
    fn cross_shard_error(from: &String, from_idx: usize, to: &String, to_idx: usize) -> (r: Error)
        ensures
            r matches Error::Schema(m) && m@ == cross_shard_message(from@, from_idx as int, to@, to_idx as int),
    {
        let mut v = chars_of("Cross-shard edge not allowed (scope=shard): '");
        let mut a = chars_of(from.as_str());
        v.append(&mut a);
        let mut b = chars_of("' (shard ");
        v.append(&mut b);
        let mut c = decimal_chars(from_idx as u64);
        v.append(&mut c);
        let mut d = chars_of(") -> '");
        v.append(&mut d);
        let mut e = chars_of(to.as_str());
        v.append(&mut e);
        let mut f = chars_of("' (shard ");
        v.append(&mut f);
        let mut g = decimal_chars(to_idx as u64);
        v.append(&mut g);
        let mut h = chars_of(")");
        v.append(&mut h);
        proof {
            assert(v@ =~= cross_shard_message(from@, from_idx as int, to@, to_idx as int));
        }
        Error::Schema(string_from_chars(&v))
    }

    /// Add an edge to the shard its source routes to. Under shard scope both
    /// endpoints must route to the same shard.
    pub fn add_edge(&mut self, edge: GraphEdge) -> (r: Result<(), Error>)
        requires
            old(self).wf(),
            old(self).total_edges() < usize::MAX,
        ensures
            final(self).wf(),
            final(self).node_map() == old(self).node_map(),
            old(self).crosses(edge.from@, edge.to@) ==> (r matches Err(e) && e matches Error::Schema(m) && m@
                == cross_shard_message(edge.from@, old(self).route(edge.from@), edge.to@, old(self).route(edge.to@))),
            !old(self).crosses(edge.from@, edge.to@) ==> (r is Err <==> (old(self).routed(
                edge.from@,
            ).allowed_types().len() > 0 && !old(self).routed(edge.from@).allowed_types().contains(edge.edge_type@))),
            !old(self).crosses(edge.from@, edge.to@) ==> (r matches Err(e) ==> (e matches Error::Schema(m) && m@
                == crate::graph::unknown_edge_type_message(edge.edge_type@, old(self).routed(edge.from@).allowed_types()))),
            r is Err ==> final(self).adj_map() == old(self).adj_map(),
            r is Ok ==> final(self).adj_map() == old(self).adj_map().insert(
                edge.from@,
                AdjView {
                    from: edge.from@,
                    entries: out_edges(old(self).adj_map(), edge.from@).push(
                        EdgeView { to: edge.to@, edge_type: edge.edge_type@, weight_bits: edge.weight_bits },
                    ),
                },
            ),
    {
        let from_idx = self.shard_idx(edge.from.as_str());
        if self.scope == GraphScope::Shard {
            let to_idx = self.shard_idx(edge.to.as_str());
            if from_idx != to_idx {
                return Err(Self::cross_shard_error(&edge.from, from_idx, &edge.to, to_idx));
            }
        }
        let ghost from = edge.from@;
        let mut s = self.take_shard(from_idx);
        proof {
            lemma_sum_member(old(self).shard_seq(), from_idx as int);
        }
        let r = s.add_edge(edge);
        let ghost t = s;
        self.put_shard(from_idx, s);
        proof {
            let o = old(self).shard_seq();
            if r is Err {
                assert(self.adj_map() =~= old(self).adj_map());
            }
            assert(self.shard_seq() =~= o.update(from_idx as int, t));
            lemma_sum_update(o, from_idx as int, t);
            lemma_keyed_len_of(o[from_idx as int]);
            lemma_keyed_len_of(t);
            assert(t.node_map().dom() =~= o[from_idx as int].node_map().dom());
            assert(forall|i: int| 0 <= i < self.shard_seq().len() ==> (#[trigger] self.shard_seq()[i]).wf());
            assert(self.node_map() =~= old(self).node_map());
            if r is Ok {
                assert(self.adj_map() =~= old(self).adj_map().insert(
                    from,
                    AdjView {
                        from,
                        entries: out_edges(old(self).adj_map(), from).push(
                            EdgeView {
                                to: edge.to@,
                                edge_type: edge.edge_type@,
                                weight_bits: edge.weight_bits,
                            },
                        ),
                    },
                ));
            }
        }
        r
    }
}

/// With distinct ids, a shard has as many node ids as nodes.
proof fn lemma_keyed_len_of(s: GraphShard)
    requires
        s.wf(),
    ensures
        s.node_map().dom().finite(),
{
    crate::keyed::lemma_keyed_len(s.node_views(), crate::graph::node_key());
}


impl ShardedGraphBackend {
    /// Remove edges from `from` to `to` (of `edge_type` only, if given), in
    /// the shard `from` routes to. Returns whether any edge was removed.
    pub fn remove_edge(&mut self, from: &str, to: &str, edge_type: Option<&str>) -> (r: bool)
        requires
            old(self).wf(),
        ensures
            final(self).wf(),
            r == (crate::graph::kept_edges(out_edges(old(self).adj_map(), from@), to@, crate::graph::opt_str(edge_type)).len()
                < out_edges(old(self).adj_map(), from@).len()),
            old(self).adj_map().contains_key(from@) ==> final(self).adj_map() == old(self).adj_map().insert(
                from@,
                AdjView {
                    from: from@,
                    entries: crate::graph::kept_edges(
                        out_edges(old(self).adj_map(), from@),
                        to@,
                        crate::graph::opt_str(edge_type),
                    ),
                },
            ),
            !old(self).adj_map().contains_key(from@) ==> final(self).adj_map() == old(self).adj_map(),
            final(self).node_map() == old(self).node_map(),
    {
        let idx = self.shard_idx(from);
        let mut s = self.take_shard(idx);
        let r = s.remove_edge(from, to, edge_type);
        let ghost t = s;
        self.put_shard(idx, s);
        proof {
            let o = old(self).shard_seq();
            assert(self.shard_seq() =~= o.update(idx as int, t));
            lemma_sum_update(o, idx as int, t);
            lemma_keyed_len_of(o[idx as int]);
            lemma_keyed_len_of(t);
            assert(t.node_map().dom() =~= o[idx as int].node_map().dom());
            assert(forall|i: int| 0 <= i < self.shard_seq().len() ==> (#[trigger] self.shard_seq()[i]).wf());
            assert(self.node_map() =~= old(self).node_map());
            if old(self).adj_map().contains_key(from@) {
                assert(self.adj_map() =~= old(self).adj_map().insert(
                    from@,
                    AdjView {
                        from: from@,
                        entries: crate::graph::kept_edges(
                            out_edges(old(self).adj_map(), from@),
                            to@,
                            crate::graph::opt_str(edge_type),
                        ),
                    },
                ));
            } else {
                assert(self.adj_map() =~= old(self).adj_map());
            }
        }
        r
    }

    /// All outgoing edges of a node, from the shard it routes to.
    pub fn get_edges(&self, from: &str) -> (r: Vec<GraphEdge>)
        requires
            self.wf(),
        ensures
            edge_list_view(r@) == records_of(from@, out_edges(self.adj_map(), from@)),
    {
        let idx = self.shard_idx(from);
        self.shards[idx].get_edges(from)
    }

    /// The outgoing edges of a node with the given type.
    pub fn get_edges_by_type(&self, from: &str, edge_type: &str) -> (r: Vec<GraphEdge>)
        requires
            self.wf(),
        ensures
            edge_list_view(r@) == records_of(from@, typed_edges(out_edges(self.adj_map(), from@), edge_type@)),
    {
        let idx = self.shard_idx(from);
        self.shards[idx].get_edges_by_type(from, edge_type)
    }

    /// Breadth-first search, entirely within the start node's shard.
    pub fn bfs(&self, start: &str, edge_type: &str, max_depth: usize) -> (r: Vec<String>)
        requires
            self.wf(),
        ensures
            strings_view(r@) == bfs_order(self.routed(start@).adj_map(), start@, edge_type@, max_depth as nat),
    {
        let idx = self.shard_idx(start);
        self.shards[idx].bfs(start, edge_type, max_depth)
    }

    /// The shard in which a shortest path from `start` to `target` is
    /// searched: the shard of both, or none when they route to different
    /// shards.
    pub fn path_shard(&self, start: &str, target: &str) -> (r: Option<usize>)
        requires
            self.wf(),
        ensures
            match r {
                Some(i) => i == self.route(start@) && i == self.route(target@),
                None => self.route(start@) != self.route(target@),
            },
    {
        let a = self.shard_idx(start);
        let b = self.shard_idx(target);
        if a != b {
            None
        } else {
            Some(a)
        }
    }

    /// Statistics summed over all shards.
    pub fn stats(&self) -> (r: GraphStats)
        requires
            self.wf(),
        ensures
            r.node_count == self.total_nodes(),
            r.edge_count == self.total_edges(),
    {
        let mut nodes: usize = 0;
        let mut edges: usize = 0;
        let mut i: usize = 0;
        while i < self.shards.len()
            invariant
                i <= self.shards.len(),
                self.wf(),
                nodes == sum_nodes(self.shard_seq().take(i as int)),
                edges == sum_edges(self.shard_seq().take(i as int)),
            decreases self.shards.len() - i,
        {
            let st = self.shards[i].stats();
            proof {
                let s = self.shard_seq();
                assert(s.take(i + 1).drop_last() =~= s.take(i as int));
                assert(s.take(i + 1).last() == s[i as int]);
                lemma_sum_prefix(s, i + 1);
            }
            nodes = nodes + st.node_count;
            edges = edges + st.edge_count;
            i = i + 1;
        }
        proof {
            assert(self.shard_seq().take(i as int) =~= self.shard_seq());
        }
        GraphStats { node_count: nodes, edge_count: edges }
    }

    /// All nodes of all shards, shard after shard.
    pub fn list_nodes(&self) -> (r: Vec<GraphNode>)
        requires
            self.wf(),
        ensures
            r.len() == self.total_nodes(),
            forall|k: int|
                #![trigger r@[k]]
                0 <= k < r.len() ==> exists|i: int|
                    0 <= i < self.shard_seq().len() && (#[trigger] self.shard_seq()[i]).node_map().contains_key(
                        r@[k].id@,
                    ) && self.shard_seq()[i].node_map()[r@[k].id@] == r@[k]@,
            r@.map_values(|n: GraphNode| n@) == joined_nodes(self.shard_seq()),
    {
        let mut r: Vec<GraphNode> = Vec::new();
        let mut i: usize = 0;
        while i < self.shards.len()
            invariant
                i <= self.shards.len(),
                self.wf(),
                r.len() == sum_nodes(self.shard_seq().take(i as int)),
                forall|k: int|
                    #![trigger r@[k]]
                    0 <= k < r.len() ==> exists|j: int|
                        0 <= j < i && (#[trigger] self.shard_seq()[j]).node_map().contains_key(r@[k].id@)
                            && self.shard_seq()[j].node_map()[r@[k].id@] == r@[k]@,
                r@.map_values(|n: GraphNode| n@) == joined_nodes(self.shard_seq().take(i as int)),
            decreases self.shards.len() - i,
        {
            let mut part = self.shards[i].list_nodes();
            let ghost before = r@;
            let ghost pv = part@;
            r.append(&mut part);
            proof {
                let s = self.shard_seq();
                assert(s.take(i + 1).drop_last() =~= s.take(i as int));
                assert(s.take(i + 1).last() == s[i as int]);
                assert(r@.map_values(|n: GraphNode| n@) =~= before.map_values(|n: GraphNode| n@) + pv.map_values(
                    |n: GraphNode| n@,
                ));
                assert forall|k: int| #![trigger r@[k]] 0 <= k < r.len() implies exists|j: int|
                    0 <= j < i + 1 && (#[trigger] self.shard_seq()[j]).node_map().contains_key(r@[k].id@)
                        && self.shard_seq()[j].node_map()[r@[k].id@] == r@[k]@ by {
                    if k < before.len() {
                        assert(r@[k] == before[k]);
                    } else {
                        assert(r@[k] == pv[k - before.len()]);
                        assert(self.shard_seq()[i as int].node_map().contains_key(pv[k - before.len()].id@));
                    }
                }
            }
            i = i + 1;
        }
        proof {
            assert(self.shard_seq().take(i as int) =~= self.shard_seq());
        }
        r
    }

    /// All edges of all shards, shard after shard.
    pub fn list_edges(&self) -> (r: Vec<GraphEdge>)
        requires
            self.wf(),
        ensures
            r.len() == self.total_edges(),
            forall|rec: EdgeRecord| #[trigger] edge_list_view(r@).contains(rec) <==> exists|i: int|
                0 <= i < self.shard_seq().len() && (#[trigger] self.shard_seq()[i]).adj_map().contains_key(rec.from)
                    && self.shard_seq()[i].adj_map()[rec.from].entries.contains(crate::graph::entry_of(rec)),
    {
        let mut r: Vec<GraphEdge> = Vec::new();
        let mut i: usize = 0;
        while i < self.shards.len()
            invariant
                i <= self.shards.len(),
                self.wf(),
                r.len() == sum_edges(self.shard_seq().take(i as int)),
                forall|rec: EdgeRecord| #[trigger] edge_list_view(r@).contains(rec) <==> exists|j: int|
                    0 <= j < i && (#[trigger] self.shard_seq()[j]).adj_map().contains_key(rec.from)
                        && self.shard_seq()[j].adj_map()[rec.from].entries.contains(crate::graph::entry_of(rec)),
            decreases self.shards.len() - i,
        {
            let mut part = self.shards[i].list_edges();
            let ghost before = r@;
            let ghost pv = part@;
            r.append(&mut part);
            proof {
                let s = self.shard_seq();
                assert(s.take(i + 1).drop_last() =~= s.take(i as int));
                assert(s.take(i + 1).last() == s[i as int]);
                assert(edge_list_view(r@) =~= edge_list_view(before) + edge_list_view(pv));
                assert forall|rec: EdgeRecord| #[trigger] edge_list_view(r@).contains(rec) <==> exists|j: int|
                    0 <= j < i + 1 && (#[trigger] self.shard_seq()[j]).adj_map().contains_key(rec.from)
                        && self.shard_seq()[j].adj_map()[rec.from].entries.contains(crate::graph::entry_of(rec)) by {
                    let a = edge_list_view(before);
                    let b = edge_list_view(pv);
                    if (a + b).contains(rec) {
                        let k = choose|k: int| 0 <= k < (a + b).len() && (a + b)[k] == rec;
                        if k < a.len() {
                            assert(a[k] == rec);
                            assert(a.contains(rec));
                        } else {
                            assert(b[k - a.len()] == rec);
                            assert(b.contains(rec));
                        }
                    }
                    if a.contains(rec) {
                        let k = choose|k: int| 0 <= k < a.len() && a[k] == rec;
                        assert((a + b)[k] == rec);
                    }
                    if b.contains(rec) {
                        let k = choose|k: int| 0 <= k < b.len() && b[k] == rec;
                        assert((a + b)[a.len() + k] == rec);
                    }
                }
            }
            i = i + 1;
        }
        proof {
            assert(self.shard_seq().take(i as int) =~= self.shard_seq());
        }
        r
    }

    /// Collection name.
    pub fn collection(&self) -> (r: &str)
        ensures
            r@ == self.collection_name(),
    {
        self.collection.as_str()
    }

    /// Number of shards.
    pub fn num_shards(&self) -> (r: usize)
        ensures
            r == self.count(),
    {
        self.num_shards
    }
}

proof fn lemma_sum_prefix(s: Seq<GraphShard>, n: int)
    requires
        0 <= n <= s.len(),
    ensures
        sum_nodes(s.take(n)) <= sum_nodes(s),
        sum_edges(s.take(n)) <= sum_edges(s),
    decreases s.len(),
{
    if n < s.len() {
        assert(s.drop_last().take(n) =~= s.take(n));
        lemma_sum_prefix(s.drop_last(), n);
    } else {
        assert(s.take(n) =~= s);
    }
}

/// With every shard but the first empty, the totals are the first's.
proof fn lemma_sum_first(s: Seq<GraphShard>)
    requires
        s.len() >= 1,
        forall|i: int| 1 <= i < s.len() ==> (#[trigger] s[i]).node_map().dom().len() == 0 && s[i].edge_total() == 0,
    ensures
        sum_nodes(s) == s[0].node_map().dom().len(),
        sum_edges(s) == s[0].edge_total(),
    decreases s.len(),
{
    if s.len() == 1 {
        assert(s.drop_last() =~= Seq::<GraphShard>::empty());
        assert(sum_nodes(s.drop_last()) == 0);
        assert(sum_edges(s.drop_last()) == 0);
        assert(s.last() == s[0]);
    } else {
        let p = s.drop_last();
        assert forall|i: int| 1 <= i < p.len() implies (#[trigger] p[i]).node_map().dom().len() == 0 && p[i].edge_total()
            == 0 by {
            assert(p[i] == s[i]);
        }
        lemma_sum_first(p);
        assert(p[0] == s[0]);
        assert(s.last() == s[s.len() - 1]);
    }
}

proof fn lemma_merged_len(s: Seq<GraphShard>)
    requires
        forall|i: int| 0 <= i < s.len() ==> (#[trigger] s[i]).wf(),
    ensures
        merged_nodes(s).dom().finite(),
        merged_nodes(s).dom().len() <= sum_nodes(s),
    decreases s.len(),
{
    if s.len() == 0 {
        assert(merged_nodes(s).dom() =~= Set::<Seq<char>>::empty());
    } else {
        let p = s.drop_last();
        assert forall|i: int| 0 <= i < p.len() implies (#[trigger] p[i]).wf() by {
            assert(p[i] == s[i]);
        }
        lemma_merged_len(p);
        lemma_keyed_len_of(s.last());
        assert(merged_nodes(s).dom() =~= merged_nodes(p).dom().union(s.last().node_map().dom()));
        vstd::set_lib::lemma_len_union(merged_nodes(p).dom(), s.last().node_map().dom());
    }
}

impl ShardedGraphBackend {
    /// Merge all shards into shard 0 and clear the others. Nodes of later
    /// shards replace nodes with the same id; edges are appended in shard
    /// order. Returns the node and edge counts of shard 0 afterwards.
    pub fn merge_all_shards(&mut self) -> (r: (usize, usize))
        requires
            old(self).wf(),
        ensures
            final(self).wf(),
            final(self).count() == old(self).count(),
            final(self).scope_of() == old(self).scope_of(),
            final(self).collection_name() == old(self).collection_name(),
            final(self).shard_seq()[0].node_map() == merged_nodes(old(self).shard_seq()),
            final(self).shard_seq()[0].adj_map() == merged_adj(old(self).shard_seq()),
            forall|i: int|
                1 <= i < final(self).count() ==> (#[trigger] final(self).shard_seq()[i]).node_map()
                    == Map::<Seq<char>, NodeView>::empty() && final(self).shard_seq()[i].adj_map() == Map::<
                    Seq<char>,
                    AdjView,
                >::empty(),
            r.0 == merged_nodes(old(self).shard_seq()).dom().len(),
            r.1 == old(self).total_edges(),
    {
        let ghost o = self.shard_seq();
        let n = self.num_shards;
        let mut s0 = self.take_shard(0);
        proof {
            assert(o.take(1).drop_last() =~= Seq::<GraphShard>::empty());
            assert(o.take(1).last() == o[0]);
            assert(merged_nodes(o.take(1).drop_last()) == Map::<Seq<char>, NodeView>::empty());
            assert(merged_adj(o.take(1).drop_last()) == Map::<Seq<char>, AdjView>::empty());
            assert(merged_nodes(o.take(1)) == Map::<Seq<char>, NodeView>::empty().union_prefer_right(s0.node_map()));
            assert(merged_nodes(o.take(1)) =~= s0.node_map());
            assert(merged_adj(o.take(1)) == merge_adj(Map::<Seq<char>, AdjView>::empty(), s0.adj_map()));
            assert(merged_adj(o.take(1)) =~= s0.adj_map()) by {
                assert forall|k: Seq<char>| #[trigger] s0.adj_map().contains_key(k) implies merged_adj(o.take(1))[k]
                    == s0.adj_map()[k] by {
                    crate::keyed::lemma_keyed_value_key(s0.adj_views(), crate::graph::adj_key(), k);
                    assert(out_edges(Map::<Seq<char>, AdjView>::empty(), k) + s0.adj_map()[k].entries
                        =~= s0.adj_map()[k].entries);
                }
            }
            assert(o.take(1) =~= seq![o[0]]);
            assert(sum_edges(o.take(1).drop_last()) == 0);
            assert(sum_edges(o.take(1)) == o[0].edge_total());
            assert(o[0].wf());
        }
        let mut j: usize = 0;
        while j < self.shards.len()
            invariant
                j <= self.shards.len(),
                self.shards@ == o.drop_first(),
                o.len() == n,
                n >= 1,
                forall|i: int| 0 <= i < o.len() ==> (#[trigger] o[i]).wf(),
                sum_edges(o) <= usize::MAX,
                s0.wf(),
                s0.node_map() == merged_nodes(o.take(j + 1)),
                s0.adj_map() == merged_adj(o.take(j + 1)),
                s0.edge_total() == sum_edges(o.take(j + 1)),
                s0.allowed_types() == o[0].allowed_types(),
                self.num_shards == n,
            decreases self.shards.len() - j,
        {
            proof {
                assert(self.shards@[j as int] == o[j + 1]);
                assert(o.take(j + 2).drop_last() =~= o.take(j + 1));
                assert(o.take(j + 2).last() == o[j + 1]);
                lemma_sum_prefix(o, j + 2);
            }
            s0.merge_from(&self.shards[j]);
            j = j + 1;
        }
        proof {
            assert(o.take(j + 1) =~= o);
        }
        let ghost c = self.shards@;
        let mut k: usize = 0;
        while k < self.shards.len()
            invariant
                k <= self.shards.len(),
                self.shards.len() == c.len(),
                c.len() == n - 1,
                c == o.drop_first(),
                forall|i: int| k <= i < c.len() ==> #[trigger] self.shards@[i] == c[i],
                forall|i: int|
                    0 <= i < k ==> (#[trigger] self.shards@[i]).wf() && self.shards@[i].node_map() == Map::<
                        Seq<char>,
                        NodeView,
                    >::empty() && self.shards@[i].adj_map() == Map::<Seq<char>, AdjView>::empty()
                        && self.shards@[i].edge_total() == 0,
                forall|i: int| 0 <= i < o.len() ==> (#[trigger] o[i]).wf(),
                self.num_shards == n,
                self.scope == old(self).scope,
                self.collection == old(self).collection,
                o.len() == n,
            decreases self.shards.len() - k,
        {
            let ghost prev = self.shards@;
            let mut t = self.take_shard(k);
            proof {
                assert(t == c[k as int]);
                assert(c[k as int] == o[k + 1]);
            }
            t.clear();
            self.put_shard(k, t);
            proof {
                assert(self.shards@ =~= prev.update(k as int, t));
            }
            k = k + 1;
        }
        let nodes = s0.stats();
        let ghost z = s0;
        self.put_shard(0, s0);
        proof {
            let f = self.shard_seq();
            assert(f[0] == z);
            assert forall|i: int| 1 <= i < f.len() implies (#[trigger] f[i]).node_map().dom().len() == 0
                && f[i].edge_total() == 0 by {
                assert(f[i] == self.shards@[i]);
                assert(f[i].node_map().dom() =~= Set::<Seq<char>>::empty());
            }
            assert forall|i: int| 0 <= i < f.len() implies (#[trigger] f[i]).wf() by {
                if i > 0 {
                    assert(f[i] == self.shards@[i]);
                }
            }
            lemma_sum_first(f);
            lemma_merged_len(o);
        }
        (nodes.node_count, nodes.edge_count)
    }
}

} // verus!
