use prism::graph::{EdgeTypeConfig, GraphEdge, GraphNode, GraphShard};
use prism::graph_backend::{GraphBackendConfig, GraphScope, ShardedGraphBackend};
use prism::vector::shard_for_doc;

fn test_edge_configs() -> Vec<EdgeTypeConfig> {
    vec![
        EdgeTypeConfig {
            edge_type: "related".to_string(),
            from_field: "id".to_string(),
            to_field: "related_id".to_string(),
        },
        EdgeTypeConfig {
            edge_type: "parent".to_string(),
            from_field: "id".to_string(),
            to_field: "parent_id".to_string(),
        },
    ]
}

fn node(id: &str, title: &str) -> GraphNode {
    GraphNode { id: id.to_string(), node_type: "doc".to_string(), title: title.to_string(), payload: "null".to_string() }
}

fn edge(from: &str, to: &str, edge_type: &str, weight: f32) -> GraphEdge {
    GraphEdge { from: from.to_string(), to: to.to_string(), edge_type: edge_type.to_string(), weight_bits: weight.to_bits() }
}

fn test_config(num_shards: usize) -> GraphBackendConfig {
    GraphBackendConfig {
        path: String::new(),
        edges: vec![EdgeTypeConfig {
            edge_type: "related".to_string(),
            from_field: "id".to_string(),
            to_field: "related_id".to_string(),
        }],
        num_shards,
        scope: GraphScope::Shard,
    }
}

#[test]
fn test_add_and_get_node() {
    let mut shard = GraphShard::new(0, "test", "default", &test_edge_configs());
    let n = GraphNode {
        id: "n1".to_string(),
        node_type: "document".to_string(),
        title: "Test Node".to_string(),
        payload: "{\"key\":\"value\"}".to_string(),
    };
    shard.add_node(n.clone());
    let retrieved = shard.get_node("n1").unwrap();
    assert_eq!(retrieved.id, "n1");
    assert_eq!(retrieved.title, "Test Node");
}

#[test]
fn test_add_and_get_edges() {
    let mut shard = GraphShard::new(0, "test", "default", &test_edge_configs());
    shard.add_node(node("a", "A"));
    shard.add_node(node("b", "B"));
    shard.add_edge(edge("a", "b", "related", 1.0)).unwrap();
    let edges = shard.get_edges("a");
    assert_eq!(edges.len(), 1);
    assert_eq!(edges[0].to, "b");
}

#[test]
fn test_bfs() {
    let mut shard = GraphShard::new(0, "test", "default", &test_edge_configs());
    for id in &["a", "b", "c", "d"] {
        shard.add_node(node(id, id));
    }
    for (from, to) in &[("a", "b"), ("b", "c"), ("c", "d")] {
        shard.add_edge(edge(from, to, "related", 1.0)).unwrap();
    }
    let result = shard.bfs("a", "related", 2);
    assert!(result.contains(&"b".to_string()));
    assert!(result.contains(&"c".to_string()));
    assert!(!result.contains(&"d".to_string()));
}

#[test]
fn test_stats() {
    let mut shard = GraphShard::new(0, "test", "default", &test_edge_configs());
    shard.add_node(node("a", "A"));
    shard.add_node(node("b", "B"));
    shard.add_edge(edge("a", "b", "related", 1.0)).unwrap();
    let stats = shard.stats();
    assert_eq!(stats.node_count, 2);
    assert_eq!(stats.edge_count, 1);
}

#[test]
fn test_invalid_edge_type() {
    let mut shard = GraphShard::new(0, "test", "default", &test_edge_configs());
    let result = shard.add_edge(edge("a", "b", "unknown_type", 1.0));
    assert!(result.is_err());
}

#[test]
fn test_single_shard_roundtrip() {
    let mut backend = ShardedGraphBackend::new("test", &test_config(1));
    backend.add_node(node("n1", "Node 1"));
    assert!(backend.get_node("n1").is_some());
    assert_eq!(backend.stats().node_count, 1);
}

#[test]
fn backend_test_multi_shard_distribution() {
    let mut backend = ShardedGraphBackend::new("test", &test_config(4));
    for i in 0..20 {
        backend.add_node(node(&format!("node_{}", i), &format!("Node {}", i)));
    }
    assert_eq!(backend.stats().node_count, 20);
    assert_eq!(backend.list_nodes().len(), 20);
    for i in 0..20 {
        assert!(backend.get_node(&format!("node_{}", i)).is_some());
    }
}

fn ids_on_shards_0_and_1() -> (String, String) {
    let mut shard_0_id = None;
    let mut shard_1_id = None;
    for i in 0..100 {
        let id = format!("node_{}", i);
        let idx = shard_for_doc(&id, 4);
        if idx == 0 && shard_0_id.is_none() {
            shard_0_id = Some(id);
        } else if idx == 1 && shard_1_id.is_none() {
            shard_1_id = Some(id);
        }
        if shard_0_id.is_some() && shard_1_id.is_some() {
            break;
        }
    }
    (shard_0_id.unwrap(), shard_1_id.unwrap())
}

#[test]
fn test_cross_shard_edge_rejected() {
    let mut backend = ShardedGraphBackend::new("test", &test_config(4));
    let (from, to) = ids_on_shards_0_and_1();
    backend.add_node(node(&from, "A"));
    backend.add_node(node(&to, "B"));
    let result = backend.add_edge(edge(&from, &to, "related", 1.0));
    assert!(result.is_err());
}

#[test]
fn test_shortest_path_cross_shard_returns_none() {
    let backend = ShardedGraphBackend::new("test", &test_config(4));
    let (a, b) = ids_on_shards_0_and_1();
    assert!(backend.path_shard(&a, &b).is_none());
}

#[test]
fn graph_unknown_edge_type_message() {
    let mut shard = GraphShard::new(0, "test", "default", &test_edge_configs());
    let err = shard.add_edge(edge("a", "b", "knows", 1.0)).unwrap_err();
    assert_eq!(err.message(), "Unknown edge type: knows. Valid types: [\"related\", \"parent\"]");
}

#[test]
fn graph_any_edge_type_without_configs() {
    let mut shard = GraphShard::new(0, "test", "default", &[]);
    assert!(shard.add_edge(edge("a", "b", "whatever", 2.5)).is_ok());
    let e = shard.get_edges("a");
    assert_eq!(f32::from_bits(e[0].weight_bits), 2.5);
}

#[test]
fn graph_remove_node_drops_incoming_and_outgoing_edges() {
    let mut shard = GraphShard::new(0, "test", "default", &test_edge_configs());
    for id in &["a", "b", "c"] {
        shard.add_node(node(id, id));
    }
    shard.add_edge(edge("a", "b", "related", 1.0)).unwrap();
    shard.add_edge(edge("b", "c", "related", 1.0)).unwrap();
    shard.add_edge(edge("c", "b", "parent", 1.0)).unwrap();
    assert!(shard.remove_node("b"));
    assert!(shard.get_node("b").is_none());
    assert!(shard.get_edges("a").is_empty());
    assert!(shard.get_edges("b").is_empty());
    assert!(shard.get_edges("c").is_empty());
    assert_eq!(shard.stats().edge_count, 0);
    assert!(!shard.remove_node("b"));
}

#[test]
fn graph_remove_edge_by_type() {
    let mut shard = GraphShard::new(0, "test", "default", &test_edge_configs());
    shard.add_edge(edge("a", "b", "related", 1.0)).unwrap();
    shard.add_edge(edge("a", "b", "parent", 1.0)).unwrap();
    shard.add_edge(edge("a", "c", "related", 1.0)).unwrap();
    assert!(shard.remove_edge("a", "b", Some("parent")));
    assert_eq!(shard.get_edges("a").len(), 2);
    assert_eq!(shard.get_edges_by_type("a", "related").len(), 2);
    assert!(shard.remove_edge("a", "b", None));
    assert_eq!(shard.get_edges("a").len(), 1);
    assert!(!shard.remove_edge("a", "zzz", None));
    assert!(!shard.remove_edge("nobody", "b", None));
}

#[test]
fn graph_bfs_levels_and_types() {
    let mut shard = GraphShard::new(0, "test", "default", &test_edge_configs());
    shard.add_edge(edge("a", "b", "related", 1.0)).unwrap();
    shard.add_edge(edge("a", "c", "related", 1.0)).unwrap();
    shard.add_edge(edge("b", "d", "related", 1.0)).unwrap();
    shard.add_edge(edge("c", "d", "related", 1.0)).unwrap();
    shard.add_edge(edge("d", "a", "related", 1.0)).unwrap();
    shard.add_edge(edge("a", "x", "parent", 1.0)).unwrap();
    assert_eq!(shard.bfs("a", "related", 0), Vec::<String>::new());
    assert_eq!(shard.bfs("a", "related", 1), vec!["b".to_string(), "c".to_string()]);
    assert_eq!(shard.bfs("a", "related", 5), vec!["b".to_string(), "c".to_string(), "d".to_string()]);
    assert_eq!(shard.bfs("a", "parent", 3), vec!["x".to_string()]);
}

#[test]
fn graph_list_and_clear() {
    let mut shard = GraphShard::new(0, "test", "default", &test_edge_configs());
    shard.add_node(node("a", "A"));
    shard.add_node(node("a", "A2"));
    shard.add_node(node("b", "B"));
    assert_eq!(shard.list_nodes().len(), 2);
    assert_eq!(shard.get_node("a").unwrap().title, "A2");
    shard.add_edge(edge("a", "b", "related", 1.0)).unwrap();
    shard.add_edge(edge("b", "a", "related", 1.0)).unwrap();
    assert_eq!(shard.list_edges().len(), 2);
    shard.clear();
    assert_eq!(shard.list_nodes().len(), 0);
    assert_eq!(shard.list_edges().len(), 0);
}

#[test]
fn graph_merge_all_shards_keeps_everything() {
    let mut config = test_config(4);
    config.scope = GraphScope::Global;
    let mut backend = ShardedGraphBackend::new("test", &config);
    for i in 0..12 {
        backend.add_node(node(&format!("node_{}", i), "n"));
    }
    for i in 0..11 {
        backend.add_edge(edge(&format!("node_{}", i), &format!("node_{}", i + 1), "related", 1.0)).unwrap();
    }
    let (nodes, edges) = backend.merge_all_shards();
    assert_eq!(nodes, 12);
    assert_eq!(edges, 11);
    assert_eq!(backend.shard(0).stats().node_count, 12);
    for i in 1..4 {
        assert_eq!(backend.shard(i).stats().node_count, 0);
    }
}

#[test]
fn graph_backend_names_shards() {
    let backend = ShardedGraphBackend::new("coll", &test_config(3));
    assert_eq!(backend.num_shards(), 3);
    assert_eq!(backend.collection(), "coll");
    let one = ShardedGraphBackend::new("coll", &test_config(0));
    assert_eq!(one.num_shards(), 1);
}

#[test]
fn graph_remove_edge_undoes_add_edge() {
    let mut shard = GraphShard::new(0, "test", "default", &test_edge_configs());
    shard.add_edge(edge("a", "b", "related", 1.0)).unwrap();
    shard.add_edge(edge("a", "c", "parent", 2.0)).unwrap();
    let before: Vec<(String, String)> =
        shard.get_edges("a").iter().map(|e| (e.to.clone(), e.edge_type.clone())).collect();
    shard.add_edge(edge("a", "d", "related", 3.0)).unwrap();
    let last = shard.get_edges("a").last().unwrap().clone();
    assert_eq!(last.to, "d");
    assert_eq!(last.weight_bits, 3.0f32.to_bits());
    assert!(shard.remove_edge("a", "d", Some("related")));
    let after: Vec<(String, String)> =
        shard.get_edges("a").iter().map(|e| (e.to.clone(), e.edge_type.clone())).collect();
    assert_eq!(before, after);
}
