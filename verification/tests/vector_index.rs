use prism::error::Error;
use prism::vector::{shard_for_doc, Metric};
use prism::vector_index::{ShardedVectorIndex, VectorDoc};

fn doc(id: &str, v: &[f32]) -> VectorDoc {
    VectorDoc { id: id.to_string(), vector: v.iter().map(|x| x.to_bits()).collect(), fields: "{}".to_string() }
}

fn make_index(num_shards: usize) -> ShardedVectorIndex {
    ShardedVectorIndex::new(num_shards, 4, Metric::Cosine, 16, 200, 100, None, "embedding".to_string(), 2.0f32.to_bits())
}

#[test]
fn sharded_index_basic() {
    let mut index = make_index(4);
    index
        .index_docs(vec![doc("doc1", &[1.0, 0.0, 0.0, 0.0]), doc("doc2", &[0.0, 1.0, 0.0, 0.0])])
        .unwrap();
    assert!(index.get("doc1").is_some());
    index.delete(&vec!["doc1".to_string()]);
    assert!(index.get("doc1").is_none());
    assert!(index.get("doc2").is_some());
    assert_eq!(index.document_count(), 1);
}

#[test]
fn sharded_index_multi_shard_distribution() {
    let mut index = make_index(4);
    let mut docs = Vec::new();
    for i in 0..100 {
        let v = [(i as f32) / 100.0, ((100 - i) as f32) / 100.0, 0.5, 0.5];
        docs.push(doc(&format!("doc_{}", i), &v));
    }
    index.index_docs(docs).unwrap();
    for i in 0..100 {
        assert!(index.get(&format!("doc_{}", i)).is_some(), "doc_{} not found", i);
    }
    assert_eq!(index.document_count(), 100);
    // Each document lives in the shard its id hashes to.
    for i in 0..100 {
        let id = format!("doc_{}", i);
        let s = shard_for_doc(&id, 4) as usize;
        assert!(index.shard(s).contains(&id));
    }
}

#[test]
fn sharded_index_zero_shards_means_one() {
    let index = make_index(0);
    assert_eq!(index.num_shards(), 1);
    assert_eq!(index.dimensions(), 4);
    assert_eq!(index.shard_oversample_bits(), 2.0f32.to_bits());
}

#[test]
fn sharded_index_stops_at_first_bad_vector() {
    let mut index = make_index(2);
    let r = index.index_docs(vec![
        doc("a", &[1.0, 0.0, 0.0, 0.0]),
        doc("b", &[1.0, 0.0]),
        doc("c", &[0.0, 0.0, 0.0, 1.0]),
    ]);
    assert_eq!(r, Err(Error::Schema("Expected 4 dimensions, got 2".to_string())));
    assert!(index.get("a").is_some());
    assert!(index.get("b").is_none());
    assert!(index.get("c").is_none());
    assert_eq!(index.document_count(), 1);
}

#[test]
fn sharded_index_reindex_keeps_one_copy() {
    let mut index = make_index(3);
    index.index_one("x", &[1u32, 2, 3, 4], "F1".to_string()).unwrap();
    index.index_one("x", &[5u32, 6, 7, 8], "F2".to_string()).unwrap();
    assert_eq!(index.get("x"), Some("F2".to_string()));
    assert_eq!(index.document_count(), 1);
}

#[test]
fn sharded_index_keeps_embedding_fields() {
    let index = ShardedVectorIndex::new(2, 3, Metric::Euclidean, 8, 50, 40, Some("text".to_string()), "vec".to_string(), 0);
    assert_eq!(index.embedding_source_field(), Some("text".to_string()));
    assert_eq!(index.embedding_target_field(), "vec");
    assert_eq!(index.shard(1).shard_id(), 1);
    assert_eq!(index.shard(1).ef_search(), 40);
    assert_eq!(index.shard(0).embedding_target_field(), "vec");
}
