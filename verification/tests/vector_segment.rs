use prism::error::Error;
use prism::vector::Metric;
use prism::vector_segment::{VectorSegment, VectorShard};

fn bits(v: &[f32]) -> Vec<u32> {
    v.iter().map(|x| x.to_bits()).collect()
}

fn make_segment(dim: usize) -> VectorSegment {
    VectorSegment::new(0, dim, Metric::Cosine)
}

fn make_shard() -> VectorShard {
    VectorShard::new(0, 4, Metric::Cosine, 16, 200, 100, None, "embedding".to_string())
}

#[test]
fn test_sealed_segment_rejects_writes() {
    let mut seg = make_segment(4);
    seg.seal();
    let result = seg.add("doc1", &bits(&[1.0, 0.0, 0.0, 0.0]), "{}".to_string());
    assert!(result.is_err());
}

#[test]
fn test_live_count() {
    let mut seg = make_segment(4);
    seg.add("doc1", &bits(&[1.0, 0.0, 0.0, 0.0]), "{}".to_string()).unwrap();
    seg.add("doc2", &bits(&[0.0, 1.0, 0.0, 0.0]), "{}".to_string()).unwrap();

    assert_eq!(seg.live_count(), 2);
    assert_eq!(seg.total_count(), 2);
    assert_eq!(seg.deleted_count(), 0);

    seg.tombstone("doc1");
    assert_eq!(seg.live_count(), 1);
    assert_eq!(seg.deleted_count(), 1);
}

#[test]
fn test_tombstone() {
    let mut seg = make_segment(4);
    let k1 = seg.add("doc1", &bits(&[1.0, 0.0, 0.0, 0.0]), "{}".to_string()).unwrap();
    let k2 = seg.add("doc2", &bits(&[0.0, 1.0, 0.0, 0.0]), "{}".to_string()).unwrap();

    assert!(seg.contains("doc1"));
    seg.tombstone("doc1");
    assert!(!seg.contains("doc1"));

    // The index may still return doc1's key: it must be filtered out.
    let results = seg.hits(&[(k1, 1.0f32.to_bits()), (k2, 0.0f32.to_bits())]);
    for r in &results {
        assert_ne!(r.id, "doc1");
    }
}

#[test]
fn test_delete() {
    let mut shard = make_shard();
    shard.index("doc1", &bits(&[1.0, 0.0, 0.0, 0.0]), "{}".to_string()).unwrap();
    assert!(shard.contains("doc1"));

    shard.delete("doc1");
    assert!(!shard.contains("doc1"));
}

#[test]
fn test_reindex_replaces_old_doc() {
    let mut shard = make_shard();
    shard.index("doc1", &bits(&[1.0, 0.0, 0.0, 0.0]), "{}".to_string()).unwrap();
    shard.index("doc1", &bits(&[0.0, 1.0, 0.0, 0.0]), "{}".to_string()).unwrap();

    assert_eq!(shard.live_count(), 1);
}

#[test]
fn test_seal_and_search_across_segments() {
    let mut shard = make_shard();
    let k1 = shard.index("doc1", &bits(&[1.0, 0.0, 0.0, 0.0]), "{}".to_string()).unwrap();
    shard.seal_active();
    let k2 = shard.index("doc2", &bits(&[0.0, 1.0, 0.0, 0.0]), "{}".to_string()).unwrap();

    assert_eq!(shard.sealed_segment_count(), 1);
    // Open segment first, then the sealed one.
    let matches = vec![vec![(k2, 0.0f32.to_bits())], vec![(k1, 1.0f32.to_bits())]];
    let results = shard.collect_hits(&matches);
    assert_eq!(results.len(), 2);
}

#[test]
fn segment_dimension_mismatch_message() {
    let mut seg = make_segment(4);
    let err = seg.add("doc1", &bits(&[1.0, 0.0, 0.0]), "{}".to_string()).unwrap_err();
    assert_eq!(err, Error::Schema("Expected 4 dimensions, got 3".to_string()));
    assert_eq!(seg.live_count(), 0);
}

#[test]
fn segment_sealed_message() {
    let mut seg = make_segment(4);
    seg.seal();
    assert!(seg.is_sealed());
    let err = seg.add("doc1", &bits(&[1.0, 0.0, 0.0, 0.0]), "{}".to_string()).unwrap_err();
    assert_eq!(err, Error::Backend("Cannot write to a sealed segment".to_string()));
}

#[test]
fn segment_keys_count_up_and_fields_are_kept() {
    let mut seg = make_segment(2);
    assert_eq!(seg.add("a", &bits(&[1.0, 0.0]), "{\"t\":1}".to_string()), Ok(0));
    assert_eq!(seg.add("b", &bits(&[0.0, 1.0]), "{\"t\":2}".to_string()), Ok(1));
    assert_eq!(seg.get("b"), Some("{\"t\":2}".to_string()));
    assert_eq!(seg.get("zzz"), None);
    assert!(seg.tombstone("a"));
    assert!(!seg.tombstone("a"));
    assert_eq!(seg.get("a"), None);
    assert_eq!(seg.total_count(), 2);
}

#[test]
fn segment_hits_skip_unknown_and_dead_keys() {
    let mut seg = make_segment(1);
    let ka = seg.add("a", &bits(&[1.0]), "A".to_string()).unwrap();
    let kb = seg.add("b", &bits(&[2.0]), "B".to_string()).unwrap();
    seg.tombstone("a");
    let hits = seg.hits(&[(ka, 7), (99, 8), (kb, 9)]);
    assert_eq!(hits.len(), 1);
    assert_eq!(hits[0].id, "b");
    assert_eq!(hits[0].score_bits, 9);
    assert_eq!(hits[0].fields, "B");
}

#[test]
fn shard_seal_keeps_only_written_segments() {
    let mut shard = make_shard();
    shard.seal_active();
    assert_eq!(shard.sealed_segment_count(), 0);
    shard.index("doc1", &bits(&[1.0, 0.0, 0.0, 0.0]), "F1".to_string()).unwrap();
    shard.seal_active();
    assert_eq!(shard.sealed_segment_count(), 1);
    assert_eq!(shard.get("doc1"), Some("F1".to_string()));
    shard.index("doc1", &bits(&[0.0, 1.0, 0.0, 0.0]), "F2".to_string()).unwrap();
    assert_eq!(shard.get("doc1"), Some("F2".to_string()));
    assert_eq!(shard.live_count(), 1);
    assert_eq!(shard.total_count(), 2);
    assert!(shard.delete("doc1"));
    assert!(!shard.delete("doc1"));
    assert_eq!(shard.get("doc1"), None);
}

#[test]
fn shard_index_dimension_mismatch_still_removes_old_copy() {
    let mut shard = make_shard();
    shard.index("doc1", &bits(&[1.0, 0.0, 0.0, 0.0]), "{}".to_string()).unwrap();
    let err = shard.index("doc1", &bits(&[1.0]), "{}".to_string()).unwrap_err();
    assert_eq!(err, Error::Schema("Expected 4 dimensions, got 1".to_string()));
    assert!(!shard.contains("doc1"));
}

#[test]
fn segment_readd_counts_every_vector() {
    let mut seg = make_segment(4);
    let k1 = seg.add("doc1", &bits(&[1.0, 0.0, 0.0, 0.0]), "A".to_string()).unwrap();
    seg.add("doc1", &bits(&[0.0, 1.0, 0.0, 0.0]), "B".to_string()).unwrap();
    assert_eq!(seg.total_count(), 2);
    assert_eq!(seg.live_count(), 1);
    assert_eq!(seg.deleted_count(), 1);
    // The replaced vector's key no longer yields the document.
    assert!(seg.hits(&[(k1, 0)]).is_empty());
    assert_eq!(seg.get("doc1"), Some("B".to_string()));
}
