use prism::vector::shard_for_doc;

#[test]
fn test_shard_assignment_distribution() {
    let num_shards = 4;
    let mut counts = vec![0u32; num_shards];
    for i in 0..1000 {
        let doc_id = format!("doc_{}", i);
        let shard = shard_for_doc(&doc_id, num_shards);
        counts[shard as usize] += 1;
    }
    for count in &counts {
        assert!(*count > 150, "Shard got too few docs: {}", count);
        assert!(*count < 350, "Shard got too many docs: {}", count);
    }
}

#[test]
fn shard_for_doc_is_stable_and_in_range() {
    for n in 1..10usize {
        let a = shard_for_doc("some-id", n);
        let b = shard_for_doc("some-id", n);
        assert_eq!(a, b);
        assert!((a as usize) < n);
    }
    assert_eq!(shard_for_doc("anything", 1), 0);
}
