use prism::aggregations::{
    count_values, top_buckets, AvgAgg, AvgFruit, CountAgg, CountFruit, MinMaxAgg, MinMaxFruit, SumAgg, SumFruit, TermsAgg, TermsFruit,
};

fn fruit(pairs: &[(&str, u64)]) -> TermsFruit {
    let mut f = TermsFruit::new();
    for (t, c) in pairs {
        f.insert(t, *c);
    }
    f
}

#[test]
fn test_avg_agg_builder() {
    let agg = AvgAgg::avg("rating");
    assert_eq!(agg.field(), "rating");
}

#[test]
fn test_sum_agg_builder() {
    let agg = SumAgg::sum("price");
    assert_eq!(agg.field(), "price");
}

#[test]
fn test_avg_default() {
    let fruit = AvgFruit::default();
    assert_eq!(fruit.sum, 0);
    assert_eq!(fruit.count, 0);
}

#[test]
fn test_sum_default() {
    let fruit = SumFruit::default();
    assert_eq!(fruit.0, 0);
}

#[test]
fn terms_buckets_take_smallest_counts_highest_first() {
    let agg = TermsAgg::new("tag", 2);
    let f = fruit(&[("rust", 5), ("go", 1), ("c", 3), ("zig", 1)]);
    let b = agg.into_buckets(&f);
    assert_eq!(b.len(), 2);
    assert_eq!((b[0].key.as_str(), b[0].doc_count), ("go", 1));
    assert_eq!((b[1].key.as_str(), b[1].doc_count), ("zig", 1));
}

#[test]
fn terms_buckets_all_when_fewer_than_size() {
    let agg = TermsAgg::new("tag", 10);
    let f = fruit(&[("a", 2), ("b", 7), ("c", 2)]);
    let b = agg.into_buckets(&f);
    let got: Vec<(String, u64)> = b.iter().map(|x| (x.key.clone(), x.doc_count)).collect();
    assert_eq!(got, vec![("b".to_string(), 7), ("a".to_string(), 2), ("c".to_string(), 2)]);
    assert_eq!(agg.field(), "tag");
    assert_eq!(agg.size(), 10);
}

#[test]
fn terms_merge_adds_counts() {
    let agg = TermsAgg::new("tag", 10);
    let prepared = agg.prepare();
    let mut acc = prepared.create_fruit();
    prepared.merge(&mut acc, fruit(&[("a", 1), ("b", 2)]));
    prepared.merge(&mut acc, fruit(&[("b", 3), ("c", 4)]));
    assert_eq!(acc.get("a"), Some(1));
    assert_eq!(acc.get("b"), Some(5));
    assert_eq!(acc.get("c"), Some(4));
    assert_eq!(acc.get("d"), None);
    assert_eq!(acc.len(), 3);
}

#[test]
fn terms_merge_order_does_not_matter() {
    let prepared = TermsAgg::new("t", 5).prepare();
    let x = fruit(&[("a", 1), ("b", 2)]);
    let y = fruit(&[("b", 10), ("c", 3)]);
    let mut p = prepared.create_fruit();
    prepared.merge(&mut p, x.clone());
    prepared.merge(&mut p, y.clone());
    let mut q = prepared.create_fruit();
    prepared.merge(&mut q, y);
    prepared.merge(&mut q, x);
    for t in ["a", "b", "c"] {
        assert_eq!(p.get(t), q.get(t));
    }
}

#[test]
fn terms_segment_collects_nothing() {
    let prepared = TermsAgg::new("t", 5).prepare();
    let mut seg = prepared.for_segment();
    let mut f = seg.create_fruit();
    seg.collect(7, &mut f);
    assert_eq!(f.len(), 0);
}

#[test]
fn count_collect_and_merge() {
    let prepared = CountAgg.prepare();
    let mut seg = prepared.for_segment();
    let mut f = seg.create_fruit();
    seg.collect(1, &mut f);
    seg.collect(2, &mut f);
    let mut acc = prepared.create_fruit();
    prepared.merge(&mut acc, f);
    prepared.merge(&mut acc, CountFruit(40));
    assert_eq!(acc.0, 42);
}

#[test]
fn sum_and_avg_collect_exactly() {
    let prepared = SumAgg::sum("price").prepare();
    let mut seg = prepared.for_segment();
    let mut f = seg.create_fruit();
    seg.collect(Some(u64::MAX), &mut f);
    seg.collect(None, &mut f);
    seg.collect(Some(1), &mut f);
    assert_eq!(f.0, u64::MAX as u128 + 1);

    let prepared = AvgAgg::avg("rating").prepare();
    let mut seg = prepared.for_segment();
    let mut f = seg.create_fruit();
    seg.collect(Some(100), &mut f);
    seg.collect(Some(50), &mut f);
    seg.collect(None, &mut f);
    assert_eq!((f.sum, f.count), (150, 2));
    let mut acc = prepared.create_fruit();
    prepared.merge(&mut acc, f);
    prepared.merge(&mut acc, AvgFruit { sum: 0, count: 1 });
    assert_eq!((acc.sum, acc.count), (150, 3));
}

#[test]
fn minmax_merge_and_collect() {
    let min = MinMaxAgg::min("p").prepare();
    let mut acc = min.create_fruit();
    min.merge(&mut acc, MinMaxFruit(None));
    assert_eq!(acc.0, None);
    min.merge(&mut acc, MinMaxFruit(Some(7)));
    min.merge(&mut acc, MinMaxFruit(Some(3)));
    min.merge(&mut acc, MinMaxFruit(Some(9)));
    assert_eq!(acc.0, Some(3));

    let max = MinMaxAgg::max("p").prepare();
    let mut acc = max.create_fruit();
    max.merge(&mut acc, MinMaxFruit(Some(7)));
    max.merge(&mut acc, MinMaxFruit(Some(9)));
    max.merge(&mut acc, MinMaxFruit(None));
    assert_eq!(acc.0, Some(9));

    // A segment reports the value of the latest document it collected.
    let mut seg = min.for_segment();
    let mut f = seg.create_fruit();
    seg.collect(Some(5), &mut f);
    seg.collect(Some(8), &mut f);
    assert_eq!(f.0, Some(8));
    assert!(MinMaxAgg::min("p").is_min());
    assert!(!MinMaxAgg::max("p").is_min());
}

#[test]
fn count_values_counts_each_value() {
    let values: Vec<String> = ["b", "a", "b", "c", "b", "a"].iter().map(|s| s.to_string()).collect();
    let f = count_values(&values);
    assert_eq!(f.get("a"), Some(2));
    assert_eq!(f.get("b"), Some(3));
    assert_eq!(f.get("c"), Some(1));
    assert_eq!(f.len(), 3);
    let top = top_buckets(&f, 2);
    let got: Vec<(String, u64)> = top.iter().map(|x| (x.key.clone(), x.doc_count)).collect();
    assert_eq!(got, vec![("b".to_string(), 3), ("a".to_string(), 2)]);
    assert_eq!(top_buckets(&f, 0).len(), 0);
    assert_eq!(top_buckets(&f, 10).len(), 3);
}
