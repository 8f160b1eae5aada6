use prism::lru_cache::LruCache;

fn key(s: &str) -> String {
    s.to_string()
}

fn hit_rate(cache: &LruCache) -> f64 {
    let s = cache.stats();
    if s.total_requests() == 0 {
        0.0
    } else {
        s.hits() as f64 / s.total_requests() as f64
    }
}

#[test]
fn test_new_cache_is_empty() {
    let cache = LruCache::new(10);
    assert_eq!(cache.entry_count(), 0);
    assert_eq!(cache.size_bytes(), 0);
    assert_eq!(cache.size_bytes() as f64 / (1024.0 * 1024.0), 0.0);
    assert_eq!(cache.max_size_bytes() as f64 / (1024.0 * 1024.0), 10.0);
}

#[test]
fn test_put_and_get() {
    let mut cache = LruCache::new(10);
    let k = key("/tmp/test.bin");
    cache.put(k.clone(), 1024);
    assert_eq!(cache.entry_count(), 1);
    assert_eq!(cache.size_bytes(), 1024);
    let entry = cache.get(&k);
    assert!(entry.is_some());
}

#[test]
fn test_get_missing_key() {
    let mut cache = LruCache::new(10);
    let entry = cache.get(&key("/tmp/missing.bin"));
    assert!(entry.is_none());
}

#[test]
fn test_put_duplicate_returns_none() {
    let mut cache = LruCache::new(10);
    let k = key("/tmp/test.bin");
    cache.put(k.clone(), 1024);
    let result = cache.put(k, 2048);
    assert!(result.is_none());
    assert_eq!(cache.entry_count(), 1);
    assert_eq!(cache.size_bytes(), 1024);
}

#[test]
fn test_eviction_on_capacity() {
    let mut cache = LruCache::new(1);
    let max = 1024 * 1024;
    let key1 = key("/tmp/a.bin");
    cache.put(key1.clone(), max / 2);
    let key2 = key("/tmp/b.bin");
    cache.put(key2.clone(), max / 2);
    let key3 = key("/tmp/c.bin");
    let evicted = cache.put(key3, max / 2);
    assert_eq!(evicted, Some(key1));
}

#[test]
fn test_lru_ordering() {
    let mut cache = LruCache::new(1);
    let chunk = 300 * 1024;
    let key1 = key("/tmp/1.bin");
    let key2 = key("/tmp/2.bin");
    let key3 = key("/tmp/3.bin");
    cache.put(key1.clone(), chunk);
    cache.put(key2.clone(), chunk);
    cache.put(key3.clone(), chunk);
    cache.get(&key1);
    let key4 = key("/tmp/4.bin");
    let evicted = cache.put(key4, chunk);
    assert_eq!(evicted, Some(key2));
}

#[test]
fn test_cache_stats_hits_misses() {
    let mut cache = LruCache::new(10);
    let k = key("/tmp/test.bin");
    cache.put(k.clone(), 1024);
    cache.get(&k);
    cache.get(&k);
    cache.get(&key("/tmp/miss.bin"));
    let stats = cache.stats();
    assert_eq!(stats.hits(), 2);
    assert_eq!(stats.misses(), 1);
    assert_eq!(stats.total_requests(), 3);
}

#[test]
fn test_hit_rate() {
    let mut cache = LruCache::new(10);
    assert_eq!(hit_rate(&cache), 0.0);
    let k = key("/tmp/test.bin");
    cache.put(k.clone(), 1024);
    cache.get(&k);
    cache.get(&key("/missing"));
    assert!((hit_rate(&cache) - 0.5).abs() < f64::EPSILON);
}

#[test]
fn test_remove() {
    let mut cache = LruCache::new(10);
    let k = key("/tmp/test.bin");
    cache.put(k.clone(), 2048);
    assert_eq!(cache.entry_count(), 1);
    let removed_size = cache.remove(&k);
    assert_eq!(removed_size, Some(2048));
    assert_eq!(cache.entry_count(), 0);
    assert_eq!(cache.size_bytes(), 0);
}

#[test]
fn test_remove_missing() {
    let mut cache = LruCache::new(10);
    let removed = cache.remove(&key("/tmp/missing.bin"));
    assert!(removed.is_none());
}

#[test]
fn test_clear() {
    let mut cache = LruCache::new(10);
    cache.put(key("/tmp/a.bin"), 1024);
    cache.put(key("/tmp/b.bin"), 2048);
    assert_eq!(cache.entry_count(), 2);
    cache.clear();
    assert_eq!(cache.entry_count(), 0);
    assert_eq!(cache.size_bytes(), 0);
}

#[test]
fn test_eviction_stats() {
    let mut cache = LruCache::new(1);
    let max = 1024 * 1024;
    cache.put(key("/tmp/a.bin"), max);
    cache.put(key("/tmp/b.bin"), max);
    let stats = cache.stats();
    assert_eq!(stats.evictions(), 1);
}

#[test]
fn lru_law_size_stays_within_budget() {
    let mut cache = LruCache::new(1);
    let max = 1024 * 1024;
    for i in 0..10u64 {
        cache.put(format!("/k/{}", i), max / 3);
        assert!(cache.size_bytes() <= cache.max_size_bytes());
    }
}

#[test]
fn lru_get_refreshes_recency() {
    let mut cache = LruCache::new(1);
    let max = 1024 * 1024;
    let a = key("/a");
    let b = key("/b");
    cache.put(a.clone(), max / 2);
    cache.put(b.clone(), max / 2);
    cache.get(&a);
    assert_eq!(cache.put(key("/c"), max / 2), Some(b));
}
