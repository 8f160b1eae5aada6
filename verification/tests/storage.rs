use prism::error::Error;
use prism::storage_config::{CacheStorageConfig, S3StorageConfig, StoragePlan, UnifiedStorageConfig};

fn s3(bucket: &str) -> S3StorageConfig {
    S3StorageConfig {
        bucket: bucket.to_string(),
        region: "eu-west-1".to_string(),
        prefix: Some("data/".to_string()),
        endpoint: None,
        force_path_style: false,
        access_key_id: None,
        secret_access_key: None,
    }
}

#[test]
fn test_default_config() {
    let config = UnifiedStorageConfig::default();
    assert_eq!(config.backend, "local");
    assert!(config.data_dir.contains(".prism"));
}

#[test]
fn test_is_remote() {
    let mut config = UnifiedStorageConfig::default();
    assert!(!config.is_remote());
    assert!(config.is_local());

    config.backend = "s3".to_string();
    assert!(config.is_remote());
    assert!(!config.is_local());
}

#[test]
fn storage_with_home_paths() {
    let c = UnifiedStorageConfig::with_home(&Some("/home/u".to_string()));
    assert_eq!(c.data_dir, "/home/u/.prism/data");
    assert_eq!(c.buffer_dir(), "/home/u/.prism/buffer");
    let c2 = UnifiedStorageConfig::with_home(&None);
    assert_eq!(c2.data_dir, "./.prism/data");
}

#[test]
fn storage_cached_is_remote() {
    let mut c = UnifiedStorageConfig::with_home(&None);
    c.backend = "cached".to_string();
    assert!(c.is_remote());
    assert!(!c.is_local());
}

#[test]
fn storage_expand_paths_with_home() {
    let mut c = UnifiedStorageConfig::with_home(&None);
    c.data_dir = "~/prism-data".to_string();
    c.buffer_dir = "/abs/buffer".to_string();
    c.cache = Some(CacheStorageConfig { l1_path: "~/cache".to_string(), l1_max_size_gb: 5, write_through: false });
    c.expand_paths_with(&Some("/home/u".to_string())).unwrap();
    assert_eq!(c.data_dir, "/home/u/prism-data");
    assert_eq!(c.buffer_dir, "/abs/buffer");
    let k = c.cache.unwrap();
    assert_eq!(k.l1_path, "/home/u/cache");
    assert_eq!(k.l1_max_size_gb, 5);
}

#[test]
fn storage_expand_paths_without_home_fails() {
    let mut c = UnifiedStorageConfig::with_home(&None);
    c.data_dir = "~/prism-data".to_string();
    let r = c.expand_paths_with(&None);
    assert!(matches!(r, Err(Error::Config(_))));
}

#[test]
fn storage_plan_local() {
    let c = UnifiedStorageConfig::with_home(&Some("/h".to_string()));
    match c.storage_plan(true).unwrap() {
        StoragePlan::Local { data_dir } => assert_eq!(data_dir, "/h/.prism/data"),
        _ => panic!("expected local storage"),
    }
}

#[test]
fn storage_plan_s3_needs_feature() {
    let mut c = UnifiedStorageConfig::with_home(&None);
    c.backend = "s3".to_string();
    c.s3 = Some(s3("b"));
    match c.storage_plan(false) {
        Err(Error::Config(m)) => assert_eq!(m, "S3 storage requires 'storage-s3' feature"),
        _ => panic!("expected config error"),
    }
}

#[test]
fn storage_plan_s3_needs_section() {
    let mut c = UnifiedStorageConfig::with_home(&None);
    c.backend = "s3".to_string();
    match c.storage_plan(true) {
        Err(Error::Config(m)) => assert_eq!(m, "S3 backend requires [storage.s3] configuration"),
        _ => panic!("expected config error"),
    }
    c.backend = "cached".to_string();
    match c.storage_plan(true) {
        Err(Error::Config(m)) => assert_eq!(m, "Cached backend requires [storage.s3] configuration for L2"),
        _ => panic!("expected config error"),
    }
}

#[test]
fn storage_plan_s3_and_cached() {
    let mut c = UnifiedStorageConfig::with_home(&None);
    c.backend = "s3".to_string();
    c.s3 = Some(s3("my-bucket"));
    match c.storage_plan(true).unwrap() {
        StoragePlan::S3 { s3 } => {
            assert_eq!(s3.bucket, "my-bucket");
            assert_eq!(s3.region, "eu-west-1");
            assert_eq!(s3.prefix, Some("data/".to_string()));
        }
        _ => panic!("expected s3 storage"),
    }
    c.backend = "cached".to_string();
    c.cache = Some(CacheStorageConfig { l1_path: "/tmp/cache".to_string(), l1_max_size_gb: 20, write_through: false });
    match c.storage_plan(true).unwrap() {
        StoragePlan::Cached { l1_path, max_size_bytes, write_through, populate_on_read, .. } => {
            assert_eq!(l1_path, "/tmp/cache");
            assert_eq!(max_size_bytes, 20 * 1024 * 1024 * 1024);
            assert!(!write_through);
            assert!(populate_on_read);
        }
        _ => panic!("expected cached storage"),
    }
}

#[test]
fn storage_plan_unknown_backend() {
    let mut c = UnifiedStorageConfig::with_home(&None);
    c.backend = "ftp".to_string();
    match c.storage_plan(true) {
        Err(Error::Config(m)) => assert_eq!(m, "Unknown storage backend: 'ftp'. Valid options: local, s3, cached"),
        _ => panic!("expected config error"),
    }
}
