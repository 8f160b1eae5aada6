use prism::cache_key::{default_redis_prefix, redis_key, CacheKey};
use prism::code_tokens::{field_tokenizer, language_tokenizer, TokenizerType};
use prism::doc_fields::{texts_to_embed, FieldValue};
use prism::language::Language;
use prism::storage_config::{CacheStorageConfig, UnifiedStorageConfig};

#[test]
fn tokenizer_names() {
    assert_eq!(language_tokenizer(Language::TypeScript), "code-treesitter-typescript");
    assert_eq!(field_tokenizer(None, None, "code"), "default");
    assert_eq!(field_tokenizer(Some(TokenizerType::Code), None, "code"), "code");
    assert_eq!(field_tokenizer(Some(TokenizerType::Raw), Some("rust"), "code"), "raw");
    assert_eq!(field_tokenizer(Some(TokenizerType::CodeTreeSitter), Some("rust"), "code"), "code-treesitter-rust");
    assert_eq!(field_tokenizer(Some(TokenizerType::CodeTreeSitter), None, "code"), "code-treesitter");
}

#[test]
fn embedding_requests_pick_docs_without_target() {
    let docs = vec![
        vec![("text".to_string(), FieldValue::Text("hello".to_string()))],
        vec![
            ("text".to_string(), FieldValue::Text("skip".to_string())),
            ("embedding".to_string(), FieldValue::Other),
        ],
        vec![("text".to_string(), FieldValue::Other)],
        vec![("text".to_string(), FieldValue::Text("world".to_string()))],
    ];
    let r = texts_to_embed(&docs, "text", "embedding");
    assert_eq!(r, vec![(0, "hello".to_string()), (3, "world".to_string())]);
}

#[test]
fn redis_keys() {
    let key = CacheKey {
        hash: "abc".to_string(),
        model: "m".to_string(),
        model_version: None,
        text_hash: "t".to_string(),
    };
    assert_eq!(default_redis_prefix(), "prism:emb:");
    assert_eq!(redis_key(&default_redis_prefix(), &key), "prism:emb:abc");
}

#[test]
fn expand_paths_without_tilde_succeeds_unchanged() {
    let mut c = UnifiedStorageConfig {
        backend: "cached".to_string(),
        data_dir: "/data".to_string(),
        s3: None,
        cache: Some(CacheStorageConfig { l1_path: "rel/cache".to_string(), l1_max_size_gb: 1, write_through: true }),
        buffer_dir: "/buf".to_string(),
    };
    assert!(c.expand_paths().is_ok());
    assert_eq!(c.data_dir, "/data");
    assert_eq!(c.buffer_dir, "/buf");
    assert_eq!(c.cache.unwrap().l1_path, "rel/cache");
}
