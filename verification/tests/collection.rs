use prism::collection::{expand_collection_patterns, glob_match, validate_collection_name};

#[test]
fn test_validate_collection_name_valid() {
    assert!(validate_collection_name("articles").is_ok());
    assert!(validate_collection_name("my-collection").is_ok());
    assert!(validate_collection_name("my_collection").is_ok());
    assert!(validate_collection_name("logs-2026-01").is_ok());
    assert!(validate_collection_name("a").is_ok());
    assert!(validate_collection_name("A-B_c-123").is_ok());
}

#[test]
fn test_validate_collection_name_empty() {
    let err = validate_collection_name("").unwrap_err();
    assert!(err.message().contains("empty"));
}

#[test]
fn test_validate_collection_name_special_chars() {
    assert!(validate_collection_name("has space").is_err());
    assert!(validate_collection_name("has.dot").is_err());
    assert!(validate_collection_name("has/slash").is_err());
    assert!(validate_collection_name("has@at").is_err());
    assert!(validate_collection_name("has!bang").is_err());
    assert!(validate_collection_name("has#hash").is_err());
    assert!(validate_collection_name("../escape").is_err());
}

#[test]
fn test_glob_match() {
    assert!(glob_match("articles", "articles"));
    assert!(!glob_match("articles", "products"));
    assert!(glob_match("logs-*", "logs-2026"));
    assert!(glob_match("logs-*", "logs-2026-01"));
    assert!(!glob_match("logs-*", "articles"));
    assert!(glob_match("*-products", "us-products"));
    assert!(glob_match("*-products", "eu-products"));
    assert!(!glob_match("*-products", "products-us"));
    assert!(glob_match("logs-*-backup", "logs-2026-backup"));
    assert!(!glob_match("logs-*-backup", "logs-2026"));
    assert!(glob_match("*-logs-*", "us-logs-2026"));
    assert!(glob_match("*-*", "a-b"));
    assert!(glob_match("*", "anything"));
    assert!(glob_match("*", ""));
}

#[test]
fn test_glob_match_question_mark() {
    assert!(glob_match("a?c", "abc"));
    assert!(!glob_match("a?c", "ac"));
    assert!(!glob_match("a?c", "abdc"));
}

#[test]
fn test_expand_collection_patterns_exact() {
    let known = vec!["articles".to_string()];
    let expanded = expand_collection_patterns(&known, &vec!["articles".to_string()]);
    assert_eq!(expanded, vec!["articles".to_string()]);
    let expanded = expand_collection_patterns(&known, &vec!["nonexistent".to_string()]);
    assert!(expanded.is_empty());
}

#[test]
fn test_expand_collection_patterns_no_duplicates() {
    let known = vec!["articles".to_string()];
    let expanded = expand_collection_patterns(&known, &vec!["articles".to_string(), "articles".to_string()]);
    assert_eq!(expanded.len(), 1);
}

#[test]
fn collection_name_error_messages() {
    let e = validate_collection_name("has space").unwrap_err();
    assert!(e.message().contains("has space"));
}

#[test]
fn expand_wildcards_keep_known_only() {
    let known = vec!["logs-1".to_string(), "logs-2".to_string(), "articles".to_string()];
    let expanded = expand_collection_patterns(&known, &vec!["logs-*".to_string(), "logs-1".to_string()]);
    assert_eq!(expanded.len(), 2);
    assert!(expanded.contains(&"logs-1".to_string()));
    assert!(expanded.contains(&"logs-2".to_string()));
}
