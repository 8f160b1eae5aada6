//! Verified core of the Prism search engine: code tokenization, language
//! detection, date-math resolution, collection-name handling, graph shards,
//! vector segments and shards, document fields of API results, caches and
//! configuration defaults.

pub mod textutil;
pub mod language;
pub mod splitter;
pub mod code_tokens;
pub mod syntax;
pub mod ts_bindings;
pub mod date_math;
pub mod error;
pub mod collection;
pub mod lru_cache;
pub mod cache_key;
pub mod config;
pub mod storage_config;
pub mod keyed;
pub mod graph;
pub mod vector;
pub mod graph_backend;
pub mod aggregations;
pub mod api_types;
pub mod ui;
pub mod vector_format;
pub mod vector_segment;
pub mod vector_index;
pub mod doc_fields;
pub mod text_index;
