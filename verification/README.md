# prism

The verified core of the Prism search engine, written in Verus.

- `src/` is the library. Every executable function in it carries a
  `requires`/`ensures` contract that Verus proves: code tokenization and
  language detection, date-math resolution, collection names and aliases,
  graph shards and their sharded backend, vector segments, shards and the
  sharded vector index, terms and metric aggregations, the LRU file cache,
  embedding-cache keys, configuration defaults and storage plans, and the
  typing of document fields for the text index.
- Calls into other crates (tree-sitter and its grammars, chrono, sha2, uuid,
  dirs, roaring, std hashing) go through small trusted wrappers whose
  contracts state what those crates document.
- `tests/` runs the library on concrete inputs.
- `app/` holds what cannot be verified: the Tantivy adapters, floating-point
  scoring and aggregation results, and the serde forms of configuration.
