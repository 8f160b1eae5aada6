//! Embedding-cache configuration and cache keys (SHA-256 of the text, of
//! model and text, or of model, version and text, in lower-case hex).

use crate::textutil::{chars_of, string_from_chars};
use sha2::Digest;
use vstd::prelude::*;

verus! {

/// Strategy for building cache keys.
#[derive(Debug, Clone, Copy, PartialEq, Eq, Structural)]
pub enum KeyStrategy {
    /// Hash only the text (ignores model).
    TextOnly,
    /// Hash model name + text (default).
    ModelText,
    /// Hash model name + version + text.
    ModelVersionText,
}

impl Default for KeyStrategy {
    fn default() -> (r: Self)
        ensures
            r == KeyStrategy::ModelText,
    {
        KeyStrategy::ModelText
    }
}

/// The key strategy configurations get when none is given.
pub fn default_key_strategy() -> (r: KeyStrategy)
    ensures
        r == KeyStrategy::ModelText,
{
    KeyStrategy::ModelText
}

/// Embedding-cache configuration.
#[derive(Debug, Clone)]
pub struct CacheConfig {
    /// Backend type: "sqlite" or "redis".
    pub backend: String,
    /// Path for the SQLite database.
    pub path: Option<String>,
    /// URL of the Redis server.
    pub url: Option<String>,
    /// Maximum number of cached entries (for LRU eviction).
    pub max_entries: Option<usize>,
    /// Cache key strategy.
    pub key_strategy: KeyStrategy,
}

impl CacheConfig {
    /// SQLite cache at `path`, up to a million entries, model+text keys.
    pub fn sqlite(path: &str) -> (r: Self)
        ensures
            r.backend@ == "sqlite"@,
            r.path matches Some(p) && p@ == path@,
            r.url is None,
            r.max_entries == Some(1_000_000usize),
            r.key_strategy == KeyStrategy::ModelText,
    {
        CacheConfig {
            backend: string_from_chars(&chars_of("sqlite")),
            path: Some(string_from_chars(&chars_of(path))),
            url: None,
            max_entries: Some(1_000_000),
            key_strategy: KeyStrategy::ModelText,
        }
    }

    /// Redis cache at `url`, unbounded, model+text keys.
    pub fn redis(url: &str) -> (r: Self)
        ensures
            r.backend@ == "redis"@,
            r.path is None,
            r.url matches Some(u) && u@ == url@,
            r.max_entries is None,
            r.key_strategy == KeyStrategy::ModelText,
    {
        CacheConfig {
            backend: string_from_chars(&chars_of("redis")),
            path: None,
            url: Some(string_from_chars(&chars_of(url))),
            max_entries: None,
            key_strategy: KeyStrategy::ModelText,
        }
    }
}

// ---------------------------------------------------------------------------
// Hex encoding
// ---------------------------------------------------------------------------

pub open spec fn hex_digit(n: int) -> char {
    if n < 10 {
        ((n + 48) as u32) as char
    } else {
        ((n - 10 + 97) as u32) as char
    }
}

/// Lower-case hexadecimal, two digits per byte.
pub open spec fn hex_of(bytes: Seq<u8>) -> Seq<char>
    decreases bytes.len(),
{
    if bytes.len() == 0 {
        Seq::empty()
    } else {
        hex_of(bytes.drop_last()) + seq![
            hex_digit(bytes.last() as int / 16),
            hex_digit(bytes.last() as int % 16),
        ]
    }
}

fn hex_char(n: u8) -> (c: char)
    requires
        n < 16,
    ensures
        c == hex_digit(n as int),
{
    if n < 10 {
        (n + 48) as char
    } else {
        (n - 10 + 97) as char
    }
}

/// Lower-case hex encoding of bytes.
pub fn encode(bytes: &[u8]) -> (r: String)
    ensures
        r@ == hex_of(bytes@),
{
    let mut out: Vec<char> = Vec::new();
    let mut i: usize = 0;
    while i < bytes.len()
        invariant
            i <= bytes.len(),
            out@ == hex_of(bytes@.take(i as int)),
        decreases bytes.len() - i,
    {
        let b = bytes[i];
        proof {
            assert(bytes@.take(i + 1).drop_last() =~= bytes@.take(i as int));
        }
        out.push(hex_char(b / 16));
        out.push(hex_char(b % 16));
        proof {
            assert(out@ =~= hex_of(bytes@.take(i + 1)));
        }
        i = i + 1;
    }
    proof {
        assert(bytes@.take(bytes.len() as int) =~= bytes@);
    }
    string_from_chars(&out)
}

// ---------------------------------------------------------------------------
// SHA-256 (sha2 crate)
// ---------------------------------------------------------------------------

/// The SHA-256 digest of a byte string.
pub uninterp spec fn sha256_of(data: Seq<u8>) -> Seq<u8>;

/// Calls `sha2::Sha256` (`update` with `data`, then `finalize`).  Claimed:
/// the digest is the named value and has 32 bytes.
#[verifier::external_body]
fn sha256(data: &[u8]) -> (r: Vec<u8>)
    ensures
        r@ == sha256_of(data@),
        r@.len() == 32,
{
    let mut hasher = sha2::Sha256::new();
    hasher.update(data);
    hasher.finalize().to_vec()
}

/// Lower-case hex SHA-256 of the UTF-8 bytes of `s`.
pub open spec fn hex_hash_of(s: Seq<char>) -> Seq<char> {
    hex_of(sha256_of(vstd::utf8::encode_utf8(s)))
}

fn hex_hash(input: &str) -> (r: String)
    ensures
        r@ == hex_hash_of(input@),
{
    let digest = sha256(input.as_bytes());
    encode(digest.as_slice())
}

// ---------------------------------------------------------------------------
// Cache keys
// ---------------------------------------------------------------------------

/// Cache key for embedding lookups.
#[derive(Debug, Clone)]
pub struct CacheKey {
    /// The hash used for lookup.
    pub hash: String,
    /// Model name.
    pub model: String,
    /// Model version, if known.
    pub model_version: Option<String>,
    /// Hash of the text alone.
    pub text_hash: String,
}

/// The string hashed for the lookup key under a strategy.
pub open spec fn key_material(
    model: Seq<char>,
    version: Option<Seq<char>>,
    text: Seq<char>,
    strategy: KeyStrategy,
) -> Seq<char> {
    match strategy {
        KeyStrategy::TextOnly => text,
        KeyStrategy::ModelText => model + ":"@ + text,
        KeyStrategy::ModelVersionText => model + ":"@ + match version {
            Some(v) => v,
            None => "unknown"@,
        } + ":"@ + text,
    }
}

/// Law: the material of a key that includes the model starts with the model
/// followed by `:`, and the material of every key ends with the text.
pub proof fn lemma_key_material_shape(
    model: Seq<char>,
    version: Option<Seq<char>>,
    text: Seq<char>,
    strategy: KeyStrategy,
)
    ensures
        ({
            let m = key_material(model, version, text, strategy);
            &&& m.len() >= text.len()
            &&& m.subrange(m.len() - text.len(), m.len() as int) == text
            &&& strategy == KeyStrategy::TextOnly ==> m == text
            &&& strategy != KeyStrategy::TextOnly ==> {
                &&& m.len() > model.len()
                &&& m.subrange(0, model.len() as int) == model
                &&& m[model.len() as int] == ':'
            }
        }),
{
    reveal_strlit(":");
    reveal_strlit("unknown");
    let m = key_material(model, version, text, strategy);
    assert(m.subrange(m.len() - text.len(), m.len() as int) =~= text);
    if strategy != KeyStrategy::TextOnly {
        assert(m.subrange(0, model.len() as int) =~= model);
    }
}

/// Law: keys that include the model tell models apart: the same version and
/// text under two different models give two different key materials.
pub proof fn lemma_key_material_separates_models(
    model1: Seq<char>,
    model2: Seq<char>,
    version: Option<Seq<char>>,
    text: Seq<char>,
    strategy: KeyStrategy,
)
    requires
        model1 != model2,
        strategy != KeyStrategy::TextOnly,
    ensures
        key_material(model1, version, text, strategy) != key_material(model2, version, text, strategy),
{
    let a = key_material(model1, version, text, strategy);
    let b = key_material(model2, version, text, strategy);
    lemma_key_material_shape(model1, version, text, strategy);
    lemma_key_material_shape(model2, version, text, strategy);
    if a == b {
        assert(model1.len() == model2.len());
        assert(model1 =~= model2);
    }
}

/// Law: every key tells texts apart: two different texts under the same
/// model, version and strategy give two different key materials.
pub proof fn lemma_key_material_separates_texts(
    model: Seq<char>,
    version: Option<Seq<char>>,
    text1: Seq<char>,
    text2: Seq<char>,
    strategy: KeyStrategy,
)
    requires
        text1 != text2,
    ensures
        key_material(model, version, text1, strategy) != key_material(model, version, text2, strategy),
{
    let a = key_material(model, version, text1, strategy);
    let b = key_material(model, version, text2, strategy);
    lemma_key_material_shape(model, version, text1, strategy);
    lemma_key_material_shape(model, version, text2, strategy);
    if a == b {
        assert(text1.len() == text2.len());
        assert(text1 =~= text2);
    }
}

pub open spec fn opt_str_view(o: Option<&str>) -> Option<Seq<char>> {
    match o {
        Some(s) => Some(s@),
        None => None,
    }
}

impl CacheKey {
    /// Build the cache key of `text` for `model` under `strategy`.
    pub fn new(model: &str, model_version: Option<&str>, text: &str, strategy: KeyStrategy) -> (r: Self)
        ensures
            r.hash@ == hex_hash_of(key_material(model@, opt_str_view(model_version), text@, strategy)),
            r.text_hash@ == hex_hash_of(text@),
            strategy == KeyStrategy::TextOnly ==> r.hash@ == r.text_hash@,
            strategy == KeyStrategy::ModelText ==> r.hash@ == hex_hash_of(model@ + ":"@ + text@),
            strategy == KeyStrategy::ModelVersionText ==> r.hash@ == hex_hash_of(
                model@ + ":"@ + (match model_version {
                    Some(v) => v@,
                    None => "unknown"@,
                }) + ":"@ + text@,
            ),
            r.model@ == model@,
            match (r.model_version, model_version) {
                (Some(a), Some(b)) => a@ == b@,
                (None, None) => true,
                _ => false,
            },
    {
        let text_hash = hex_hash(text);
        let hash = match strategy {
            KeyStrategy::TextOnly => text_hash.clone(),
            KeyStrategy::ModelText => {
                let mut v = chars_of(model);
                let mut sep = chars_of(":");
                let mut t = chars_of(text);
                v.append(&mut sep);
                v.append(&mut t);
                let s = string_from_chars(&v);
                hex_hash(s.as_str())
            },
            KeyStrategy::ModelVersionText => {
                let version = match model_version {
                    Some(v) => v,
                    None => "unknown",
                };
                let mut v = chars_of(model);
                let mut sep = chars_of(":");
                let mut ver = chars_of(version);
                let mut sep2 = chars_of(":");
                let mut t = chars_of(text);
                v.append(&mut sep);
                v.append(&mut ver);
                v.append(&mut sep2);
                v.append(&mut t);
                let s = string_from_chars(&v);
                hex_hash(s.as_str())
            },
        };
        let mv = match model_version {
            Some(v) => Some(string_from_chars(&chars_of(v))),
            None => None,
        };
        CacheKey { hash, model: string_from_chars(&chars_of(model)), model_version: mv, text_hash }
    }
}

/// Statistics about an embedding cache.
#[derive(Debug, Clone, Copy, PartialEq, Eq, Structural)]
pub struct EmbeddingCacheStats {
    /// Total number of cached embeddings.
    pub total_entries: usize,
    /// Total size in bytes.
    pub total_bytes: usize,
    /// Cache hits since startup.
    pub hits: u64,
    /// Cache misses since startup.
    pub misses: u64,
}

impl Default for EmbeddingCacheStats {
    fn default() -> (r: Self)
        ensures
            r.total_entries == 0 && r.total_bytes == 0 && r.hits == 0 && r.misses == 0,
    {
        EmbeddingCacheStats { total_entries: 0, total_bytes: 0, hits: 0, misses: 0 }
    }
}

/// The key prefix of the Redis embedding cache when none is given.
pub fn default_redis_prefix() -> (r: String)
    ensures
        r@ == "prism:emb:"@,
{
    string_from_chars(&chars_of("prism:emb:"))
}

/// The Redis key of a cache entry: the prefix followed by the key's hash.
pub fn redis_key(prefix: &str, key: &CacheKey) -> (r: String)
    ensures
        r@ == prefix@ + key.hash@,
{
    let mut v = chars_of(prefix);
    let mut h = chars_of(key.hash.as_str());
    v.append(&mut h);
    string_from_chars(&v)
}

} // verus!
