//! Unified storage configuration: local filesystem, S3, or tiered (local
//! cache in front of S3) storage.

use crate::config::{expand_tilde_with, home_dir, joined_path, opt_view, owned, path_join, tilde_expanded};
use crate::error::Error;
use crate::textutil::{chars_of, eq_lit, starts_with};
use vstd::prelude::*;

verus! {

pub fn default_backend() -> (r: String)
    ensures
        r@ == "local"@,
{
    owned("local")
}

pub fn default_region() -> (r: String)
    ensures
        r@ == "us-east-1"@,
{
    owned("us-east-1")
}

/// 10 GB.
pub fn default_cache_size() -> (r: u64)
    ensures
        r == 10,
{
    10
}

pub fn default_true() -> (r: bool)
    ensures
        r,
{
    true
}

/// `home` (or `.`) joined with `.prism` and then `leaf`.
pub open spec fn prism_dir(home: Option<Seq<char>>, leaf: Seq<char>) -> Seq<char> {
    let base = match home {
        Some(h) => h,
        None => "."@,
    };
    joined_path(joined_path(base, ".prism"@), leaf)
}

/// `<home>/.prism/<leaf>` (`./.prism/<leaf>` without a home directory).
pub fn prism_dir_under(home: &Option<String>, leaf: &str) -> (r: String)
    ensures
        r@ == prism_dir(opt_view(*home), leaf@),
{
    let base = match home {
        Some(h) => h.clone(),
        None => owned("."),
    };
    let p = path_join(base.as_str(), ".prism");
    path_join(p.as_str(), leaf)
}

/// S3-compatible storage settings.
#[derive(Debug, Clone)]
pub struct S3StorageConfig {
    pub bucket: String,
    pub region: String,
    pub prefix: Option<String>,
    /// Custom endpoint (MinIO and the like).
    pub endpoint: Option<String>,
    /// Path-style requests (required by MinIO).
    pub force_path_style: bool,
    pub access_key_id: Option<String>,
    pub secret_access_key: Option<String>,
}

fn copy_opt(o: &Option<String>) -> (r: Option<String>)
    ensures
        r == *o,
{
    match o {
        Some(x) => Some(x.clone()),
        None => None,
    }
}

impl S3StorageConfig {
    /// A copy of these settings.
    pub fn copy(&self) -> (r: Self)
        ensures
            r == *self,
    {
        S3StorageConfig {
            bucket: self.bucket.clone(),
            region: self.region.clone(),
            prefix: copy_opt(&self.prefix),
            endpoint: copy_opt(&self.endpoint),
            force_path_style: self.force_path_style,
            access_key_id: copy_opt(&self.access_key_id),
            secret_access_key: copy_opt(&self.secret_access_key),
        }
    }
}

/// Local cache layer settings.
#[derive(Debug, Clone)]
pub struct CacheStorageConfig {
    pub l1_path: String,
    /// Maximum size of the local cache in GB.
    pub l1_max_size_gb: u64,
    /// Write through to S3 on writes.
    pub write_through: bool,
}

impl CacheStorageConfig {
    /// Defaults given the home directory.
    pub fn with_home(home: &Option<String>) -> (r: Self)
        ensures
            r.l1_path@ == prism_dir(opt_view(*home), "cache"@),
            r.l1_max_size_gb == 10,
            r.write_through,
    {
        CacheStorageConfig {
            l1_path: prism_dir_under(home, "cache"),
            l1_max_size_gb: default_cache_size(),
            write_through: true,
        }
    }
}

impl Default for CacheStorageConfig {
    fn default() -> (r: Self)
        ensures
            exists|h: Option<Seq<char>>| r.l1_path@ == prism_dir(h, "cache"@),
            r.l1_max_size_gb == 10,
            r.write_through,
    {
        let home = home_dir();
        CacheStorageConfig::with_home(&home)
    }
}

/// Unified storage settings.
#[derive(Debug, Clone)]
pub struct UnifiedStorageConfig {
    /// "local", "s3" or "cached".
    pub backend: String,
    pub data_dir: String,
    pub s3: Option<S3StorageConfig>,
    pub cache: Option<CacheStorageConfig>,
    /// Buffer directory for index writes.
    pub buffer_dir: String,
}

impl UnifiedStorageConfig {
    /// Defaults given the home directory: local storage under `~/.prism`.
    pub fn with_home(home: &Option<String>) -> (r: Self)
        ensures
            r.backend@ == "local"@,
            r.data_dir@ == prism_dir(opt_view(*home), "data"@),
            r.s3 is None,
            r.cache is None,
            r.buffer_dir@ == prism_dir(opt_view(*home), "buffer"@),
    {
        UnifiedStorageConfig {
            backend: default_backend(),
            data_dir: prism_dir_under(home, "data"),
            s3: None,
            cache: None,
            buffer_dir: prism_dir_under(home, "buffer"),
        }
    }

    /// The buffer directory for index writes.
    pub fn buffer_dir(&self) -> (r: &String)
        ensures
            r == &self.buffer_dir,
    {
        &self.buffer_dir
    }

    /// Whether storage is remote (`s3` or `cached`).
    pub fn is_remote(&self) -> (r: bool)
        ensures
            r == (self.backend@ == "s3"@ || self.backend@ == "cached"@),
    {
        let b = chars_of(self.backend.as_str());
        eq_lit(&b, "s3") || eq_lit(&b, "cached")
    }

    /// Whether storage is local only.
    pub fn is_local(&self) -> (r: bool)
        ensures
            r == (self.backend@ == "local"@),
    {
        let b = chars_of(self.backend.as_str());
        eq_lit(&b, "local")
    }

    /// Expand `~` in every path against `home`, stopping at the first
    /// failure (paths expanded before it stay expanded).
    pub fn expand_paths_with(&mut self, home: &Option<String>) -> (r: Result<(), Error>)
        ensures
            final(self).backend == old(self).backend,
            final(self).s3 == old(self).s3,
            final(self).cache is Some == old(self).cache is Some,
            r is Ok <==> (tilde_expanded(old(self).data_dir@, opt_view(*home)) is Ok
                && tilde_expanded(old(self).buffer_dir@, opt_view(*home)) is Ok
                && (old(self).cache matches Some(c) ==> tilde_expanded(c.l1_path@, opt_view(*home)) is Ok)),
            r is Ok ==> {
                &&& tilde_expanded(old(self).data_dir@, opt_view(*home)) == Ok::<Seq<char>, Seq<char>>(final(self).data_dir@)
                &&& tilde_expanded(old(self).buffer_dir@, opt_view(*home)) == Ok::<Seq<char>, Seq<char>>(final(self).buffer_dir@)
                &&& (old(self).cache matches Some(c) ==> (final(self).cache matches Some(d)
                    && tilde_expanded(c.l1_path@, opt_view(*home)) == Ok::<Seq<char>, Seq<char>>(d.l1_path@)
                    && d.l1_max_size_gb == c.l1_max_size_gb && d.write_through == c.write_through))
            },
            r matches Err(e) ==> e matches Error::Config(m) && m@ == crate::config::no_home_message(),
            paths_expanded(*old(self), *final(self), r is Ok, opt_view(*home)),
    {
        let d = expand_tilde_with(self.data_dir.as_str(), home.clone());
        match d {
            Ok(p) => {
                self.data_dir = p;
            },
            Err(e) => {
                return Err(e);
            },
        }
        let b = expand_tilde_with(self.buffer_dir.as_str(), home.clone());
        match b {
            Ok(p) => {
                self.buffer_dir = p;
            },
            Err(e) => {
                return Err(e);
            },
        }
        match &self.cache {
            Some(c) => {
                let l = expand_tilde_with(c.l1_path.as_str(), home.clone());
                match l {
                    Ok(p) => {
                        let nc = CacheStorageConfig {
                            l1_path: p,
                            l1_max_size_gb: c.l1_max_size_gb,
                            write_through: c.write_through,
                        };
                        self.cache = Some(nc);
                    },
                    Err(e) => {
                        return Err(e);
                    },
                }
            },
            None => {},
        }
        Ok(())
    }

    /// Expand `~` in every path against the home directory. Paths that do
    /// not start with `~` need no home directory, so a configuration
    /// without any succeeds unchanged.
    pub fn expand_paths(&mut self) -> (r: Result<(), Error>)
        ensures
            final(self).backend == old(self).backend,
            final(self).s3 == old(self).s3,
            r matches Err(e) ==> e matches Error::Config(m) && m@ == crate::config::no_home_message(),
            exists|h: Option<Seq<char>>| #[trigger] paths_expanded(*old(self), *final(self), r is Ok, h),
            !needs_home(old(self).data_dir@) && !needs_home(old(self).buffer_dir@) && (old(self).cache matches Some(
                c,
            ) ==> !needs_home(c.l1_path@)) ==> r is Ok,
    {
        let home = home_dir();
        let r = self.expand_paths_with(&home);
        assert(paths_expanded(*old(self), *self, r is Ok, opt_view(home)));
        r
    }
}

impl Default for UnifiedStorageConfig {
    fn default() -> (r: Self)
        ensures
            r.backend@ == "local"@,
            r.s3 is None,
            r.cache is None,
            exists|h: Option<Seq<char>>| r.data_dir@ == prism_dir(h, "data"@) && r.buffer_dir@ == prism_dir(h, "buffer"@),
    {
        let home = home_dir();
        UnifiedStorageConfig::with_home(&home)
    }
}

/// A path that `~` expansion reads the home directory for.
pub open spec fn needs_home(p: Seq<char>) -> bool {
    starts_with(p, "~/"@) || p == "~"@
}

/// `new` is `old` with `~` expanded against `home` in the data, buffer and
/// cache paths when `ok`; when not, some path needed the missing home.
pub open spec fn paths_expanded(
    old: UnifiedStorageConfig,
    new: UnifiedStorageConfig,
    ok: bool,
    home: Option<Seq<char>>,
) -> bool {
    &&& ok <==> (tilde_expanded(old.data_dir@, home) is Ok && tilde_expanded(old.buffer_dir@, home) is Ok
        && (old.cache matches Some(c) ==> tilde_expanded(c.l1_path@, home) is Ok))
    &&& ok ==> {
        &&& tilde_expanded(old.data_dir@, home) == Ok::<Seq<char>, Seq<char>>(new.data_dir@)
        &&& tilde_expanded(old.buffer_dir@, home) == Ok::<Seq<char>, Seq<char>>(new.buffer_dir@)
        &&& (old.cache matches Some(c) ==> (new.cache matches Some(d) && tilde_expanded(c.l1_path@, home)
            == Ok::<Seq<char>, Seq<char>>(d.l1_path@) && d.l1_max_size_gb == c.l1_max_size_gb && d.write_through
            == c.write_through))
        &&& (old.cache is None ==> new.cache is None)
    }
}

/// What storage a configuration asks for, once checked.
#[derive(Debug, Clone)]
pub enum StoragePlan {
    /// Local filesystem storage under `data_dir`.
    Local { data_dir: String },
    /// S3-compatible object storage.
    S3 { s3: S3StorageConfig },
    /// A local cache in front of S3.
    Cached {
        s3: S3StorageConfig,
        l1_path: String,
        max_size_bytes: u64,
        write_through: bool,
        populate_on_read: bool,
    },
}

pub open spec fn s3_feature_message() -> Seq<char> {
    "S3 storage requires 'storage-s3' feature"@
}

pub open spec fn s3_missing_message() -> Seq<char> {
    "S3 backend requires [storage.s3] configuration"@
}

pub open spec fn cached_missing_message() -> Seq<char> {
    "Cached backend requires [storage.s3] configuration for L2"@
}

pub open spec fn unknown_backend_message(backend: Seq<char>) -> Seq<char> {
    "Unknown storage backend: '"@ + backend + "'. Valid options: local, s3, cached"@
}

/// Bytes in a GB as the cache size counts them.
pub open spec fn gib() -> int {
    1073741824int
}

impl UnifiedStorageConfig {
    /// Check the configuration and say what storage to create. `s3_support`
    /// tells whether S3 storage is built in. The cache size of a cached
    /// backend (the configured one, or the default) must fit in `u64` bytes.
    pub fn storage_plan(&self, s3_support: bool) -> (r: Result<StoragePlan, Error>)
        requires
            self.backend@ == "cached"@ && s3_support && self.s3 is Some ==> match self.cache {
                Some(c) => c.l1_max_size_gb * gib() <= u64::MAX,
                None => true,
            },
        ensures
            self.backend@ == "local"@ ==> (r matches Ok(StoragePlan::Local { data_dir }) && data_dir@ == self.data_dir@),
            (self.backend@ == "s3"@ || self.backend@ == "cached"@) && !s3_support ==> (r matches Err(e) && e
                matches Error::Config(m) && m@ == s3_feature_message()),
            self.backend@ == "s3"@ && s3_support ==> match self.s3 {
                Some(c) => r matches Ok(StoragePlan::S3 { s3 }) && s3 == c,
                None => r matches Err(e) && e matches Error::Config(m) && m@ == s3_missing_message(),
            },
            self.backend@ == "cached"@ && s3_support ==> match self.s3 {
                Some(c) => r matches Ok(StoragePlan::Cached { s3, l1_path, max_size_bytes, write_through, populate_on_read })
                    && s3 == c && populate_on_read && match self.cache {
                    Some(k) => l1_path@ == k.l1_path@ && max_size_bytes == k.l1_max_size_gb * gib() && write_through
                        == k.write_through,
                    None => (exists|h: Option<Seq<char>>| l1_path@ == prism_dir(h, "cache"@)) && max_size_bytes == 10
                        * gib() && write_through,
                },
                None => r matches Err(e) && e matches Error::Config(m) && m@ == cached_missing_message(),
            },
            !(self.backend@ == "local"@ || self.backend@ == "s3"@ || self.backend@ == "cached"@) ==> (r matches Err(e)
                && e matches Error::Config(m) && m@ == unknown_backend_message(self.backend@)),
    {
        proof {
            reveal_strlit("s3");
            reveal_strlit("cached");
            reveal_strlit("local");
            assert("local"@.len() == 5 && "s3"@.len() == 2 && "cached"@.len() == 6);
            assert("local"@ != "s3"@ && "local"@ != "cached"@ && "s3"@ != "cached"@);
        }
        let b = chars_of(self.backend.as_str());
        if eq_lit(&b, "local") {
            return Ok(StoragePlan::Local { data_dir: self.data_dir.clone() });
        }
        let is_s3 = eq_lit(&b, "s3");
        let is_cached = eq_lit(&b, "cached");
        if is_s3 || is_cached {
            if !s3_support {
                return Err(Error::Config(owned("S3 storage requires 'storage-s3' feature")));
            }
            if is_s3 {
                return match &self.s3 {
                    Some(c) => Ok(StoragePlan::S3 { s3: c.copy() }),
                    None => Err(Error::Config(owned("S3 backend requires [storage.s3] configuration"))),
                };
            }
            let s3 = match &self.s3 {
                Some(c) => c.copy(),
                None => {
                    return Err(Error::Config(owned("Cached backend requires [storage.s3] configuration for L2")));
                },
            };
            let cache = match &self.cache {
                Some(k) => CacheStorageConfig {
                    l1_path: k.l1_path.clone(),
                    l1_max_size_gb: k.l1_max_size_gb,
                    write_through: k.write_through,
                },
                None => CacheStorageConfig::default(),
            };
            proof {
                assert(cache.l1_max_size_gb * gib() <= u64::MAX);
            }
            let bytes = cache.l1_max_size_gb * 1024 * 1024 * 1024;
            return Ok(StoragePlan::Cached {
                s3,
                l1_path: cache.l1_path,
                max_size_bytes: bytes,
                write_through: cache.write_through,
                populate_on_read: true,
            });
        }
        let mut v = chars_of("Unknown storage backend: '");
        let mut w = chars_of(self.backend.as_str());
        v.append(&mut w);
        let mut x = chars_of("'. Valid options: local, s3, cached");
        v.append(&mut x);
        Err(Error::Config(crate::textutil::string_from_chars(&v)))
    }
}

/// Law: expanding the paths of an already expanded configuration again
/// changes nothing, once the home directory is known and does not itself
/// start with `~`.
pub proof fn lemma_expand_paths_idempotent(old: UnifiedStorageConfig, new: UnifiedStorageConfig, h: Seq<char>)
    requires
        h.len() > 0,
        h[0] != '~',
        paths_expanded(old, new, true, Some(h)),
    ensures
        paths_expanded(new, new, true, Some(h)),
{
    crate::config::lemma_tilde_expansion_idempotent(old.data_dir@, h);
    crate::config::lemma_tilde_expansion_idempotent(old.buffer_dir@, h);
    if let Some(c) = old.cache {
        crate::config::lemma_tilde_expansion_idempotent(c.l1_path@, h);
    }
}

} // verus!
