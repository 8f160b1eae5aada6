//! Server configuration sections and their defaults.  Paths are kept as
//! strings.

use crate::error::Error;
use crate::textutil::{chars_of, has_prefix, eq_lit, slice_chars, starts_with, string_from_chars};
use std::collections::HashMap;
use vstd::prelude::*;

verus! {

/// A `String` holding the characters of a literal.
pub fn owned(s: &str) -> (r: String)
    ensures
        r@ == s@,
{
    string_from_chars(&chars_of(s))
}

pub fn default_bind_addr() -> (r: String)
    ensures
        r@ == "127.0.0.1:8080"@,
{
    owned("127.0.0.1:8080")
}

/// 100 MiB.
pub fn default_max_body_size() -> (r: usize)
    ensures
        r == 100 * 1024 * 1024,
{
    100 * 1024 * 1024
}

pub fn default_true() -> (r: bool)
    ensures
        r,
{
    true
}

pub open spec fn default_cors_origins_spec() -> Seq<Seq<char>> {
    seq![
        "http://localhost:5173"@,
        "http://localhost:3000"@,
        "http://127.0.0.1:5173"@,
        "http://127.0.0.1:3000"@,
    ]
}

pub fn default_cors_origins() -> (r: Vec<String>)
    ensures
        r@.map_values(|s: String| s@) == default_cors_origins_spec(),
{
    let mut v: Vec<String> = Vec::new();
    v.push(owned("http://localhost:5173"));
    v.push(owned("http://localhost:3000"));
    v.push(owned("http://127.0.0.1:5173"));
    v.push(owned("http://127.0.0.1:3000"));
    assert(v@.map_values(|s: String| s@) =~= default_cors_origins_spec());
    v
}

pub fn default_tls_bind_addr() -> (r: String)
    ensures
        r@ == "127.0.0.1:3443"@,
{
    owned("127.0.0.1:3443")
}

pub fn default_tls_cert_path() -> (r: String)
    ensures
        r@ == "./conf/tls/cert.pem"@,
{
    owned("./conf/tls/cert.pem")
}

pub fn default_tls_key_path() -> (r: String)
    ensures
        r@ == "./conf/tls/key.pem"@,
{
    owned("./conf/tls/key.pem")
}

pub fn default_level() -> (r: String)
    ensures
        r@ == "info"@,
{
    owned("info")
}

pub fn default_log_format() -> (r: String)
    ensures
        r@ == "pretty"@,
{
    owned("pretty")
}

pub fn default_log_level() -> (r: String)
    ensures
        r@ == "info,prism=debug"@,
{
    owned("info,prism=debug")
}

pub fn default_cluster_bind_addr() -> (r: String)
    ensures
        r@ == "0.0.0.0:9080"@,
{
    owned("0.0.0.0:9080")
}

pub fn default_connect_timeout() -> (r: u64)
    ensures
        r == 5000,
{
    5000
}

pub fn default_request_timeout() -> (r: u64)
    ensures
        r == 30000,
{
    30000
}

pub fn default_cluster_tls_enabled() -> (r: bool)
    ensures
        r,
{
    true
}

pub fn default_cluster_cert_path() -> (r: String)
    ensures
        r@ == "./conf/tls/cluster-cert.pem"@,
{
    owned("./conf/tls/cluster-cert.pem")
}

pub fn default_cluster_key_path() -> (r: String)
    ensures
        r@ == "./conf/tls/cluster-key.pem"@,
{
    owned("./conf/tls/cluster-key.pem")
}

/// A lower-case hexadecimal digit.
pub open spec fn is_lower_hex(c: char) -> bool {
    ('0' <= c && c <= '9') || ('a' <= c && c <= 'f')
}

/// The hyphenated lower-case form of a UUID: 36 characters, `-` at
/// positions 8, 13, 18 and 23, lower-case hex digits elsewhere.
pub open spec fn uuid_text(s: Seq<char>) -> bool {
    &&& s.len() == 36
    &&& forall|i: int|
        0 <= i < 36 ==> if i == 8 || i == 13 || i == 18 || i == 23 {
            s[i] == '-'
        } else {
            is_lower_hex(#[trigger] s[i])
        }
}

/// Calls `Uuid::new_v4` and formats it with `Display`, which writes the
/// hyphenated lower-case form.  Claimed: the result has that form; which
/// UUID it is comes from the random source.
#[verifier::external_body]
fn random_uuid() -> (r: String)
    ensures
        uuid_text(r@),
{
    uuid::Uuid::new_v4().to_string()
}

/// `node-` followed by the first 8 characters of a random UUID: 8
/// lower-case hex digits.
pub fn default_node_id() -> (r: String)
    ensures
        r@.len() == 13,
        starts_with(r@, "node-"@),
        forall|i: int| 5 <= i < 13 ==> is_lower_hex(#[trigger] r@[i]),
{
    let u = chars_of(random_uuid().as_str());
    let mut v = chars_of("node-");
    proof {
        reveal_strlit("node-");
    }
    let mut head = slice_chars(&u, 0, 8);
    v.append(&mut head);
    assert(v@.subrange(0, 5) =~= "node-"@);
    assert forall|i: int| 5 <= i < 13 implies is_lower_hex(#[trigger] v@[i]) by {
        assert(v@[i] == u@[i - 5]);
        assert(is_lower_hex(u@[i - 5]));
    }
    string_from_chars(&v)
}

/// CORS settings.
#[derive(Debug, Clone)]
pub struct CorsConfig {
    pub enabled: bool,
    pub origins: Vec<String>,
}

impl Default for CorsConfig {
    fn default() -> (r: Self)
        ensures
            r.enabled,
            r.origins@.map_values(|s: String| s@) == default_cors_origins_spec(),
    {
        CorsConfig { enabled: true, origins: default_cors_origins() }
    }
}

/// TLS settings of the HTTP server.
#[derive(Debug, Clone)]
pub struct TlsConfig {
    pub enabled: bool,
    pub bind_addr: String,
    pub cert_path: String,
    pub key_path: String,
}

impl Default for TlsConfig {
    fn default() -> (r: Self)
        ensures
            !r.enabled,
            r.bind_addr@ == "127.0.0.1:3443"@,
            r.cert_path@ == "./conf/tls/cert.pem"@,
            r.key_path@ == "./conf/tls/key.pem"@,
    {
        TlsConfig {
            enabled: false,
            bind_addr: default_tls_bind_addr(),
            cert_path: default_tls_cert_path(),
            key_path: default_tls_key_path(),
        }
    }
}

/// HTTP server settings.
#[derive(Debug, Clone)]
pub struct ServerConfig {
    pub bind_addr: String,
    pub unix_socket: Option<String>,
    pub cors: CorsConfig,
    pub tls: TlsConfig,
    /// Maximum request body size in bytes.
    pub max_body_size: usize,
}

impl Default for ServerConfig {
    fn default() -> (r: Self)
        ensures
            r.bind_addr@ == "127.0.0.1:8080"@,
            r.unix_socket is None,
            r.cors.enabled,
            r.cors.origins@.map_values(|s: String| s@) == default_cors_origins_spec(),
            !r.tls.enabled,
            r.tls.bind_addr@ == "127.0.0.1:3443"@,
            r.max_body_size == 100 * 1024 * 1024,
    {
        ServerConfig {
            bind_addr: default_bind_addr(),
            unix_socket: None,
            cors: CorsConfig::default(),
            tls: TlsConfig::default(),
            max_body_size: default_max_body_size(),
        }
    }
}

/// An API key and the roles it grants.
#[derive(Debug, Clone)]
pub struct ApiKeyConfig {
    pub key: String,
    pub name: String,
    pub roles: Vec<String>,
}

/// Collections a role may access, with the allowed actions.
#[derive(Debug, Clone)]
pub struct RoleConfig {
    pub collections: HashMap<String, Vec<String>>,
}

/// Audit logging settings.
#[derive(Debug, Clone)]
pub struct AuditConfig {
    pub enabled: bool,
    pub index_to_collection: bool,
}

impl Default for AuditConfig {
    fn default() -> (r: Self)
        ensures
            !r.enabled,
            r.index_to_collection,
    {
        AuditConfig { enabled: false, index_to_collection: true }
    }
}

/// Authentication and authorization settings.
#[derive(Debug, Clone)]
pub struct SecurityConfig {
    pub enabled: bool,
    pub api_keys: Vec<ApiKeyConfig>,
    pub roles: HashMap<String, RoleConfig>,
    pub audit: AuditConfig,
}

impl Default for SecurityConfig {
    fn default() -> (r: Self)
        ensures
            !r.enabled,
            r.api_keys@.len() == 0,
            r.roles@ == Map::<String, RoleConfig>::empty(),
            !r.audit.enabled,
            r.audit.index_to_collection,
    {
        SecurityConfig {
            enabled: false,
            api_keys: Vec::new(),
            roles: HashMap::new(),
            audit: AuditConfig::default(),
        }
    }
}

/// Embedding generation settings.
#[derive(Debug, Clone)]
pub struct EmbeddingConfig {
    pub enabled: bool,
    /// Cache directory for embeddings.
    pub cache_dir: Option<String>,
}

impl Default for EmbeddingConfig {
    fn default() -> (r: Self)
        ensures
            r.enabled,
            r.cache_dir is None,
    {
        EmbeddingConfig { enabled: default_true(), cache_dir: None }
    }
}

/// Logging settings.
#[derive(Debug, Clone)]
pub struct LoggingConfig {
    pub level: String,
    pub file: Option<String>,
}

impl Default for LoggingConfig {
    fn default() -> (r: Self)
        ensures
            r.level@ == "info"@,
            r.file is None,
    {
        LoggingConfig { level: default_level(), file: None }
    }
}

/// Log format, log filter and metrics switch.
#[derive(Debug, Clone)]
pub struct ObservabilityConfig {
    /// "pretty" or "json".
    pub log_format: String,
    pub log_level: String,
    pub metrics_enabled: bool,
}

impl Default for ObservabilityConfig {
    fn default() -> (r: Self)
        ensures
            r.log_format@ == "pretty"@,
            r.log_level@ == "info,prism=debug"@,
            r.metrics_enabled,
    {
        ObservabilityConfig {
            log_format: default_log_format(),
            log_level: default_log_level(),
            metrics_enabled: true,
        }
    }
}

/// TLS settings of the cluster transport.
#[derive(Debug, Clone)]
pub struct ClusterTlsConfig {
    pub enabled: bool,
    pub cert_path: String,
    pub key_path: String,
    pub ca_cert_path: Option<String>,
    /// Skip peer certificate verification (development only).
    pub skip_verify: bool,
}

impl Default for ClusterTlsConfig {
    fn default() -> (r: Self)
        ensures
            r.enabled,
            r.cert_path@ == "./conf/tls/cluster-cert.pem"@,
            r.key_path@ == "./conf/tls/cluster-key.pem"@,
            r.ca_cert_path is None,
            !r.skip_verify,
    {
        ClusterTlsConfig {
            enabled: default_cluster_tls_enabled(),
            cert_path: default_cluster_cert_path(),
            key_path: default_cluster_key_path(),
            ca_cert_path: None,
            skip_verify: false,
        }
    }
}

/// Cluster membership and transport settings.
#[derive(Debug, Clone)]
pub struct ClusterConfig {
    pub enabled: bool,
    pub node_id: String,
    pub bind_addr: String,
    pub advertise_addr: Option<String>,
    pub seed_nodes: Vec<String>,
    pub connect_timeout_ms: u64,
    pub request_timeout_ms: u64,
    pub tls: ClusterTlsConfig,
}

impl Default for ClusterConfig {
    fn default() -> (r: Self)
        ensures
            !r.enabled,
            r.node_id@.len() == 13 && starts_with(r.node_id@, "node-"@),
            r.bind_addr@ == "0.0.0.0:9080"@,
            r.advertise_addr is None,
            r.seed_nodes@.len() == 0,
            r.connect_timeout_ms == 5000,
            r.request_timeout_ms == 30000,
            r.tls.enabled,
    {
        ClusterConfig {
            enabled: false,
            node_id: default_node_id(),
            bind_addr: default_cluster_bind_addr(),
            advertise_addr: None,
            seed_nodes: Vec::new(),
            connect_timeout_ms: default_connect_timeout(),
            request_timeout_ms: default_request_timeout(),
            tls: ClusterTlsConfig::default(),
        }
    }
}

// ---------------------------------------------------------------------------
// Home directory expansion
// ---------------------------------------------------------------------------

/// What `Path::join` gives for these two paths (as strings), as its
/// documentation and `PathBuf::push` say for Unix paths: an absolute `rest`
/// replaces `base`; otherwise `rest` is appended, after a `/` unless
/// `base` is empty or already ends in one.
pub open spec fn joined_path(base: Seq<char>, rest: Seq<char>) -> Seq<char> {
    if rest.len() > 0 && rest[0] == '/' {
        rest
    } else if base.len() == 0 || base.last() == '/' {
        base + rest
    } else {
        base + "/"@ + rest
    }
}

/// Calls `Path::join` (Unix paths; the strings are UTF-8, so the lossy
/// conversion back keeps them).  Claimed: the result is `joined_path`.
#[verifier::external_body]
pub(crate) fn path_join(base: &str, rest: &str) -> (r: String)
    ensures
        r@ == joined_path(base@, rest@),
{
    std::path::Path::new(base).join(rest).to_string_lossy().into_owned()
}

/// Calls `dirs::home_dir` (converted lossily to a string).  Nothing is
/// claimed of the result: it comes from the environment.
#[verifier::external_body]
pub(crate) fn home_dir() -> Option<String> {
    dirs::home_dir().map(|p| p.to_string_lossy().into_owned())
}

pub open spec fn no_home_message() -> Seq<char> {
    "Cannot determine home directory"@
}

/// `~/rest` and `~` expanded against `home`; any other path unchanged.
pub open spec fn tilde_expanded(path: Seq<char>, home: Option<Seq<char>>) -> Result<Seq<char>, Seq<char>> {
    if starts_with(path, "~/"@) || path == "~"@ {
        match home {
            None => Err(no_home_message()),
            Some(h) => if path == "~"@ {
                Ok(h)
            } else {
                Ok(joined_path(h, path.skip(2)))
            },
        }
    } else {
        Ok(path)
    }
}

pub open spec fn opt_view(o: Option<String>) -> Option<Seq<char>> {
    match o {
        Some(s) => Some(s@),
        None => None,
    }
}

/// Expand `~` in `path` given the home directory.
pub fn expand_tilde_with(path: &str, home: Option<String>) -> (r: Result<String, Error>)
    ensures
        match (r, tilde_expanded(path@, opt_view(home))) {
            (Ok(a), Ok(b)) => a@ == b,
            (Err(e), Err(m)) => e matches Error::Config(x) && x@ == m,
            _ => false,
        },
{
    let p = chars_of(path);
    proof {
        reveal_strlit("~/");
        reveal_strlit("~");
    }
    if has_prefix(&p, "~/") || eq_lit(&p, "~") {
        match home {
            None => Err(Error::Config(owned("Cannot determine home directory"))),
            Some(h) => {
                if eq_lit(&p, "~") {
                    Ok(h)
                } else {
                    let rest = string_from_chars(&slice_chars(&p, 2, p.len()));
                    assert(rest@ =~= path@.skip(2));
                    Ok(path_join(h.as_str(), rest.as_str()))
                }
            },
        }
    } else {
        Ok(owned(path))
    }
}

/// Expand `~` to the home directory in `path`.
pub fn expand_tilde(path: &str) -> (r: Result<String, Error>)
    ensures
        !(starts_with(path@, "~/"@) || path@ == "~"@) ==> (r matches Ok(p) && p@ == path@),
        r matches Err(e) ==> e matches Error::Config(x) && x@ == no_home_message(),
        r matches Ok(p) ==> exists|home: Option<Seq<char>>| tilde_expanded(path@, home) == Ok::<Seq<char>, Seq<char>>(p@),
{
    let home = home_dir();
    let r = expand_tilde_with(path, home);
    proof {
        if let Ok(p) = &r {
            assert(tilde_expanded(path@, opt_view(home)) == Ok::<Seq<char>, Seq<char>>(p@));
        }
    }
    r
}

/// Law: expanding `~` a second time changes nothing, once the home
/// directory is known and does not itself start with `~`.
pub proof fn lemma_tilde_expansion_idempotent(p: Seq<char>, h: Seq<char>)
    requires
        h.len() > 0,
        h[0] != '~',
    ensures
        tilde_expanded(p, Some(h)) matches Ok(q) ==> tilde_expanded(q, Some(h)) == Ok::<Seq<char>, Seq<char>>(q),
{
    reveal_strlit("~/");
    reveal_strlit("~");
    reveal_strlit("/");
    if let Ok(q) = tilde_expanded(p, Some(h)) {
        if starts_with(p, "~/"@) || p == "~"@ {
            if p == "~"@ {
                assert(q == h);
            } else {
                let rest = p.skip(2);
                assert(q == joined_path(h, rest));
                if rest.len() > 0 && rest[0] == '/' {
                    assert(q[0] == '/');
                } else if h.len() == 0 || h.last() == '/' {
                    assert(q[0] == h[0]);
                } else {
                    assert(q[0] == h[0]);
                }
            }
            assert(q.len() > 0 && q[0] != '~');
            assert(q != "~"@);
            assert(!starts_with(q, "~/"@)) by {
                if starts_with(q, "~/"@) {
                    assert(q.subrange(0, 2)[0] == q[0]);
                }
            }
        }
    }
}

} // verus!
