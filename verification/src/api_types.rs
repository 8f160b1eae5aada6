//! Request and response records of the HTTP API, with their defaults and the
//! small decisions made on them. The HTTP layer turns JSON into these and
//! back.

use crate::config::owned;
use crate::textutil::chars_of;
use vstd::prelude::*;

verus! {

// ---------------------------------------------------------------------------
// Mnemos-compatible API
// ---------------------------------------------------------------------------

#[derive(Debug, Clone)]
pub struct SessionInitRequest {
    pub folder_path: String,
    pub context_hint: Option<String>,
}

#[derive(Debug, Clone)]
pub struct ContextRequest {
    pub user_message: String,
    pub format: Option<String>,
    pub max_tokens: Option<u32>,
}

#[derive(Debug, Clone)]
pub struct MnemosSearchRequest {
    pub mode: String,
    pub query: String,
    pub limit: Option<u32>,
    pub output_format: Option<String>,
}

#[derive(Debug, Clone)]
pub struct SessionInitResponse {
    pub workspace_id: String,
    pub project_id: String,
    pub project_name: String,
}

// ---------------------------------------------------------------------------
// Search, indexing and collection metadata
// ---------------------------------------------------------------------------

#[derive(Debug, Clone)]
pub struct SimpleSearchRequest {
    pub query: String,
    pub limit: usize,
}

/// Default result count of a simple search.
pub fn default_simple_limit() -> (r: usize)
    ensures
        r == 10,
{
    10
}

#[derive(Debug, Clone)]
pub struct IndexQuery {
    pub pipeline: Option<String>,
}

#[derive(Debug, Clone)]
pub struct IndexResponse {
    pub indexed: usize,
    pub failed: usize,
    pub errors: Vec<IndexError>,
}

#[derive(Debug, Clone)]
pub struct IndexError {
    pub doc_id: String,
    pub error: String,
}

#[derive(Debug, Clone)]
pub struct PipelineInfo {
    pub name: String,
    pub description: String,
    pub processor_count: usize,
}

#[derive(Debug, Clone)]
pub struct PipelineListResponse {
    pub pipelines: Vec<PipelineInfo>,
}

#[derive(Debug, Clone)]
pub struct CollectionsList {
    pub collections: Vec<String>,
}

/// Root endpoint response.
#[derive(Debug, Clone)]
pub struct RootResponse {
    pub name: String,
    pub version: String,
    pub status: String,
    pub tagline: String,
}

impl RootResponse {
    /// The root response of a server of this version.
    pub fn for_version(version: &str) -> (r: Self)
        ensures
            r.name@ == "prism"@,
            r.version@ == version@,
            r.status@ == "ok"@,
            r.tagline@ == "You Know, for Search"@,
    {
        RootResponse {
            name: owned("prism"),
            version: owned(version),
            status: owned("ok"),
            tagline: owned("You Know, for Search"),
        }
    }
}

/// Schema field information.
#[derive(Debug, Clone)]
pub struct SchemaFieldInfo {
    pub name: String,
    pub field_type: String,
    pub indexed: bool,
    pub stored: bool,
    pub vector_source: bool,
}

/// Collection schema response.
#[derive(Debug, Clone)]
pub struct CollectionSchemaResponse {
    pub collection: String,
    pub description: Option<String>,
    pub fields: Vec<SchemaFieldInfo>,
    pub vector_dimensions: Option<usize>,
    pub vector_field: Option<String>,
}

/// Collection stats response.
#[derive(Debug, Clone)]
pub struct CollectionStatsResponse {
    pub collection: String,
    pub document_count: usize,
    pub storage_bytes: usize,
}

/// Server info response.
#[derive(Debug, Clone)]
pub struct ServerInfoResponse {
    pub version: String,
    pub prism_version: String,
}

impl ServerInfoResponse {
    /// The server info of a server of this version.
    pub fn for_version(version: &str) -> (r: Self)
        ensures
            r.version@ == version@,
            r.prism_version@ == version@,
    {
        ServerInfoResponse { version: owned(version), prism_version: owned(version) }
    }
}

/// Query parameters of the top-terms endpoint.
#[derive(Debug, Clone)]
pub struct TermsQuery {
    pub limit: usize,
}

/// Default number of top terms.
pub fn default_terms_limit() -> (r: usize)
    ensures
        r == 25,
{
    25
}

/// Default number of documents an aggregation scans.
pub fn default_scan_limit() -> (r: usize)
    ensures
        r == 10000,
{
    10000
}

/// Request body of the suggestion endpoint.
#[derive(Debug, Clone)]
pub struct SuggestRequest {
    pub prefix: String,
    pub field: String,
    pub size: usize,
    pub fuzzy: bool,
    pub max_distance: usize,
}

pub fn default_suggest_size() -> (r: usize)
    ensures
        r == 5,
{
    5
}

pub fn default_max_distance() -> (r: usize)
    ensures
        r == 2,
{
    2
}

/// A "more like this" target: a document id.
#[derive(Debug, Clone)]
pub struct MltLike {
    pub id: Option<String>,
}

/// Request body of the "more like this" endpoint.
#[derive(Debug, Clone)]
pub struct MltRequest {
    pub like: Option<MltLike>,
    pub like_text: Option<String>,
    pub fields: Vec<String>,
    pub min_term_freq: usize,
    pub min_doc_freq: u64,
    pub max_query_terms: usize,
    pub size: usize,
}

pub fn default_min_term_freq() -> (r: usize)
    ensures
        r == 2,
{
    2
}

pub fn default_min_doc_freq() -> (r: u64)
    ensures
        r == 5,
{
    5
}

pub fn default_max_query_terms() -> (r: usize)
    ensures
        r == 25,
{
    25
}

pub fn default_mlt_size() -> (r: usize)
    ensures
        r == 10,
{
    10
}

// ---------------------------------------------------------------------------
// Index lifecycle, aliases and encryption
// ---------------------------------------------------------------------------

/// Request to attach a lifecycle policy to a collection.
#[derive(Debug, Clone)]
pub struct AttachPolicyRequest {
    pub policy: String,
}

/// The part of `s` before its first `-` (all of it when there is none).
pub open spec fn before_dash(s: Seq<char>) -> Seq<char>
    decreases s.len(),
{
    if s.len() == 0 {
        s
    } else if s[0] == '-' {
        Seq::empty()
    } else {
        seq![s[0]] + before_dash(s.drop_first())
    }
}

/// The index a collection belongs to: its name up to the first `-`
/// (`logs-2026.01.29-000001` belongs to `logs`).
pub fn index_name_of(collection: &str) -> (r: String)
    ensures
        r@ == before_dash(collection@),
{
    let v = chars_of(collection);
    let mut out: Vec<char> = Vec::new();
    let mut i: usize = 0;
    assert(v@.subrange(0, v.len() as int) =~= v@);
    assert(out@ + before_dash(v@) =~= before_dash(v@));
    while i < v.len() && v[i] != '-'
        invariant
            i <= v.len(),
            v@ == collection@,
            out@ + before_dash(v@.subrange(i as int, v.len() as int)) == before_dash(v@),
        decreases v.len() - i,
    {
        proof {
            let rest = v@.subrange(i as int, v.len() as int);
            assert(rest.drop_first() =~= v@.subrange(i + 1, v.len() as int));
            assert(rest[0] == v@[i as int]);
            assert(out@.push(v@[i as int]) + before_dash(rest.drop_first()) =~= out@ + (seq![rest[0]]
                + before_dash(rest.drop_first())));
        }
        out.push(v[i]);
        i = i + 1;
    }
    proof {
        let rest = v@.subrange(i as int, v.len() as int);
        if i < v.len() {
            assert(rest[0] == '-');
        }
        assert(before_dash(rest) =~= Seq::<char>::empty());
        assert(out@ + Seq::<char>::empty() =~= out@);
    }
    crate::textutil::string_from_chars(&out)
}

/// One alias update: an addition and/or a removal.
#[derive(Debug, Clone)]
pub struct AliasAction {
    pub add: Option<AliasActionParams>,
    pub remove: Option<AliasActionParams>,
}

#[derive(Debug, Clone)]
pub struct AliasActionParams {
    pub alias: String,
    pub index: String,
}

/// Bulk alias updates.
#[derive(Debug, Clone)]
pub struct BulkAliasRequest {
    pub actions: Vec<AliasAction>,
}

/// The alias/index pairs of `p`.
pub open spec fn params_view(p: AliasActionParams) -> (Seq<char>, Seq<char>) {
    (p.alias@, p.index@)
}

/// The additions of `actions`, in order.
pub open spec fn alias_adds(actions: Seq<AliasAction>) -> Seq<(Seq<char>, Seq<char>)>
    decreases actions.len(),
{
    if actions.len() == 0 {
        Seq::empty()
    } else {
        let rest = alias_adds(actions.drop_last());
        match actions.last().add {
            Some(p) => rest.push(params_view(p)),
            None => rest,
        }
    }
}

/// The removals of `actions`, in order.
pub open spec fn alias_removes(actions: Seq<AliasAction>) -> Seq<(Seq<char>, Seq<char>)>
    decreases actions.len(),
{
    if actions.len() == 0 {
        Seq::empty()
    } else {
        let rest = alias_removes(actions.drop_last());
        match actions.last().remove {
            Some(p) => rest.push(params_view(p)),
            None => rest,
        }
    }
}

fn copy_params(p: &AliasActionParams) -> (r: (String, String))
    ensures
        r.0@ == p.alias@,
        r.1@ == p.index@,
{
    (p.alias.clone(), p.index.clone())
}

impl BulkAliasRequest {
    /// The requested additions and removals, each as alias/index pairs in
    /// request order.
    pub fn split_actions(&self) -> (r: (Vec<(String, String)>, Vec<(String, String)>))
        ensures
            r.0@.map_values(|p: (String, String)| (p.0@, p.1@)) == alias_adds(self.actions@),
            r.1@.map_values(|p: (String, String)| (p.0@, p.1@)) == alias_removes(self.actions@),
    {
        let mut adds: Vec<(String, String)> = Vec::new();
        let mut removes: Vec<(String, String)> = Vec::new();
        let mut i: usize = 0;
        while i < self.actions.len()
            invariant
                i <= self.actions.len(),
                adds@.map_values(|p: (String, String)| (p.0@, p.1@)) == alias_adds(self.actions@.take(i as int)),
                removes@.map_values(|p: (String, String)| (p.0@, p.1@)) == alias_removes(
                    self.actions@.take(i as int),
                ),
            decreases self.actions.len() - i,
        {
            let ghost a0 = adds@;
            let ghost r0 = removes@;
            proof {
                assert(self.actions@.take(i + 1).drop_last() =~= self.actions@.take(i as int));
                assert(self.actions@.take(i + 1).last() == self.actions@[i as int]);
            }
            match &self.actions[i].add {
                Some(p) => {
                    adds.push(copy_params(p));
                    assert(adds@.map_values(|p: (String, String)| (p.0@, p.1@)) =~= a0.map_values(
                        |p: (String, String)| (p.0@, p.1@),
                    ).push(params_view(*p)));
                },
                None => {},
            }
            match &self.actions[i].remove {
                Some(p) => {
                    removes.push(copy_params(p));
                    assert(removes@.map_values(|p: (String, String)| (p.0@, p.1@)) =~= r0.map_values(
                        |p: (String, String)| (p.0@, p.1@),
                    ).push(params_view(*p)));
                },
                None => {},
            }
            i = i + 1;
        }
        assert(self.actions@.take(self.actions.len() as int) =~= self.actions@);
        (adds, removes)
    }
}

/// Request for an encrypted export.
#[derive(Debug, Clone)]
pub struct EncryptedExportRequest {
    pub collection: String,
    /// Encryption key, hex-encoded (64 characters for AES-256).
    pub key: String,
    pub output_path: String,
}

/// Response of an encrypted export.
#[derive(Debug, Clone)]
pub struct EncryptedExportResponse {
    pub success: bool,
    pub collection: String,
    pub output_path: String,
    pub size_bytes: u64,
    pub error: Option<String>,
}

/// Request for an encrypted import.
#[derive(Debug, Clone)]
pub struct EncryptedImportRequest {
    pub input_path: String,
    /// Decryption key, hex-encoded (64 characters for AES-256).
    pub key: String,
    pub target_collection: Option<String>,
}

/// Response of an encrypted import.
#[derive(Debug, Clone)]
pub struct EncryptedImportResponse {
    pub success: bool,
    pub collection: String,
    pub files_extracted: u64,
    pub bytes_extracted: u64,
    pub error: Option<String>,
}

/// A freshly generated encryption key.
#[derive(Debug, Clone)]
pub struct GenerateKeyResponse {
    /// Hex-encoded 256-bit key (64 characters).
    pub key: String,
    /// Key length in bytes.
    pub key_bytes: usize,
    pub algorithm: String,
}

impl GenerateKeyResponse {
    /// The response for a generated AES-256-GCM key in hex.
    pub fn for_key(hex_key: String) -> (r: Self)
        ensures
            r.key@ == hex_key@,
            r.key_bytes == 32,
            r.algorithm@ == "AES-256-GCM"@,
    {
        GenerateKeyResponse { key: hex_key, key_bytes: 32, algorithm: owned("AES-256-GCM") }
    }
}

// ---------------------------------------------------------------------------
// Detach and attach
// ---------------------------------------------------------------------------

/// Where a detached snapshot is written.
#[derive(Debug, Clone)]
pub enum DetachDestination {
    File { path: String },
}

/// Where a collection is attached from.
#[derive(Debug, Clone)]
pub enum AttachSource {
    File { path: String },
}

#[derive(Debug, Clone)]
pub struct DetachRequest {
    pub destination: DetachDestination,
    pub delete_data: bool,
}

#[derive(Debug, Clone)]
pub struct AttachRequest {
    pub source: AttachSource,
    pub target_collection: Option<String>,
}

/// Result returned after a successful attach.
#[derive(Debug, Clone)]
pub struct AttachResult {
    pub collection: String,
    pub source: AttachSource,
    pub files_extracted: u64,
    pub bytes_extracted: u64,
}

// ---------------------------------------------------------------------------
// Lucene-style search
// ---------------------------------------------------------------------------

#[derive(Debug, Clone)]
pub struct FacetRequest {
    pub field: String,
    /// "terms" or "date_histogram".
    pub agg_type: String,
    pub size: usize,
    /// For date_histogram: "hour", "day", "week", "month" or "year".
    pub interval: Option<String>,
}

/// Default number of results of a Lucene-style search.
pub fn default_search_limit() -> (r: usize)
    ensures
        r == 10,
{
    10
}

pub fn default_facet_size() -> (r: usize)
    ensures
        r == 10,
{
    10
}

/// Default field of the recency boost.
pub fn default_recency_field() -> (r: String)
    ensures
        r@ == "timestamp"@,
{
    owned("timestamp")
}

/// The caller's context, used to boost matching results.
#[derive(Debug, Clone, Default)]
pub struct SearchContext {
    pub project_id: Option<String>,
    pub session_id: Option<String>,
}

/// The context entries given: `project_id`, then `session_id`.
pub open spec fn context_entries(ctx: SearchContext) -> Seq<(Seq<char>, Seq<char>)> {
    let a: Seq<(Seq<char>, Seq<char>)> = match ctx.project_id {
        Some(p) => seq![("project_id"@, p@)],
        None => Seq::empty(),
    };
    let b: Seq<(Seq<char>, Seq<char>)> = match ctx.session_id {
        Some(s) => seq![("session_id"@, s@)],
        None => Seq::empty(),
    };
    a + b
}

impl SearchContext {
    /// The context as key/value pairs for boosting.
    pub fn entries(&self) -> (r: Vec<(String, String)>)
        ensures
            r@.map_values(|p: (String, String)| (p.0@, p.1@)) == context_entries(*self),
    {
        let mut r: Vec<(String, String)> = Vec::new();
        match &self.project_id {
            Some(p) => {
                r.push((owned("project_id"), p.clone()));
            },
            None => {},
        }
        let ghost mid = r@;
        match &self.session_id {
            Some(s) => {
                r.push((owned("session_id"), s.clone()));
            },
            None => {},
        }
        assert(r@.map_values(|p: (String, String)| (p.0@, p.1@)) =~= context_entries(*self));
        r
    }
}

#[derive(Debug, Clone)]
pub struct FacetResult {
    pub buckets: Vec<FacetBucket>,
}

#[derive(Debug, Clone)]
pub struct FacetBucket {
    pub key: String,
    pub count: usize,
}

// ---------------------------------------------------------------------------
// Backend records
// ---------------------------------------------------------------------------

/// A single sort key. `field` may name a stored field or the special `_score`.
#[derive(Debug, Clone)]
pub struct SortField {
    pub field: String,
    /// Ascending when true, descending when false.
    pub ascending: bool,
}

/// Configuration of search result highlighting.
#[derive(Debug, Clone)]
pub struct HighlightConfig {
    /// Fields to highlight.
    pub fields: Vec<String>,
    /// Opening tag of a highlighted term.
    pub pre_tag: String,
    /// Closing tag of a highlighted term.
    pub post_tag: String,
    /// Maximum number of characters per fragment.
    pub fragment_size: usize,
    /// Maximum number of fragments per field.
    pub number_of_fragments: usize,
}

pub fn default_pre_tag() -> (r: String)
    ensures
        r@ == "<em>"@,
{
    owned("<em>")
}

pub fn default_post_tag() -> (r: String)
    ensures
        r@ == "</em>"@,
{
    owned("</em>")
}

pub fn default_fragment_size() -> (r: usize)
    ensures
        r == 150,
{
    150
}

pub fn default_number_of_fragments() -> (r: usize)
    ensures
        r == 3,
{
    3
}

impl HighlightConfig {
    /// Highlight `fields` with the default tags and sizes.
    pub fn for_fields(fields: Vec<String>) -> (r: Self)
        ensures
            r.fields@ == fields@,
            r.pre_tag@ == "<em>"@,
            r.post_tag@ == "</em>"@,
            r.fragment_size == 150,
            r.number_of_fragments == 3,
    {
        HighlightConfig {
            fields,
            pre_tag: default_pre_tag(),
            post_tag: default_post_tag(),
            fragment_size: default_fragment_size(),
            number_of_fragments: default_number_of_fragments(),
        }
    }
}

/// Size statistics of a backend.
#[derive(Debug, Clone, Copy)]
pub struct BackendStats {
    pub document_count: usize,
    pub size_bytes: usize,
}

// ---------------------------------------------------------------------------
// Mnemos sessions and limits
// ---------------------------------------------------------------------------

/// Metadata of a Mnemos-compatible response.
#[derive(Debug, Clone, Copy)]
pub struct ResponseMeta {
    pub tokens_used: u32,
}

impl Default for ResponseMeta {
    fn default() -> (r: Self)
        ensures
            r.tokens_used == 0,
    {
        ResponseMeta { tokens_used: 0 }
    }
}

/// `s` without its trailing `/` characters.
pub open spec fn trim_trailing_slashes(s: Seq<char>) -> Seq<char>
    decreases s.len(),
{
    if s.len() > 0 && s.last() == '/' {
        trim_trailing_slashes(s.drop_last())
    } else {
        s
    }
}

/// The characters of `s` after its last `/` (all of `s` without one).
pub open spec fn after_last_slash(s: Seq<char>) -> Seq<char>
    decreases s.len(),
{
    if s.len() == 0 || s.last() == '/' {
        Seq::empty()
    } else {
        after_last_slash(s.drop_last()).push(s.last())
    }
}

/// The project a folder belongs to: the last non-empty `/`-separated
/// segment of its path, or `default` when there is none.
pub open spec fn project_name_of(folder: Seq<char>) -> Seq<char> {
    let t = trim_trailing_slashes(folder);
    if t.len() == 0 {
        "default"@
    } else {
        after_last_slash(t)
    }
}

/// The project name of a folder path.
pub fn project_name(folder: &str) -> (r: String)
    ensures
        r@ == project_name_of(folder@),
{
    let v = chars_of(folder);
    let mut end: usize = v.len();
    assert(v@.subrange(0, v.len() as int) =~= folder@);
    while end > 0 && v[end - 1] == '/'
        invariant
            end <= v.len(),
            v@ == folder@,
            trim_trailing_slashes(v@.subrange(0, end as int)) == trim_trailing_slashes(folder@),
        decreases end,
    {
        proof {
            assert(v@.subrange(0, end as int).drop_last() =~= v@.subrange(0, end - 1));
        }
        end = end - 1;
    }
    let ghost t = v@.subrange(0, end as int);
    proof {
        assert(v@.subrange(0, v.len() as int) =~= folder@);
        assert(trim_trailing_slashes(t) == t);
    }
    if end == 0 {
        return owned("default");
    }
    let mut start: usize = end;
    while start > 0 && v[start - 1] != '/'
        invariant
            start <= end,
            end <= v.len(),
            t == v@.subrange(0, end as int),
            after_last_slash(t) == after_last_slash(v@.subrange(0, start as int)) + v@.subrange(
                start as int,
                end as int,
            ),
        decreases start,
    {
        proof {
            let p = v@.subrange(0, start as int);
            assert(p.drop_last() =~= v@.subrange(0, start - 1));
            assert(p.last() == v@[start - 1]);
            assert(after_last_slash(p) == after_last_slash(p.drop_last()).push(v@[start - 1]));
            assert(after_last_slash(p.drop_last()).push(v@[start - 1]) + v@.subrange(start as int, end as int)
                =~= after_last_slash(p.drop_last()) + v@.subrange(start - 1, end as int));
        }
        start = start - 1;
    }
    proof {
        let p = v@.subrange(0, start as int);
        assert(after_last_slash(p) =~= Seq::<char>::empty());
        assert(Seq::<char>::empty() + v@.subrange(start as int, end as int) =~= v@.subrange(
            start as int,
            end as int,
        ));
    }
    crate::textutil::string_from_chars(&crate::textutil::slice_chars(&v, start, end))
}

impl SessionInitResponse {
    /// The session of a folder: the default workspace and the folder's
    /// project.
    pub fn for_request(req: &SessionInitRequest) -> (r: Self)
        ensures
            r.workspace_id@ == "default"@,
            r.project_id@ == project_name_of(req.folder_path@),
            r.project_name@ == project_name_of(req.folder_path@),
    {
        let name = project_name(req.folder_path.as_str());
        SessionInitResponse { workspace_id: owned("default"), project_id: name.clone(), project_name: name }
    }
}

impl ContextRequest {
    /// How many results a context request asks for: its token budget
    /// (400 by default) at about 50 tokens per result.
    pub fn result_limit(&self) -> (r: u32)
        ensures
            r == (match self.max_tokens {
                Some(t) => t,
                None => 400,
            }) / 50,
    {
        let t = match self.max_tokens {
            Some(t) => t,
            None => 400,
        };
        t / 50
    }
}

impl MnemosSearchRequest {
    /// How many results a search asks for (10 by default).
    pub fn result_limit(&self) -> (r: u32)
        ensures
            r == (match self.limit {
                Some(l) => l,
                None => 10,
            }),
    {
        match self.limit {
            Some(l) => l,
            None => 10,
        }
    }
}

} // verus!
