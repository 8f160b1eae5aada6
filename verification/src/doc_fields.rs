//! Reading well-known fields of a stored document: the title, link and
//! snippet of a simple search result, the text of a context item, and the
//! context fields used for boosting. A document's fields are kept as
//! (name, value) pairs, where a value is either text or something else.

use crate::config::owned;
use crate::textutil::{chars_of, string_from_chars};
use vstd::prelude::*;

verus! {

/// A field value: text, or any other JSON value.
#[derive(Debug)]
pub enum FieldValue {
    Text(String),
    Other,
}

pub enum FieldView {
    Text(Seq<char>),
    Other,
}

impl View for FieldValue {
    type V = FieldView;

    open spec fn view(&self) -> FieldView {
        match self {
            FieldValue::Text(s) => FieldView::Text(s@),
            FieldValue::Other => FieldView::Other,
        }
    }
}

pub open spec fn fields_view(f: Seq<(String, FieldValue)>) -> Seq<(Seq<char>, FieldView)> {
    f.map_values(|p: (String, FieldValue)| (p.0@, p.1@))
}

/// The value of the first field with this name.
pub open spec fn field_get(f: Seq<(Seq<char>, FieldView)>, name: Seq<char>) -> Option<FieldView>
    decreases f.len(),
{
    if f.len() == 0 {
        None
    } else if f[0].0 == name {
        Some(f[0].1)
    } else {
        field_get(f.drop_first(), name)
    }
}

/// The text of a value, if it is text.
pub open spec fn as_text(v: Option<FieldView>) -> Option<Seq<char>> {
    match v {
        Some(FieldView::Text(s)) => Some(s),
        _ => None,
    }
}

/// `a`, or `b` where `a` is `None`.
pub open spec fn or_else<T>(a: Option<T>, b: Option<T>) -> Option<T> {
    if a is Some {
        a
    } else {
        b
    }
}

/// The text of the named field.
pub open spec fn text_field(f: Seq<(Seq<char>, FieldView)>, name: Seq<char>) -> Option<Seq<char>> {
    as_text(field_get(f, name))
}

fn lookup(fields: &[(String, FieldValue)], name: &str) -> (r: Option<usize>)
    ensures
        match r {
            Some(i) => i < fields@.len() && field_get(fields_view(fields@), name@) == Some(fields@[i as int].1@),
            None => field_get(fields_view(fields@), name@) is None,
        },
{
    let key = owned(name);
    let ghost fv = fields_view(fields@);
    proof {
        assert(fv.skip(0) =~= fv);
    }
    let mut i: usize = 0;
    while i < fields.len()
        invariant
            i <= fields@.len(),
            fv == fields_view(fields@),
            key@ == name@,
            field_get(fv, name@) == field_get(fv.skip(i as int), name@),
        decreases fields.len() - i,
    {
        proof {
            assert(fv.skip(i as int).drop_first() =~= fv.skip(i as int + 1));
            assert(fv.skip(i as int)[0] == fv[i as int]);
            assert(fv[i as int] == (fields@[i as int].0@, fields@[i as int].1@));
        }
        if fields[i].0 == key {
            return Some(i);
        }
        i = i + 1;
    }
    proof {
        assert(fv.skip(i as int).len() == 0);
    }
    None
}

fn text_of(fields: &[(String, FieldValue)], name: &str) -> (r: Option<String>)
    ensures
        match r {
            Some(s) => text_field(fields_view(fields@), name@) == Some(s@),
            None => text_field(fields_view(fields@), name@) is None,
        },
{
    match lookup(fields, name) {
        Some(i) => match &fields[i].1 {
            FieldValue::Text(s) => Some(s.clone()),
            FieldValue::Other => None,
        },
        None => None,
    }
}

/// The text of the first of the two fields that is present (a present field
/// that is not text gives `None`).
fn text_of_present(fields: &[(String, FieldValue)], first: &str, second: &str) -> (r: Option<String>)
    ensures
        match r {
            Some(s) => as_text(or_else(field_get(fields_view(fields@), first@), field_get(fields_view(fields@), second@))) == Some(s@),
            None => as_text(or_else(field_get(fields_view(fields@), first@), field_get(fields_view(fields@), second@))) is None,
        },
{
    match lookup(fields, first) {
        Some(_) => text_of(fields, first),
        None => text_of(fields, second),
    }
}

pub open spec fn title_of(f: Seq<(Seq<char>, FieldView)>) -> Option<Seq<char>> {
    text_field(f, "title"@)
}

pub open spec fn url_of(f: Seq<(Seq<char>, FieldView)>) -> Option<Seq<char>> {
    as_text(or_else(field_get(f, "url"@), field_get(f, "link"@)))
}

pub open spec fn snippet_of(f: Seq<(Seq<char>, FieldView)>) -> Option<Seq<char>> {
    as_text(or_else(field_get(f, "snippet"@), or_else(field_get(f, "content"@), field_get(f, "description"@))))
}

pub open spec fn opt_view(o: Option<String>) -> Option<Seq<char>> {
    match o {
        Some(s) => Some(s@),
        None => None,
    }
}

/// One result of the simple search API.
#[derive(Debug)]
pub struct SimpleSearchResult {
    pub id: String,
    pub title: Option<String>,
    pub url: Option<String>,
    pub snippet: Option<String>,
    /// The score, as `f32` bits.
    pub score_bits: u32,
}

/// A search hit in the simple form: the title field, the url (or else the
/// link) field, and the snippet (or else content, or else description)
/// field, each kept only where the field that is present holds text.
pub fn result_to_simple(id: String, score_bits: u32, fields: &[(String, FieldValue)]) -> (r: SimpleSearchResult)
    ensures
        r.id@ == id@,
        r.score_bits == score_bits,
        opt_view(r.title) == title_of(fields_view(fields@)),
        opt_view(r.url) == url_of(fields_view(fields@)),
        opt_view(r.snippet) == snippet_of(fields_view(fields@)),
{
    let title = text_of(fields, "title");
    let url = text_of_present(fields, "url", "link");
    let snippet = match lookup(fields, "snippet") {
        Some(_) => text_of(fields, "snippet"),
        None => text_of_present(fields, "content", "description"),
    };
    SimpleSearchResult { id, title, url, snippet, score_bits }
}

/// The text of a search hit for the context API: the `content` field if it
/// is text, else the `summary` field if it is text, else empty.
pub open spec fn content_or_summary(f: Seq<(Seq<char>, FieldView)>) -> Seq<char> {
    match or_else(text_field(f, "content"@), text_field(f, "summary"@)) {
        Some(s) => s,
        None => Seq::empty(),
    }
}

pub fn hit_content(fields: &[(String, FieldValue)]) -> (r: String)
    ensures
        r@ == content_or_summary(fields_view(fields@)),
{
    match text_of(fields, "content") {
        Some(s) => s,
        None => match text_of(fields, "summary") {
            Some(s) => s,
            None => {
                proof {
                    reveal_strlit("");
                }
                owned("")
            },
        },
    }
}

/// The text of a memory for the context API: the `content` field if it is
/// text, else empty.
pub fn memory_content(fields: &[(String, FieldValue)]) -> (r: String)
    ensures
        r@ == (match text_field(fields_view(fields@), "content"@) {
            Some(s) => s,
            None => Seq::empty(),
        }),
{
    match text_of(fields, "content") {
        Some(s) => s,
        None => {
            proof {
                reveal_strlit("");
            }
            owned("")
        },
    }
}

/// The boosting context of a document: `project_id`, `session_id` and
/// `file_path`, in that order, where the field holds text.
pub open spec fn context_of(f: Seq<(Seq<char>, FieldView)>) -> Seq<(Seq<char>, Seq<char>)> {
    let a = match text_field(f, "project_id"@) {
        Some(s) => seq![("project_id"@, s)],
        None => Seq::empty(),
    };
    let b = match text_field(f, "session_id"@) {
        Some(s) => seq![("session_id"@, s)],
        None => Seq::empty(),
    };
    let c = match text_field(f, "file_path"@) {
        Some(s) => seq![("file_path"@, s)],
        None => Seq::empty(),
    };
    a + b + c
}

pub fn context_from_fields(fields: &[(String, FieldValue)]) -> (r: Vec<(String, String)>)
    ensures
        r@.map_values(|p: (String, String)| (p.0@, p.1@)) == context_of(fields_view(fields@)),
{
    let mut out: Vec<(String, String)> = Vec::new();
    let ghost f = fields_view(fields@);
    match text_of(fields, "project_id") {
        Some(s) => out.push((owned("project_id"), s)),
        None => {},
    }
    let ghost a = out@.map_values(|p: (String, String)| (p.0@, p.1@));
    match text_of(fields, "session_id") {
        Some(s) => out.push((owned("session_id"), s)),
        None => {},
    }
    let ghost b = out@.map_values(|p: (String, String)| (p.0@, p.1@));
    match text_of(fields, "file_path") {
        Some(s) => out.push((owned("file_path"), s)),
        None => {},
    }
    proof {
        let v = out@.map_values(|p: (String, String)| (p.0@, p.1@));
        assert(v =~= context_of(f));
    }
    out
}

fn concat2(a: &str, b: &str) -> (r: String)
    ensures
        r@ == a@ + b@,
{
    let mut v = chars_of(a);
    let mut w = chars_of(b);
    v.append(&mut w);
    string_from_chars(&v)
}

fn concat3(a: &str, b: &str, c: &str) -> (r: String)
    ensures
        r@ == a@ + b@ + c@,
{
    let mut v = chars_of(a);
    let mut w = chars_of(b);
    v.append(&mut w);
    let mut x = chars_of(c);
    v.append(&mut x);
    string_from_chars(&v)
}

/// An entry of the context API: text, where it came from, and the score
/// (as `f32` bits).
#[derive(Debug)]
pub struct ContextItem {
    pub content: String,
    pub source: String,
    pub relevance_bits: Option<u32>,
}

/// The context entry of an observation hit: its content (or else summary)
/// text, from `observation:<id>`; none where that text is empty.
pub fn observation_item(id: &str, score_bits: u32, fields: &[(String, FieldValue)]) -> (r: Option<ContextItem>)
    ensures
        r is None <==> content_or_summary(fields_view(fields@)).len() == 0,
        r matches Some(it) ==> it.content@ == content_or_summary(fields_view(fields@)) && it.source@
            == "observation:"@ + id@ && it.relevance_bits == Some(score_bits),
{
    let content = hit_content(fields);
    if content.as_str().unicode_len() == 0 {
        None
    } else {
        Some(ContextItem { content, source: concat2("observation:", id), relevance_bits: Some(score_bits) })
    }
}

/// The context entry of a memory hit: its content text, from
/// `memory:<id>`; none where that text is empty.
pub fn memory_item(id: &str, score_bits: u32, fields: &[(String, FieldValue)]) -> (r: Option<ContextItem>)
    ensures
        ({
            let c = match text_field(fields_view(fields@), "content"@) {
                Some(s) => s,
                None => Seq::empty(),
            };
            &&& (r is None <==> c.len() == 0)
            &&& (r matches Some(it) ==> it.content@ == c && it.source@ == "memory:"@ + id@ && it.relevance_bits
                == Some(score_bits))
        }),
{
    let content = memory_content(fields);
    if content.as_str().unicode_len() == 0 {
        None
    } else {
        Some(ContextItem { content, source: concat2("memory:", id), relevance_bits: Some(score_bits) })
    }
}

/// A result of the search API.
#[derive(Debug)]
pub struct MnemosSearchResult {
    pub path: String,
    pub content: String,
    pub line: Option<u32>,
    pub score_bits: Option<u32>,
}

/// The search API result for a hit of `collection`: path
/// `<collection>:<id>`, the content (or else summary) text, no line.
pub fn search_result_of(collection: &str, id: &str, score_bits: u32, fields: &[(String, FieldValue)]) -> (r: MnemosSearchResult)
    ensures
        r.path@ == collection@ + ":"@ + id@,
        r.content@ == content_or_summary(fields_view(fields@)),
        r.line is None,
        r.score_bits == Some(score_bits),
{
    MnemosSearchResult {
        path: concat3(collection, ":", id),
        content: hit_content(fields),
        line: None,
        score_bits: Some(score_bits),
    }
}

/// The documents whose embedding is to be made: those without the target
/// field whose source field holds text, by position, with that text.
pub open spec fn embed_requests(
    docs: Seq<Seq<(Seq<char>, FieldView)>>,
    source: Seq<char>,
    target: Seq<char>,
) -> Seq<(int, Seq<char>)>
    decreases docs.len(),
{
    if docs.len() == 0 {
        Seq::empty()
    } else {
        let prev = embed_requests(docs.drop_last(), source, target);
        let f = docs.last();
        if field_get(f, target) is None && text_field(f, source) is Some {
            prev.push((docs.len() - 1, text_field(f, source)->0))
        } else {
            prev
        }
    }
}

pub open spec fn docs_view(docs: Seq<Vec<(String, FieldValue)>>) -> Seq<Seq<(Seq<char>, FieldView)>> {
    docs.map_values(|d: Vec<(String, FieldValue)>| fields_view(d@))
}

/// Which documents need an embedding made from `source` into `target`, and
/// the text to embed for each.
pub fn texts_to_embed(docs: &Vec<Vec<(String, FieldValue)>>, source: &str, target: &str) -> (r: Vec<(usize, String)>)
    ensures
        r@.map_values(|p: (usize, String)| (p.0 as int, p.1@)) == embed_requests(docs_view(docs@), source@, target@),
{
    let ghost dv = docs_view(docs@);
    let mut out: Vec<(usize, String)> = Vec::new();
    let mut i: usize = 0;
    while i < docs.len()
        invariant
            i <= docs@.len(),
            dv == docs_view(docs@),
            out@.map_values(|p: (usize, String)| (p.0 as int, p.1@)) == embed_requests(dv.take(i as int), source@, target@),
        decreases docs.len() - i,
    {
        proof {
            assert(dv.take(i as int + 1).drop_last() =~= dv.take(i as int));
            assert(dv.take(i as int + 1).last() == fields_view(docs@[i as int]@));
        }
        let ghost before = out@;
        let fields = docs[i].as_slice();
        if lookup(fields, target).is_none() {
            match text_of(fields, source) {
                Some(t) => {
                    out.push((i, t));
                    proof {
                        assert(out@.map_values(|p: (usize, String)| (p.0 as int, p.1@)) =~= before.map_values(
                            |p: (usize, String)| (p.0 as int, p.1@),
                        ).push((i as int, out@.last().1@)));
                    }
                },
                None => {},
            }
        }
        i = i + 1;
    }
    proof {
        assert(dv.take(docs@.len() as int) =~= dv);
    }
    out
}

} // verus!
