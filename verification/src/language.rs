//! Programming-language identification: from a file extension, from a
//! shebang line, and from keyword heuristics over the first 4 KiB of text.

use crate::textutil::{
    chars_of, contains, contains_lit, eq_lit, has_char, has_prefix, lowercase, lowercase_chars,
    slice_chars, starts_with, trim, trim_chars, uppercase, uppercase_chars,
};
use vstd::prelude::*;

verus! {

/// Languages the code tokenizer can parse.
#[derive(Debug, Clone, Copy, PartialEq, Eq, Hash, Structural)]
pub enum Language {
    Rust,
    Python,
    JavaScript,
    TypeScript,
    Go,
    C,
    Cpp,
    Ruby,
    Elixir,
    Erlang,
    Bash,
    Yaml,
    Toml,
    Json,
    Html,
    Sql,
}

pub open spec fn language_name(l: Language) -> Seq<char> {
    match l {
        Language::Rust => "rust"@,
        Language::Python => "python"@,
        Language::JavaScript => "javascript"@,
        Language::TypeScript => "typescript"@,
        Language::Go => "go"@,
        Language::C => "c"@,
        Language::Cpp => "cpp"@,
        Language::Ruby => "ruby"@,
        Language::Elixir => "elixir"@,
        Language::Erlang => "erlang"@,
        Language::Bash => "bash"@,
        Language::Yaml => "yaml"@,
        Language::Toml => "toml"@,
        Language::Json => "json"@,
        Language::Html => "html"@,
        Language::Sql => "sql"@,
    }
}

/// Every language, in declaration order.
pub open spec fn all_languages() -> Seq<Language> {
    seq![
        Language::Rust,
        Language::Python,
        Language::JavaScript,
        Language::TypeScript,
        Language::Go,
        Language::C,
        Language::Cpp,
        Language::Ruby,
        Language::Elixir,
        Language::Erlang,
        Language::Bash,
        Language::Yaml,
        Language::Toml,
        Language::Json,
        Language::Html,
        Language::Sql,
    ]
}

impl Language {
    /// The tokenizer name suffix of this language.
    pub fn name(&self) -> (r: &'static str)
        ensures
            r@ == language_name(*self),
    {
        match self {
            Language::Rust => "rust",
            Language::Python => "python",
            Language::JavaScript => "javascript",
            Language::TypeScript => "typescript",
            Language::Go => "go",
            Language::C => "c",
            Language::Cpp => "cpp",
            Language::Ruby => "ruby",
            Language::Elixir => "elixir",
            Language::Erlang => "erlang",
            Language::Bash => "bash",
            Language::Yaml => "yaml",
            Language::Toml => "toml",
            Language::Json => "json",
            Language::Html => "html",
            Language::Sql => "sql",
        }
    }

    /// All languages, in declaration order.
    pub fn all() -> (r: Vec<Language>)
        ensures
            r@ == all_languages(),
    {
        let r = vec![
            Language::Rust,
            Language::Python,
            Language::JavaScript,
            Language::TypeScript,
            Language::Go,
            Language::C,
            Language::Cpp,
            Language::Ruby,
            Language::Elixir,
            Language::Erlang,
            Language::Bash,
            Language::Yaml,
            Language::Toml,
            Language::Json,
            Language::Html,
            Language::Sql,
        ];
        assert(r@ =~= all_languages());
        r
    }
}

// ---------------------------------------------------------------------------
// File extensions
// ---------------------------------------------------------------------------

/// The language of a (lower-cased) file extension.
pub open spec fn extension_language(e: Seq<char>) -> Option<Language> {
    if e == "rs"@ {
        Some(Language::Rust)
    } else if e == "py"@ || e == "pyw"@ || e == "pyi"@ {
        Some(Language::Python)
    } else if e == "js"@ || e == "jsx"@ || e == "mjs"@ || e == "cjs"@ {
        Some(Language::JavaScript)
    } else if e == "ts"@ || e == "tsx"@ || e == "mts"@ || e == "cts"@ {
        Some(Language::TypeScript)
    } else if e == "go"@ {
        Some(Language::Go)
    } else if e == "c"@ || e == "h"@ {
        Some(Language::C)
    } else if e == "cpp"@ || e == "cc"@ || e == "cxx"@ || e == "hpp"@ || e == "hxx"@ || e
        == "hh"@ {
        Some(Language::Cpp)
    } else if e == "rb"@ || e == "rake"@ || e == "gemspec"@ {
        Some(Language::Ruby)
    } else if e == "ex"@ || e == "exs"@ {
        Some(Language::Elixir)
    } else if e == "erl"@ || e == "hrl"@ {
        Some(Language::Erlang)
    } else if e == "sh"@ || e == "bash"@ || e == "zsh"@ {
        Some(Language::Bash)
    } else if e == "yaml"@ || e == "yml"@ {
        Some(Language::Yaml)
    } else if e == "toml"@ {
        Some(Language::Toml)
    } else if e == "json"@ || e == "jsonl"@ {
        Some(Language::Json)
    } else if e == "html"@ || e == "htm"@ {
        Some(Language::Html)
    } else if e == "sql"@ || e == "ddl"@ || e == "dml"@ {
        Some(Language::Sql)
    } else {
        None
    }
}

/// Detect the language of a file from its extension (case-insensitive).
pub fn language_from_extension(ext: &str) -> (r: Option<Language>)
    ensures
        r == extension_language(lowercase(ext@)),
{
    let e = lowercase_chars(&chars_of(ext));
    if eq_lit(&e, "rs") {
        Some(Language::Rust)
    } else if eq_lit(&e, "py") || eq_lit(&e, "pyw") || eq_lit(&e, "pyi") {
        Some(Language::Python)
    } else if eq_lit(&e, "js") || eq_lit(&e, "jsx") || eq_lit(&e, "mjs") || eq_lit(&e, "cjs") {
        Some(Language::JavaScript)
    } else if eq_lit(&e, "ts") || eq_lit(&e, "tsx") || eq_lit(&e, "mts") || eq_lit(&e, "cts") {
        Some(Language::TypeScript)
    } else if eq_lit(&e, "go") {
        Some(Language::Go)
    } else if eq_lit(&e, "c") || eq_lit(&e, "h") {
        Some(Language::C)
    } else if eq_lit(&e, "cpp") || eq_lit(&e, "cc") || eq_lit(&e, "cxx") || eq_lit(&e, "hpp")
        || eq_lit(&e, "hxx") || eq_lit(&e, "hh") {
        Some(Language::Cpp)
    } else if eq_lit(&e, "rb") || eq_lit(&e, "rake") || eq_lit(&e, "gemspec") {
        Some(Language::Ruby)
    } else if eq_lit(&e, "ex") || eq_lit(&e, "exs") {
        Some(Language::Elixir)
    } else if eq_lit(&e, "erl") || eq_lit(&e, "hrl") {
        Some(Language::Erlang)
    } else if eq_lit(&e, "sh") || eq_lit(&e, "bash") || eq_lit(&e, "zsh") {
        Some(Language::Bash)
    } else if eq_lit(&e, "yaml") || eq_lit(&e, "yml") {
        Some(Language::Yaml)
    } else if eq_lit(&e, "toml") {
        Some(Language::Toml)
    } else if eq_lit(&e, "json") || eq_lit(&e, "jsonl") {
        Some(Language::Json)
    } else if eq_lit(&e, "html") || eq_lit(&e, "htm") {
        Some(Language::Html)
    } else if eq_lit(&e, "sql") || eq_lit(&e, "ddl") || eq_lit(&e, "dml") {
        Some(Language::Sql)
    } else {
        None
    }
}

// ---------------------------------------------------------------------------
// Shebang lines
// ---------------------------------------------------------------------------

/// Index of the first `'\n'` in `s`, if any.
pub open spec fn first_newline(s: Seq<char>) -> Option<int> {
    if has_char(s, '\n') {
        Some(choose|p: int| 0 <= p < s.len() && s[p] == '\n' && forall|k: int| 0 <= k < p ==> s[k] != '\n')
    } else {
        None
    }
}

/// The first line of `s` as `str::lines` yields it: up to the first line
/// feed, without a carriage return right before it; `None` for empty text.
pub open spec fn first_line(s: Seq<char>) -> Option<Seq<char>> {
    if s.len() == 0 {
        None
    } else {
        match first_newline(s) {
            Some(p) => {
                let l = s.take(p);
                if l.len() > 0 && l.last() == '\r' {
                    Some(l.drop_last())
                } else {
                    Some(l)
                }
            },
            None => Some(s),
        }
    }
}

/// The language a `#!` first line names, checked in the order python,
/// ruby, bash (`bash` or `/sh`), elixir, escript (Erlang).
pub open spec fn shebang_language(s: Seq<char>) -> Option<Language> {
    match first_line(s) {
        None => None,
        Some(l) => {
            if !starts_with(l, "#!"@) {
                None
            } else {
                let lo = lowercase(l);
                if contains(lo, "python"@) {
                    Some(Language::Python)
                } else if contains(lo, "ruby"@) {
                    Some(Language::Ruby)
                } else if contains(lo, "bash"@) || contains(lo, "/sh"@) {
                    Some(Language::Bash)
                } else if contains(lo, "elixir"@) {
                    Some(Language::Elixir)
                } else if contains(lo, "escript"@) {
                    Some(Language::Erlang)
                } else {
                    None
                }
            }
        },
    }
}

fn first_line_chars(s: &Vec<char>) -> (r: Option<Vec<char>>)
    ensures
        match (r, first_line(s@)) {
            (Some(a), Some(b)) => a@ == b,
            (None, None) => true,
            _ => false,
        },
{
    if s.len() == 0 {
        return None;
    }
    let mut i: usize = 0;
    while i < s.len() && s[i] != '\n'
        invariant
            i <= s.len(),
            forall|k: int| 0 <= k < i ==> s@[k] != '\n',
        decreases s.len() - i,
    {
        i = i + 1;
    }
    if i == s.len() {
        assert(!has_char(s@, '\n'));
        let v = slice_chars(s, 0, s.len());
        assert(v@ =~= s@);
        return Some(v);
    }
    proof {
        assert(has_char(s@, '\n'));
        let p = choose|p: int| 0 <= p < s@.len() && s@[p] == '\n' && forall|k: int| 0 <= k < p ==> s@[k] != '\n';
        assert(s@[i as int] == '\n');
        assert(p == i);
    }
    let mut l = slice_chars(s, 0, i);
    assert(l@ =~= s@.take(i as int));
    if l.len() > 0 && l[l.len() - 1] == '\r' {
        l.pop();
    }
    Some(l)
}

/// The language named by a `#!` line at the start of `text`.
pub fn detect_from_shebang(text: &str) -> (r: Option<Language>)
    ensures
        r == shebang_language(text@),
{
    let s = chars_of(text);
    let first = match first_line_chars(&s) {
        Some(l) => l,
        None => return None,
    };
    if !has_prefix(&first, "#!") {
        return None;
    }
    let lo = lowercase_chars(&first);
    if contains_lit(&lo, "python") {
        return Some(Language::Python);
    }
    if contains_lit(&lo, "ruby") {
        return Some(Language::Ruby);
    }
    if contains_lit(&lo, "bash") || contains_lit(&lo, "/sh") {
        return Some(Language::Bash);
    }
    if contains_lit(&lo, "elixir") {
        return Some(Language::Elixir);
    }
    if contains_lit(&lo, "escript") {
        return Some(Language::Erlang);
    }
    None
}

// ---------------------------------------------------------------------------
// Keyword heuristics
// ---------------------------------------------------------------------------

/// UTF-8 width of a character.
pub open spec fn char_utf8_len(c: char) -> nat {
    if (c as u32) < 0x80 {
        1
    } else if (c as u32) < 0x800 {
        2
    } else if (c as u32) < 0x10000 {
        3
    } else {
        4
    }
}

/// UTF-8 byte length of a character sequence.
pub open spec fn utf8_len(s: Seq<char>) -> nat
    decreases s.len(),
{
    if s.len() == 0 {
        0
    } else {
        utf8_len(s.drop_last()) + char_utf8_len(s.last())
    }
}

/// A character sequence has at least as many bytes as characters.
pub proof fn lemma_utf8_len_ge_len(s: Seq<char>)
    ensures
        utf8_len(s) >= s.len(),
    decreases s.len(),
{
    if s.len() > 0 {
        lemma_utf8_len_ge_len(s.drop_last());
    }
}

/// An all-ASCII sequence has exactly one byte per character.
pub proof fn lemma_utf8_len_ascii(s: Seq<char>)
    requires
        forall|i: int| 0 <= i < s.len() ==> ((#[trigger] s[i]) as u32) < 0x80,
    ensures
        utf8_len(s) == s.len(),
    decreases s.len(),
{
    if s.len() > 0 {
        assert forall|i: int| 0 <= i < s.drop_last().len() implies ((#[trigger] s.drop_last()[i]) as u32) < 0x80 by {
            assert(s.drop_last()[i] == s[i]);
        }
        lemma_utf8_len_ascii(s.drop_last());
        assert((s.last() as u32) < 0x80);
    }
}

/// Exec form of `char_utf8_len` (as `char::len_utf8`).
pub fn char_len_utf8(c: char) -> (n: usize)
    ensures
        n == char_utf8_len(c),
{
    let v = c as u32;
    if v < 0x80 {
        1
    } else if v < 0x800 {
        2
    } else if v < 0x10000 {
        3
    } else {
        4
    }
}

/// Number of bytes of text that the keyword heuristics look at.
pub const KEYWORD_SAMPLE_BYTES: usize = 4096;

/// The text's first 4096 bytes fall on a character boundary, or the text is
/// no longer than that (slicing the sample cannot fail).
pub open spec fn keyword_sample_ok(s: Seq<char>) -> bool {
    utf8_len(s) <= 4096 || exists|k: int| 0 <= k <= s.len() && utf8_len(#[trigger] s.take(k)) == 4096
}

/// The characters whose UTF-8 encoding is the first 4096 bytes of `s`, or
/// all of `s` when it is no longer.
pub open spec fn keyword_sample(s: Seq<char>) -> Seq<char> {
    if utf8_len(s) <= 4096 {
        s
    } else {
        s.take(choose|k: int| 0 <= k <= s.len() && utf8_len(#[trigger] s.take(k)) == 4096)
    }
}

pub proof fn lemma_utf8_len_prefix_step(s: Seq<char>, k: int)
    requires
        0 <= k < s.len(),
    ensures
        utf8_len(s.take(k + 1)) == utf8_len(s.take(k)) + char_utf8_len(s[k]),
{
    assert(s.take(k + 1).drop_last() =~= s.take(k));
}

pub proof fn lemma_utf8_len_prefix_mono(s: Seq<char>, a: int, b: int)
    requires
        0 <= a < b <= s.len(),
    ensures
        utf8_len(s.take(a)) < utf8_len(s.take(b)),
    decreases b - a,
{
    lemma_utf8_len_prefix_step(s, b - 1);
    if a < b - 1 {
        lemma_utf8_len_prefix_mono(s, a, b - 1);
    }
}

pub proof fn lemma_utf8_len_full(s: Seq<char>)
    ensures
        s.take(s.len() as int) == s,
{
    assert(s.take(s.len() as int) =~= s);
}

fn keyword_sample_chars(s: &Vec<char>) -> (r: Vec<char>)
    requires
        keyword_sample_ok(s@),
    ensures
        r@ == keyword_sample(s@),
{
    let mut i: usize = 0;
    let mut acc: usize = 0;
    while i < s.len() && acc < 4096
        invariant
            i <= s.len(),
            acc == utf8_len(s@.take(i as int)),
            acc <= 4096 + 4,
            i > 0 ==> utf8_len(s@.take(i - 1)) < 4096,
        decreases s.len() - i,
    {
        proof {
            lemma_utf8_len_prefix_step(s@, i as int);
        }
        acc = acc + char_len_utf8(s[i]);
        i = i + 1;
    }
    proof {
        lemma_utf8_len_full(s@);
    }
    if acc < 4096 || i == s.len() && acc == 4096 {
        assert(utf8_len(s@) <= 4096) by {
            if i < s.len() {
                assert(acc >= 4096);
            }
        }
        return slice_chars(s, 0, s.len());
    }
    proof {
        assert(acc >= 4096);
        if utf8_len(s@) <= 4096 {
            if i < s.len() {
                lemma_utf8_len_prefix_mono(s@, i as int, s.len() as int);
            }
        }
        assert(utf8_len(s@) > 4096);
        let k = choose|k: int| 0 <= k <= s@.len() && utf8_len(#[trigger] s@.take(k)) == 4096;
        if k < i {
            lemma_utf8_len_prefix_mono(s@, k, i - 1 + 0);
            if k == i - 1 {
            } else {
                lemma_utf8_len_prefix_mono(s@, k, i - 1);
            }
        } else if k > i {
            lemma_utf8_len_prefix_mono(s@, i as int, k);
        }
        assert(k == i);
    }
    slice_chars(s, 0, i)
}

pub open spec fn pts(b: bool, n: nat) -> nat {
    if b {
        n
    } else {
        0
    }
}

#[verifier::opaque]
pub open spec fn rust_score(s: Seq<char>) -> nat {
    pts(contains(s, "fn "@), 2) + pts(contains(s, "let "@) || contains(s, "let mut "@), 2) + pts(
        contains(s, "impl "@),
        3,
    ) + pts(contains(s, "pub fn "@) || contains(s, "pub struct "@), 3) + pts(
        contains(s, "use std::"@) || contains(s, "use crate::"@),
        3,
    ) + pts(contains(s, "-> Result<"@) || contains(s, "-> Option<"@), 2)
}

#[verifier::opaque]
pub open spec fn python_score(s: Seq<char>) -> nat {
    pts(contains(s, "def "@), 2) + pts(contains(s, "import "@), 1) + pts(
        contains(s, "class "@) && contains(s, "self"@),
        3,
    ) + pts(contains(s, "__init__"@), 3) + pts(contains(s, "if __name__"@), 4)
}

#[verifier::opaque]
pub open spec fn javascript_score(s: Seq<char>) -> nat {
    pts(contains(s, "function "@), 1) + pts(contains(s, "const "@) || contains(s, "let "@), 1)
        + pts(contains(s, "require("@), 3) + pts(contains(s, "module.exports"@), 4) + pts(
        contains(s, "console.log"@),
        2,
    ) + pts(contains(s, "=> {"@) || contains(s, "=> ("@), 1)
}

#[verifier::opaque]
pub open spec fn typescript_score(s: Seq<char>) -> nat {
    pts(contains(s, "interface "@), 3) + pts(
        contains(s, ": string"@) || contains(s, ": number"@) || contains(s, ": boolean"@),
        3,
    ) + pts(contains(s, "export type "@) || contains(s, "export interface "@), 4) + pts(
        contains(s, "<T>"@) || contains(s, "<T,"@),
        2,
    )
}

#[verifier::opaque]
pub open spec fn go_score(s: Seq<char>) -> nat {
    pts(contains(s, "func "@), 2) + pts(contains(s, "package "@), 3) + pts(
        contains(s, "go func"@) || contains(s, "go "@),
        2,
    ) + pts(contains(s, "fmt."@), 3) + pts(contains(s, ":= "@), 2)
}

#[verifier::opaque]
pub open spec fn c_score(s: Seq<char>) -> nat {
    pts(contains(s, "#include"@), 2) + pts(contains(s, "int main("@), 3) + pts(
        contains(s, "printf("@) || contains(s, "malloc("@),
        2,
    ) + pts(contains(s, "void "@), 1)
}

#[verifier::opaque]
pub open spec fn cpp_score(s: Seq<char>) -> nat {
    pts(contains(s, "#include"@), 1) + pts(contains(s, "std::"@), 3) + pts(
        contains(s, "class "@) && contains(s, "public:"@),
        4,
    ) + pts(contains(s, "template<"@) || contains(s, "template <"@), 4) + pts(
        contains(s, "namespace "@),
        3,
    )
}

#[verifier::opaque]
pub open spec fn ruby_score(s: Seq<char>) -> nat {
    pts(contains(s, "def "@) && contains(s, "end"@), 2) + pts(
        contains(s, "require "@) || contains(s, "require_relative"@),
        3,
    ) + pts(contains(s, "attr_accessor"@) || contains(s, "attr_reader"@), 4) + pts(
        contains(s, "puts "@) || contains(s, ".each do"@),
        2,
    )
}

#[verifier::opaque]
pub open spec fn elixir_score(s: Seq<char>) -> nat {
    pts(contains(s, "defmodule "@), 5) + pts(contains(s, "defp "@) || contains(s, "def "@), 1)
        + pts(contains(s, "|> "@), 3) + pts(contains(s, "@spec"@) || contains(s, "@doc"@), 3)
}

#[verifier::opaque]
pub open spec fn erlang_score(s: Seq<char>) -> nat {
    pts(contains(s, "-module("@), 5) + pts(contains(s, "-export("@), 4) + pts(
        contains(s, "->"@) && contains(s, "."@),
        2,
    )
}

#[verifier::opaque]
pub open spec fn html_score(s: Seq<char>) -> nat {
    pts(contains(s, "<!DOCTYPE"@) || contains(s, "<!doctype"@), 5) + pts(
        contains(s, "<html"@),
        4,
    ) + pts(contains(s, "<div"@) || contains(s, "<span"@), 2)
}

#[verifier::opaque]
pub open spec fn yaml_score(s: Seq<char>) -> nat {
    pts(starts_with(s, "---\n"@) || starts_with(s, "---\r\n"@), 4)
}

#[verifier::opaque]
pub open spec fn json_score(s: Seq<char>) -> nat {
    let t = trim(s);
    pts(
        (starts_with(t, "{"@) || starts_with(t, "["@)) && !contains(t, "function "@) && !contains(
            t,
            "const "@,
        ),
        3,
    )
}

#[verifier::opaque]
pub open spec fn toml_score(s: Seq<char>) -> nat {
    pts(contains(s, "[package]"@) || contains(s, "[dependencies]"@), 5) + pts(
        contains(s, "[workspace]"@),
        5,
    )
}

#[verifier::opaque]
pub open spec fn sql_score(s: Seq<char>) -> nat {
    let u = uppercase(s);
    pts(contains(u, "SELECT "@), 2) + pts(contains(u, "CREATE TABLE"@), 4) + pts(
        contains(u, "INSERT INTO"@),
        3,
    ) + pts(contains(u, "ALTER TABLE"@), 4) + pts(contains(u, "JOIN "@) && contains(u, "ON "@), 3)
        + pts(contains(u, "WHERE "@), 1)
}

/// The keyword score of every candidate language, in the order in which the
/// candidates are compared.
pub open spec fn keyword_scores(s: Seq<char>) -> Seq<(Language, nat)> {
    seq![
        (Language::Rust, rust_score(s)),
        (Language::Python, python_score(s)),
        (Language::JavaScript, javascript_score(s)),
        (Language::TypeScript, typescript_score(s)),
        (Language::Go, go_score(s)),
        (Language::C, c_score(s)),
        (Language::Cpp, cpp_score(s)),
        (Language::Ruby, ruby_score(s)),
        (Language::Elixir, elixir_score(s)),
        (Language::Erlang, erlang_score(s)),
        (Language::Html, html_score(s)),
        (Language::Yaml, yaml_score(s)),
        (Language::Json, json_score(s)),
        (Language::Toml, toml_score(s)),
        (Language::Sql, sql_score(s)),
    ]
}

/// Score of a current best candidate (zero when there is none).
pub open spec fn best_score(b: Option<(Language, nat)>) -> nat {
    match b {
        Some(p) => p.1,
        None => 0,
    }
}

/// The first candidate with the highest positive score (a later candidate
/// replaces the current best only with a strictly higher score).
pub open spec fn best_candidate(c: Seq<(Language, nat)>) -> Option<(Language, nat)>
    decreases c.len(),
{
    if c.len() == 0 {
        None
    } else {
        let prev = best_candidate(c.drop_last());
        let (l, sc) = c.last();
        if sc > best_score(prev) {
            Some((l, sc))
        } else {
            prev
        }
    }
}

/// The language the keyword heuristics pick for `text`.
pub open spec fn keyword_language(text: Seq<char>) -> Option<Language> {
    match best_candidate(keyword_scores(keyword_sample(text))) {
        Some(p) => Some(p.0),
        None => None,
    }
}

/// The language `language_from_content` detects.
pub open spec fn content_language(text: Seq<char>) -> Option<Language> {
    match shebang_language(text) {
        Some(l) => Some(l),
        None => keyword_language(text),
    }
}

/// The best candidate has a positive score no lower than any candidate's,
/// and strictly higher than that of every candidate before it; without a
/// best candidate every score is zero.
pub proof fn lemma_best_candidate(c: Seq<(Language, nat)>)
    ensures
        match best_candidate(c) {
            Some(b) => {
                &&& b.1 > 0
                &&& exists|i: int| 0 <= i < c.len() && c[i] == b && forall|j: int|
                    0 <= j < i ==> #[trigger] c[j].1 < b.1
                &&& forall|j: int| 0 <= j < c.len() ==> #[trigger] c[j].1 <= b.1
            },
            None => forall|j: int| 0 <= j < c.len() ==> #[trigger] c[j].1 == 0,
        },
    decreases c.len(),
{
    if c.len() > 0 {
        let d = c.drop_last();
        lemma_best_candidate(d);
        let prev = best_candidate(d);
        let (l, sc) = c.last();
        if sc > best_score(prev) {
            let i = c.len() - 1;
            assert(c[i] == (l, sc));
            assert forall|j: int| 0 <= j < i implies #[trigger] c[j].1 < sc by {
                assert(c[j] == d[j]);
            }
            assert forall|j: int| 0 <= j < c.len() implies #[trigger] c[j].1 <= sc by {
                if j < i {
                    assert(c[j] == d[j]);
                }
            }
        } else {
            match prev {
                Some(b) => {
                    let i = choose|i: int|
                        0 <= i < d.len() && d[i] == b && forall|j: int|
                            0 <= j < i ==> #[trigger] d[j].1 < b.1;
                    assert(c[i] == b);
                    assert forall|j: int| 0 <= j < i implies #[trigger] c[j].1 < b.1 by {
                        assert(c[j] == d[j]);
                    }
                    assert forall|j: int| 0 <= j < c.len() implies #[trigger] c[j].1 <= b.1 by {
                        if j < d.len() {
                            assert(c[j] == d[j]);
                        }
                    }
                },
                None => {
                    assert forall|j: int| 0 <= j < c.len() implies #[trigger] c[j].1 == 0 by {
                        if j < d.len() {
                            assert(c[j] == d[j]);
                        }
                    }
                },
            }
        }
    }
}

fn pick(best: Option<(Language, u32)>, lang: Language, score: u32) -> (r: Option<(Language, u32)>)
    ensures
        match (r, best) {
            (Some(a), Some(b)) => if score > 0 && score > b.1 {
                a == (lang, score)
            } else {
                a == b
            },
            (Some(a), None) => score > 0 && a == (lang, score),
            (None, None) => score == 0,
            (None, Some(_)) => false,
        },
{
    if score > 0 {
        match best {
            Some((l, s)) => {
                if score > s {
                    Some((lang, score))
                } else {
                    Some((l, s))
                }
            },
            None => Some((lang, score)),
        }
    } else {
        best
    }
}

pub open spec fn same_best(r: Option<(Language, u32)>, c: Seq<(Language, nat)>) -> bool {
    match (r, best_candidate(c)) {
        (Some(a), Some(b)) => a.0 == b.0 && a.1 as nat == b.1,
        (None, None) => true,
        _ => false,
    }
}

proof fn lemma_pick_step(
    best: Option<(Language, u32)>,
    r: Option<(Language, u32)>,
    c: Seq<(Language, nat)>,
    lang: Language,
    score: u32,
)
    requires
        same_best(best, c),
        match (r, best) {
            (Some(a), Some(b)) => if score > 0 && score > b.1 {
                a == (lang, score)
            } else {
                a == b
            },
            (Some(a), None) => score > 0 && a == (lang, score),
            (None, None) => score == 0,
            (None, Some(_)) => false,
        },
    ensures
        same_best(r, c.push((lang, score as nat))),
{
    let c2 = c.push((lang, score as nat));
    assert(c2.drop_last() =~= c);
    assert(c2.last() == (lang, score as nat));
}

fn score_rust(s: &Vec<char>) -> (r: u32)
    ensures
        r == rust_score(s@),
{
    reveal(rust_score);
    let mut score: u32 = 0;
    if contains_lit(s, "fn ") {
        score += 2;
    }
    if contains_lit(s, "let ") || contains_lit(s, "let mut ") {
        score += 2;
    }
    if contains_lit(s, "impl ") {
        score += 3;
    }
    if contains_lit(s, "pub fn ") || contains_lit(s, "pub struct ") {
        score += 3;
    }
    if contains_lit(s, "use std::") || contains_lit(s, "use crate::") {
        score += 3;
    }
    if contains_lit(s, "-> Result<") || contains_lit(s, "-> Option<") {
        score += 2;
    }
    score
}

fn score_python(s: &Vec<char>) -> (r: u32)
    ensures
        r == python_score(s@),
{
    reveal(python_score);
    let mut score: u32 = 0;
    if contains_lit(s, "def ") {
        score += 2;
    }
    if contains_lit(s, "import ") {
        score += 1;
    }
    if contains_lit(s, "class ") && contains_lit(s, "self") {
        score += 3;
    }
    if contains_lit(s, "__init__") {
        score += 3;
    }
    if contains_lit(s, "if __name__") {
        score += 4;
    }
    score
}

fn score_javascript(s: &Vec<char>) -> (r: u32)
    ensures
        r == javascript_score(s@),
{
    reveal(javascript_score);
    let mut score: u32 = 0;
    if contains_lit(s, "function ") {
        score += 1;
    }
    if contains_lit(s, "const ") || contains_lit(s, "let ") {
        score += 1;
    }
    if contains_lit(s, "require(") {
        score += 3;
    }
    if contains_lit(s, "module.exports") {
        score += 4;
    }
    if contains_lit(s, "console.log") {
        score += 2;
    }
    if contains_lit(s, "=> {") || contains_lit(s, "=> (") {
        score += 1;
    }
    score
}

fn score_typescript(s: &Vec<char>) -> (r: u32)
    ensures
        r == typescript_score(s@),
{
    reveal(typescript_score);
    let mut score: u32 = 0;
    if contains_lit(s, "interface ") {
        score += 3;
    }
    if contains_lit(s, ": string") || contains_lit(s, ": number") || contains_lit(s, ": boolean") {
        score += 3;
    }
    if contains_lit(s, "export type ") || contains_lit(s, "export interface ") {
        score += 4;
    }
    if contains_lit(s, "<T>") || contains_lit(s, "<T,") {
        score += 2;
    }
    score
}

fn score_go(s: &Vec<char>) -> (r: u32)
    ensures
        r == go_score(s@),
{
    reveal(go_score);
    let mut score: u32 = 0;
    if contains_lit(s, "func ") {
        score += 2;
    }
    if contains_lit(s, "package ") {
        score += 3;
    }
    if contains_lit(s, "go func") || contains_lit(s, "go ") {
        score += 2;
    }
    if contains_lit(s, "fmt.") {
        score += 3;
    }
    if contains_lit(s, ":= ") {
        score += 2;
    }
    score
}

fn score_c(s: &Vec<char>) -> (r: u32)
    ensures
        r == c_score(s@),
{
    reveal(c_score);
    let mut score: u32 = 0;
    if contains_lit(s, "#include") {
        score += 2;
    }
    if contains_lit(s, "int main(") {
        score += 3;
    }
    if contains_lit(s, "printf(") || contains_lit(s, "malloc(") {
        score += 2;
    }
    if contains_lit(s, "void ") {
        score += 1;
    }
    score
}

fn score_cpp(s: &Vec<char>) -> (r: u32)
    ensures
        r == cpp_score(s@),
{
    reveal(cpp_score);
    let mut score: u32 = 0;
    if contains_lit(s, "#include") {
        score += 1;
    }
    if contains_lit(s, "std::") {
        score += 3;
    }
    if contains_lit(s, "class ") && contains_lit(s, "public:") {
        score += 4;
    }
    if contains_lit(s, "template<") || contains_lit(s, "template <") {
        score += 4;
    }
    if contains_lit(s, "namespace ") {
        score += 3;
    }
    score
}

fn score_ruby(s: &Vec<char>) -> (r: u32)
    ensures
        r == ruby_score(s@),
{
    reveal(ruby_score);
    let mut score: u32 = 0;
    if contains_lit(s, "def ") && contains_lit(s, "end") {
        score += 2;
    }
    if contains_lit(s, "require ") || contains_lit(s, "require_relative") {
        score += 3;
    }
    if contains_lit(s, "attr_accessor") || contains_lit(s, "attr_reader") {
        score += 4;
    }
    if contains_lit(s, "puts ") || contains_lit(s, ".each do") {
        score += 2;
    }
    score
}

fn score_elixir(s: &Vec<char>) -> (r: u32)
    ensures
        r == elixir_score(s@),
{
    reveal(elixir_score);
    let mut score: u32 = 0;
    if contains_lit(s, "defmodule ") {
        score += 5;
    }
    if contains_lit(s, "defp ") || contains_lit(s, "def ") {
        score += 1;
    }
    if contains_lit(s, "|> ") {
        score += 3;
    }
    if contains_lit(s, "@spec") || contains_lit(s, "@doc") {
        score += 3;
    }
    score
}

fn score_erlang(s: &Vec<char>) -> (r: u32)
    ensures
        r == erlang_score(s@),
{
    reveal(erlang_score);
    let mut score: u32 = 0;
    if contains_lit(s, "-module(") {
        score += 5;
    }
    if contains_lit(s, "-export(") {
        score += 4;
    }
    if contains_lit(s, "->") && contains_lit(s, ".") {
        score += 2;
    }
    score
}

fn score_html(s: &Vec<char>) -> (r: u32)
    ensures
        r == html_score(s@),
{
    reveal(html_score);
    let mut score: u32 = 0;
    if contains_lit(s, "<!DOCTYPE") || contains_lit(s, "<!doctype") {
        score += 5;
    }
    if contains_lit(s, "<html") {
        score += 4;
    }
    if contains_lit(s, "<div") || contains_lit(s, "<span") {
        score += 2;
    }
    score
}

fn score_yaml(s: &Vec<char>) -> (r: u32)
    ensures
        r == yaml_score(s@),
{
    reveal(yaml_score);
    let mut score: u32 = 0;
    if has_prefix(s, "---\n") || has_prefix(s, "---\r\n") {
        score += 4;
    }
    score
}

fn score_json(s: &Vec<char>) -> (r: u32)
    ensures
        r == json_score(s@),
{
    reveal(json_score);
    let mut score: u32 = 0;
    let t = trim_chars(s);
    if has_prefix(&t, "{") || has_prefix(&t, "[") {
        if !contains_lit(&t, "function ") && !contains_lit(&t, "const ") {
            score += 3;
        }
    }
    score
}

fn score_toml(s: &Vec<char>) -> (r: u32)
    ensures
        r == toml_score(s@),
{
    reveal(toml_score);
    let mut score: u32 = 0;
    if contains_lit(s, "[package]") || contains_lit(s, "[dependencies]") {
        score += 5;
    }
    if contains_lit(s, "[workspace]") {
        score += 5;
    }
    score
}

fn score_sql(s: &Vec<char>) -> (r: u32)
    ensures
        r == sql_score(s@),
{
    reveal(sql_score);
    let mut score: u32 = 0;
    let u = uppercase_chars(s);
    if contains_lit(&u, "SELECT ") {
        score += 2;
    }
    if contains_lit(&u, "CREATE TABLE") {
        score += 4;
    }
    if contains_lit(&u, "INSERT INTO") {
        score += 3;
    }
    if contains_lit(&u, "ALTER TABLE") {
        score += 4;
    }
    if contains_lit(&u, "JOIN ") && contains_lit(&u, "ON ") {
        score += 3;
    }
    if contains_lit(&u, "WHERE ") {
        score += 1;
    }
    score
}

/// Pick the language whose keywords score highest in the first 4096 bytes
/// of `text` (earlier candidates win ties; `None` when nothing scores).
pub fn detect_from_keywords(text: &str) -> (r: Option<Language>)
    requires
        keyword_sample_ok(text@),
    ensures
        r == keyword_language(text@),
{
    let all = chars_of(text);
    let s = keyword_sample_chars(&all);
    let ghost sv = s@;
    let ghost mut c: Seq<(Language, nat)> = Seq::empty();
    let mut best: Option<(Language, u32)> = None;
    assert(same_best(best, c));

    let sc = score_rust(&s);
    let nb = pick(best, Language::Rust, sc);
    proof { lemma_pick_step(best, nb, c, Language::Rust, sc); c = c.push((Language::Rust, sc as nat)); }
    best = nb;

    let sc = score_python(&s);
    let nb = pick(best, Language::Python, sc);
    proof { lemma_pick_step(best, nb, c, Language::Python, sc); c = c.push((Language::Python, sc as nat)); }
    best = nb;

    let sc = score_javascript(&s);
    let nb = pick(best, Language::JavaScript, sc);
    proof { lemma_pick_step(best, nb, c, Language::JavaScript, sc); c = c.push((Language::JavaScript, sc as nat)); }
    best = nb;

    let sc = score_typescript(&s);
    let nb = pick(best, Language::TypeScript, sc);
    proof { lemma_pick_step(best, nb, c, Language::TypeScript, sc); c = c.push((Language::TypeScript, sc as nat)); }
    best = nb;

    let sc = score_go(&s);
    let nb = pick(best, Language::Go, sc);
    proof { lemma_pick_step(best, nb, c, Language::Go, sc); c = c.push((Language::Go, sc as nat)); }
    best = nb;

    let sc = score_c(&s);
    let nb = pick(best, Language::C, sc);
    proof { lemma_pick_step(best, nb, c, Language::C, sc); c = c.push((Language::C, sc as nat)); }
    best = nb;

    let sc = score_cpp(&s);
    let nb = pick(best, Language::Cpp, sc);
    proof { lemma_pick_step(best, nb, c, Language::Cpp, sc); c = c.push((Language::Cpp, sc as nat)); }
    best = nb;

    let sc = score_ruby(&s);
    let nb = pick(best, Language::Ruby, sc);
    proof { lemma_pick_step(best, nb, c, Language::Ruby, sc); c = c.push((Language::Ruby, sc as nat)); }
    best = nb;

    let sc = score_elixir(&s);
    let nb = pick(best, Language::Elixir, sc);
    proof { lemma_pick_step(best, nb, c, Language::Elixir, sc); c = c.push((Language::Elixir, sc as nat)); }
    best = nb;

    let sc = score_erlang(&s);
    let nb = pick(best, Language::Erlang, sc);
    proof { lemma_pick_step(best, nb, c, Language::Erlang, sc); c = c.push((Language::Erlang, sc as nat)); }
    best = nb;

    let sc = score_html(&s);
    let nb = pick(best, Language::Html, sc);
    proof { lemma_pick_step(best, nb, c, Language::Html, sc); c = c.push((Language::Html, sc as nat)); }
    best = nb;

    let sc = score_yaml(&s);
    let nb = pick(best, Language::Yaml, sc);
    proof { lemma_pick_step(best, nb, c, Language::Yaml, sc); c = c.push((Language::Yaml, sc as nat)); }
    best = nb;

    let sc = score_json(&s);
    let nb = pick(best, Language::Json, sc);
    proof { lemma_pick_step(best, nb, c, Language::Json, sc); c = c.push((Language::Json, sc as nat)); }
    best = nb;

    let sc = score_toml(&s);
    let nb = pick(best, Language::Toml, sc);
    proof { lemma_pick_step(best, nb, c, Language::Toml, sc); c = c.push((Language::Toml, sc as nat)); }
    best = nb;

    let sc = score_sql(&s);
    let nb = pick(best, Language::Sql, sc);
    proof { lemma_pick_step(best, nb, c, Language::Sql, sc); c = c.push((Language::Sql, sc as nat)); }
    best = nb;

    proof {
        assert(c =~= keyword_scores(sv));
    }
    match best {
        Some((l, _)) => Some(l),
        None => None,
    }
}

/// Detect the language of `text`: a shebang line decides first, keyword
/// heuristics otherwise.
pub fn language_from_content(text: &str) -> (r: Option<Language>)
    requires
        shebang_language(text@) is Some || keyword_sample_ok(text@),
    ensures
        r == content_language(text@),
{
    match detect_from_shebang(text) {
        Some(l) => Some(l),
        None => detect_from_keywords(text),
    }
}

/// Exec check of `keyword_sample_ok`: whether language detection can take
/// its 4096-byte sample of `text`.
pub fn keyword_sample_fits(text: &str) -> (r: bool)
    ensures
        r == keyword_sample_ok(text@),
{
    let s = chars_of(text);
    let mut i: usize = 0;
    let mut acc: usize = 0;
    while i < s.len() && acc < 4096
        invariant
            i <= s.len(),
            s@ == text@,
            acc == utf8_len(s@.take(i as int)),
            acc <= 4096 + 4,
            i > 0 ==> utf8_len(s@.take(i - 1)) < 4096,
        decreases s.len() - i,
    {
        proof {
            lemma_utf8_len_prefix_step(s@, i as int);
        }
        acc = acc + char_len_utf8(s[i]);
        i = i + 1;
    }
    proof {
        lemma_utf8_len_full(s@);
    }
    if acc < 4096 || acc == 4096 {
        assert(s@.take(i as int) == s@.take(i as int));
        assert(keyword_sample_ok(s@)) by {
            if utf8_len(s@) > 4096 {
                assert(utf8_len(s@.take(i as int)) == 4096);
            }
        }
        return true;
    }
    // acc > 4096 here: the boundary was stepped over.
    proof {
        assert(i > 0);
        assert forall|k: int| 0 <= k <= s@.len() implies utf8_len(#[trigger] s@.take(k)) != 4096 by {
            if k < i {
                if k < i - 1 {
                    lemma_utf8_len_prefix_mono(s@, k, i - 1);
                }
            } else if k > i {
                lemma_utf8_len_prefix_mono(s@, i as int, k);
            }
        }
        if i < s.len() {
            lemma_utf8_len_prefix_mono(s@, i as int, s.len() as int);
        }
    }
    false
}

/// Law: language names are non-empty, lower-case ASCII letters, and no two
/// languages share one (so the tokenizer names made from them never clash).
pub proof fn lemma_language_names_distinct(a: Language, b: Language)
    ensures
        language_name(a).len() > 0,
        forall|i: int| 0 <= i < language_name(a).len() ==> crate::textutil::is_ascii_lower(#[trigger] language_name(a)[i]),
        language_name(a) == language_name(b) ==> a == b,
{
    reveal_strlit("rust");
    reveal_strlit("python");
    reveal_strlit("javascript");
    reveal_strlit("typescript");
    reveal_strlit("go");
    reveal_strlit("c");
    reveal_strlit("cpp");
    reveal_strlit("ruby");
    reveal_strlit("elixir");
    reveal_strlit("erlang");
    reveal_strlit("bash");
    reveal_strlit("yaml");
    reveal_strlit("toml");
    reveal_strlit("json");
    reveal_strlit("html");
    reveal_strlit("sql");
    let na = language_name(a);
    let nb = language_name(b);
    if na == nb {
        assert(na[0] == nb[0]);
        if na.len() > 1 {
            assert(na[1] == nb[1]);
        }
        if na.len() > 2 {
            assert(na[2] == nb[2]);
        }
        if na.len() > 3 {
            assert(na[3] == nb[3]);
        }
    }
}

/// Law: the Rust keyword weights. Each keyword (or keyword group) found
/// in the sample adds its weight, so its presence guarantees at least that
/// score; the score never exceeds the sum of the weights, and is zero when
/// no keyword is found.
pub proof fn lemma_rust_weights(s: Seq<char>)
    ensures
        contains(s, "fn "@) ==> rust_score(s) >= 2,
        contains(s, "let "@) ==> rust_score(s) >= 2,
        contains(s, "let mut "@) ==> rust_score(s) >= 2,
        contains(s, "impl "@) ==> rust_score(s) >= 3,
        contains(s, "pub fn "@) ==> rust_score(s) >= 3,
        contains(s, "pub struct "@) ==> rust_score(s) >= 3,
        contains(s, "use std::"@) ==> rust_score(s) >= 3,
        contains(s, "use crate::"@) ==> rust_score(s) >= 3,
        contains(s, "-> Result<"@) ==> rust_score(s) >= 2,
        contains(s, "-> Option<"@) ==> rust_score(s) >= 2,
        rust_score(s) <= 15,
        !(contains(s, "fn "@)) && !(contains(s, "let "@) || contains(s, "let mut "@)) && !(contains(s, "impl "@)) && !(contains(s, "pub fn "@) || contains(s, "pub struct "@)) && !(contains(s, "use std::"@) || contains(s, "use crate::"@)) && !(contains(s, "-> Result<"@) || contains(s, "-> Option<"@)) ==> rust_score(s) == 0,
{
    reveal(rust_score);
}

/// Law: the Python keyword weights. Each keyword (or keyword group) found
/// in the sample adds its weight, so its presence guarantees at least that
/// score; the score never exceeds the sum of the weights, and is zero when
/// no keyword is found.
pub proof fn lemma_python_weights(s: Seq<char>)
    ensures
        contains(s, "def "@) ==> python_score(s) >= 2,
        contains(s, "import "@) ==> python_score(s) >= 1,
        contains(s, "class "@) && contains(s, "self"@) ==> python_score(s) >= 3,
        contains(s, "__init__"@) ==> python_score(s) >= 3,
        contains(s, "if __name__"@) ==> python_score(s) >= 4,
        python_score(s) <= 13,
        !(contains(s, "def "@)) && !(contains(s, "import "@)) && !(contains(s, "class "@) && contains(s, "self"@)) && !(contains(s, "__init__"@)) && !(contains(s, "if __name__"@)) ==> python_score(s) == 0,
{
    reveal(python_score);
}

/// Law: the JavaScript keyword weights. Each keyword (or keyword group) found
/// in the sample adds its weight, so its presence guarantees at least that
/// score; the score never exceeds the sum of the weights, and is zero when
/// no keyword is found.
pub proof fn lemma_javascript_weights(s: Seq<char>)
    ensures
        contains(s, "function "@) ==> javascript_score(s) >= 1,
        contains(s, "const "@) ==> javascript_score(s) >= 1,
        contains(s, "let "@) ==> javascript_score(s) >= 1,
        contains(s, "require("@) ==> javascript_score(s) >= 3,
        contains(s, "module.exports"@) ==> javascript_score(s) >= 4,
        contains(s, "console.log"@) ==> javascript_score(s) >= 2,
        contains(s, "=> {"@) ==> javascript_score(s) >= 1,
        contains(s, "=> ("@) ==> javascript_score(s) >= 1,
        javascript_score(s) <= 12,
        !(contains(s, "function "@)) && !(contains(s, "const "@) || contains(s, "let "@)) && !(contains(s, "require("@)) && !(contains(s, "module.exports"@)) && !(contains(s, "console.log"@)) && !(contains(s, "=> {"@) || contains(s, "=> ("@)) ==> javascript_score(s) == 0,
{
    reveal(javascript_score);
}

/// Law: the TypeScript keyword weights. Each keyword (or keyword group) found
/// in the sample adds its weight, so its presence guarantees at least that
/// score; the score never exceeds the sum of the weights, and is zero when
/// no keyword is found.
pub proof fn lemma_typescript_weights(s: Seq<char>)
    ensures
        contains(s, "interface "@) ==> typescript_score(s) >= 3,
        contains(s, ": string"@) ==> typescript_score(s) >= 3,
        contains(s, ": number"@) ==> typescript_score(s) >= 3,
        contains(s, ": boolean"@) ==> typescript_score(s) >= 3,
        contains(s, "export type "@) ==> typescript_score(s) >= 4,
        contains(s, "export interface "@) ==> typescript_score(s) >= 4,
        contains(s, "<T>"@) ==> typescript_score(s) >= 2,
        contains(s, "<T,"@) ==> typescript_score(s) >= 2,
        typescript_score(s) <= 12,
        !(contains(s, "interface "@)) && !(contains(s, ": string"@) || contains(s, ": number"@) || contains(s, ": boolean"@)) && !(contains(s, "export type "@) || contains(s, "export interface "@)) && !(contains(s, "<T>"@) || contains(s, "<T,"@)) ==> typescript_score(s) == 0,
{
    reveal(typescript_score);
}

/// Law: the Go keyword weights. Each keyword (or keyword group) found
/// in the sample adds its weight, so its presence guarantees at least that
/// score; the score never exceeds the sum of the weights, and is zero when
/// no keyword is found.
pub proof fn lemma_go_weights(s: Seq<char>)
    ensures
        contains(s, "func "@) ==> go_score(s) >= 2,
        contains(s, "package "@) ==> go_score(s) >= 3,
        contains(s, "go func"@) ==> go_score(s) >= 2,
        contains(s, "go "@) ==> go_score(s) >= 2,
        contains(s, "fmt."@) ==> go_score(s) >= 3,
        contains(s, ":= "@) ==> go_score(s) >= 2,
        go_score(s) <= 12,
        !(contains(s, "func "@)) && !(contains(s, "package "@)) && !(contains(s, "go func"@) || contains(s, "go "@)) && !(contains(s, "fmt."@)) && !(contains(s, ":= "@)) ==> go_score(s) == 0,
{
    reveal(go_score);
}

/// Law: the C keyword weights. Each keyword (or keyword group) found
/// in the sample adds its weight, so its presence guarantees at least that
/// score; the score never exceeds the sum of the weights, and is zero when
/// no keyword is found.
pub proof fn lemma_c_weights(s: Seq<char>)
    ensures
        contains(s, "#include"@) ==> c_score(s) >= 2,
        contains(s, "int main("@) ==> c_score(s) >= 3,
        contains(s, "printf("@) ==> c_score(s) >= 2,
        contains(s, "malloc("@) ==> c_score(s) >= 2,
        contains(s, "void "@) ==> c_score(s) >= 1,
        c_score(s) <= 8,
        !(contains(s, "#include"@)) && !(contains(s, "int main("@)) && !(contains(s, "printf("@) || contains(s, "malloc("@)) && !(contains(s, "void "@)) ==> c_score(s) == 0,
{
    reveal(c_score);
}

/// Law: the C++ keyword weights. Each keyword (or keyword group) found
/// in the sample adds its weight, so its presence guarantees at least that
/// score; the score never exceeds the sum of the weights, and is zero when
/// no keyword is found.
pub proof fn lemma_cpp_weights(s: Seq<char>)
    ensures
        contains(s, "#include"@) ==> cpp_score(s) >= 1,
        contains(s, "std::"@) ==> cpp_score(s) >= 3,
        contains(s, "class "@) && contains(s, "public:"@) ==> cpp_score(s) >= 4,
        contains(s, "template<"@) ==> cpp_score(s) >= 4,
        contains(s, "template <"@) ==> cpp_score(s) >= 4,
        contains(s, "namespace "@) ==> cpp_score(s) >= 3,
        cpp_score(s) <= 15,
        !(contains(s, "#include"@)) && !(contains(s, "std::"@)) && !(contains(s, "class "@) && contains(s, "public:"@)) && !(contains(s, "template<"@) || contains(s, "template <"@)) && !(contains(s, "namespace "@)) ==> cpp_score(s) == 0,
{
    reveal(cpp_score);
}

/// Law: the Ruby keyword weights. Each keyword (or keyword group) found
/// in the sample adds its weight, so its presence guarantees at least that
/// score; the score never exceeds the sum of the weights, and is zero when
/// no keyword is found.
pub proof fn lemma_ruby_weights(s: Seq<char>)
    ensures
        contains(s, "def "@) && contains(s, "end"@) ==> ruby_score(s) >= 2,
        contains(s, "require "@) ==> ruby_score(s) >= 3,
        contains(s, "require_relative"@) ==> ruby_score(s) >= 3,
        contains(s, "attr_accessor"@) ==> ruby_score(s) >= 4,
        contains(s, "attr_reader"@) ==> ruby_score(s) >= 4,
        contains(s, "puts "@) ==> ruby_score(s) >= 2,
        contains(s, ".each do"@) ==> ruby_score(s) >= 2,
        ruby_score(s) <= 11,
        !(contains(s, "def "@) && contains(s, "end"@)) && !(contains(s, "require "@) || contains(s, "require_relative"@)) && !(contains(s, "attr_accessor"@) || contains(s, "attr_reader"@)) && !(contains(s, "puts "@) || contains(s, ".each do"@)) ==> ruby_score(s) == 0,
{
    reveal(ruby_score);
}

/// Law: the Elixir keyword weights. Each keyword (or keyword group) found
/// in the sample adds its weight, so its presence guarantees at least that
/// score; the score never exceeds the sum of the weights, and is zero when
/// no keyword is found.
pub proof fn lemma_elixir_weights(s: Seq<char>)
    ensures
        contains(s, "defmodule "@) ==> elixir_score(s) >= 5,
        contains(s, "defp "@) ==> elixir_score(s) >= 1,
        contains(s, "def "@) ==> elixir_score(s) >= 1,
        contains(s, "|> "@) ==> elixir_score(s) >= 3,
        contains(s, "@spec"@) ==> elixir_score(s) >= 3,
        contains(s, "@doc"@) ==> elixir_score(s) >= 3,
        elixir_score(s) <= 12,
        !(contains(s, "defmodule "@)) && !(contains(s, "defp "@) || contains(s, "def "@)) && !(contains(s, "|> "@)) && !(contains(s, "@spec"@) || contains(s, "@doc"@)) ==> elixir_score(s) == 0,
{
    reveal(elixir_score);
}

/// Law: the Erlang keyword weights. Each keyword (or keyword group) found
/// in the sample adds its weight, so its presence guarantees at least that
/// score; the score never exceeds the sum of the weights, and is zero when
/// no keyword is found.
pub proof fn lemma_erlang_weights(s: Seq<char>)
    ensures
        contains(s, "-module("@) ==> erlang_score(s) >= 5,
        contains(s, "-export("@) ==> erlang_score(s) >= 4,
        contains(s, "->"@) && contains(s, "."@) ==> erlang_score(s) >= 2,
        erlang_score(s) <= 11,
        !(contains(s, "-module("@)) && !(contains(s, "-export("@)) && !(contains(s, "->"@) && contains(s, "."@)) ==> erlang_score(s) == 0,
{
    reveal(erlang_score);
}

/// Law: the HTML keyword weights. Each keyword (or keyword group) found
/// in the sample adds its weight, so its presence guarantees at least that
/// score; the score never exceeds the sum of the weights, and is zero when
/// no keyword is found.
pub proof fn lemma_html_weights(s: Seq<char>)
    ensures
        contains(s, "<!DOCTYPE"@) ==> html_score(s) >= 5,
        contains(s, "<!doctype"@) ==> html_score(s) >= 5,
        contains(s, "<html"@) ==> html_score(s) >= 4,
        contains(s, "<div"@) ==> html_score(s) >= 2,
        contains(s, "<span"@) ==> html_score(s) >= 2,
        html_score(s) <= 11,
        !(contains(s, "<!DOCTYPE"@) || contains(s, "<!doctype"@)) && !(contains(s, "<html"@)) && !(contains(s, "<div"@) || contains(s, "<span"@)) ==> html_score(s) == 0,
{
    reveal(html_score);
}

/// Law: the YAML keyword weights. Each keyword (or keyword group) found
/// in the sample adds its weight, so its presence guarantees at least that
/// score; the score never exceeds the sum of the weights, and is zero when
/// no keyword is found.
pub proof fn lemma_yaml_weights(s: Seq<char>)
    ensures
        starts_with(s, "---\n"@) ==> yaml_score(s) >= 4,
        starts_with(s, "---\r\n"@) ==> yaml_score(s) >= 4,
        yaml_score(s) <= 4,
        !(starts_with(s, "---\n"@) || starts_with(s, "---\r\n"@)) ==> yaml_score(s) == 0,
{
    reveal(yaml_score);
}

/// Law: the JSON keyword weights. Each keyword (or keyword group) found
/// in the sample adds its weight, so its presence guarantees at least that
/// score; the score never exceeds the sum of the weights, and is zero when
/// no keyword is found.
pub proof fn lemma_json_weights(s: Seq<char>)
    ensures
        (starts_with(trim(s), "{"@) || starts_with(trim(s), "["@)) && !contains(trim(s), "function "@) && !contains(trim(s), "const "@) ==> json_score(s) >= 3,
        json_score(s) <= 3,
        !((starts_with(trim(s), "{"@) || starts_with(trim(s), "["@)) && !contains(trim(s), "function "@) && !contains(trim(s), "const "@)) ==> json_score(s) == 0,
{
    reveal(json_score);
}

/// Law: the TOML keyword weights. Each keyword (or keyword group) found
/// in the sample adds its weight, so its presence guarantees at least that
/// score; the score never exceeds the sum of the weights, and is zero when
/// no keyword is found.
pub proof fn lemma_toml_weights(s: Seq<char>)
    ensures
        contains(s, "[package]"@) ==> toml_score(s) >= 5,
        contains(s, "[dependencies]"@) ==> toml_score(s) >= 5,
        contains(s, "[workspace]"@) ==> toml_score(s) >= 5,
        toml_score(s) <= 10,
        !(contains(s, "[package]"@) || contains(s, "[dependencies]"@)) && !(contains(s, "[workspace]"@)) ==> toml_score(s) == 0,
{
    reveal(toml_score);
}

/// Law: the SQL keyword weights. Each keyword (or keyword group) found
/// in the sample adds its weight, so its presence guarantees at least that
/// score; the score never exceeds the sum of the weights, and is zero when
/// no keyword is found.
pub proof fn lemma_sql_weights(s: Seq<char>)
    ensures
        contains(uppercase(s), "SELECT "@) ==> sql_score(s) >= 2,
        contains(uppercase(s), "CREATE TABLE"@) ==> sql_score(s) >= 4,
        contains(uppercase(s), "INSERT INTO"@) ==> sql_score(s) >= 3,
        contains(uppercase(s), "ALTER TABLE"@) ==> sql_score(s) >= 4,
        contains(uppercase(s), "JOIN "@) && contains(uppercase(s), "ON "@) ==> sql_score(s) >= 3,
        contains(uppercase(s), "WHERE "@) ==> sql_score(s) >= 1,
        sql_score(s) <= 17,
        !(contains(uppercase(s), "SELECT "@)) && !(contains(uppercase(s), "CREATE TABLE"@)) && !(contains(uppercase(s), "INSERT INTO"@)) && !(contains(uppercase(s), "ALTER TABLE"@)) && !(contains(uppercase(s), "JOIN "@) && contains(uppercase(s), "ON "@)) && !(contains(uppercase(s), "WHERE "@)) ==> sql_score(s) == 0,
{
    reveal(sql_score);
}

/// The file extensions of each language (lower case).
pub open spec fn language_extensions(l: Language) -> Seq<Seq<char>> {
    match l {
        Language::Rust => seq!["rs"@],
        Language::Python => seq!["py"@, "pyw"@, "pyi"@],
        Language::JavaScript => seq!["js"@, "jsx"@, "mjs"@, "cjs"@],
        Language::TypeScript => seq!["ts"@, "tsx"@, "mts"@, "cts"@],
        Language::Go => seq!["go"@],
        Language::C => seq!["c"@, "h"@],
        Language::Cpp => seq!["cpp"@, "cc"@, "cxx"@, "hpp"@, "hxx"@, "hh"@],
        Language::Ruby => seq!["rb"@, "rake"@, "gemspec"@],
        Language::Elixir => seq!["ex"@, "exs"@],
        Language::Erlang => seq!["erl"@, "hrl"@],
        Language::Bash => seq!["sh"@, "bash"@, "zsh"@],
        Language::Yaml => seq!["yaml"@, "yml"@],
        Language::Toml => seq!["toml"@],
        Language::Json => seq!["json"@, "jsonl"@],
        Language::Html => seq!["html"@, "htm"@],
        Language::Sql => seq!["sql"@, "ddl"@, "dml"@],
    }
}

/// Each extension listed for a language looks up to that language.
#[verifier::rlimit(60)]
#[verifier::spinoff_prover]
proof fn lemma_listed_extensions_resolve(l: Language)
    ensures
        forall|i: int| 0 <= i < language_extensions(l).len() ==> extension_language(#[trigger] language_extensions(l)[i]) == Some(l),
{
    match l {
        Language::Rust => {
            assert(extension_language("rs"@) == Some(Language::Rust)) by {
                reveal_strlit("rs");
            }
        },
        Language::Python => {
            assert(extension_language("py"@) == Some(Language::Python)) by {
                reveal_strlit("rs"); reveal_strlit("py");
                assert(
                    "py"@[0] != "rs"@[0]
                );
            }
            assert(extension_language("pyw"@) == Some(Language::Python)) by {
                reveal_strlit("rs"); reveal_strlit("py"); reveal_strlit("pyw");
                assert(
                    "pyw"@.len() != "rs"@.len() && "pyw"@.len() != "py"@.len()
                );
            }
            assert(extension_language("pyi"@) == Some(Language::Python)) by {
                reveal_strlit("rs"); reveal_strlit("py"); reveal_strlit("pyw");
                reveal_strlit("pyi");
                assert(
                    "pyi"@.len() != "rs"@.len() && "pyi"@.len() != "py"@.len() &&
                    "pyi"@[2] != "pyw"@[2]
                );
            }
        },
        Language::JavaScript => {
            assert(extension_language("js"@) == Some(Language::JavaScript)) by {
                reveal_strlit("rs"); reveal_strlit("py"); reveal_strlit("pyw");
                reveal_strlit("pyi"); reveal_strlit("js");
                assert(
                    "js"@[0] != "rs"@[0] && "js"@[0] != "py"@[0] && "js"@.len() != "pyw"@.len() &&
                    "js"@.len() != "pyi"@.len()
                );
            }
            assert(extension_language("jsx"@) == Some(Language::JavaScript)) by {
                reveal_strlit("rs"); reveal_strlit("py"); reveal_strlit("pyw");
                reveal_strlit("pyi"); reveal_strlit("js"); reveal_strlit("jsx");
                assert(
                    "jsx"@.len() != "rs"@.len() && "jsx"@.len() != "py"@.len() &&
                    "jsx"@[0] != "pyw"@[0] && "jsx"@[0] != "pyi"@[0] &&
                    "jsx"@.len() != "js"@.len()
                );
            }
            assert(extension_language("mjs"@) == Some(Language::JavaScript)) by {
                reveal_strlit("rs"); reveal_strlit("py"); reveal_strlit("pyw");
                reveal_strlit("pyi"); reveal_strlit("js"); reveal_strlit("jsx");
                reveal_strlit("mjs");
                assert(
                    "mjs"@.len() != "rs"@.len() && "mjs"@.len() != "py"@.len() &&
                    "mjs"@[0] != "pyw"@[0] && "mjs"@[0] != "pyi"@[0] &&
                    "mjs"@.len() != "js"@.len() && "mjs"@[0] != "jsx"@[0]
                );
            }
            assert(extension_language("cjs"@) == Some(Language::JavaScript)) by {
                reveal_strlit("rs"); reveal_strlit("py"); reveal_strlit("pyw");
                reveal_strlit("pyi"); reveal_strlit("js"); reveal_strlit("jsx");
                reveal_strlit("mjs"); reveal_strlit("cjs");
                assert(
                    "cjs"@.len() != "rs"@.len() && "cjs"@.len() != "py"@.len() &&
                    "cjs"@[0] != "pyw"@[0] && "cjs"@[0] != "pyi"@[0] &&
                    "cjs"@.len() != "js"@.len() && "cjs"@[0] != "jsx"@[0] &&
                    "cjs"@[0] != "mjs"@[0]
                );
            }
        },
        Language::TypeScript => {
            assert(extension_language("ts"@) == Some(Language::TypeScript)) by {
                reveal_strlit("rs"); reveal_strlit("py"); reveal_strlit("pyw");
                reveal_strlit("pyi"); reveal_strlit("js"); reveal_strlit("jsx");
                reveal_strlit("mjs"); reveal_strlit("cjs"); reveal_strlit("ts");
                assert(
                    "ts"@[0] != "rs"@[0] && "ts"@[0] != "py"@[0] && "ts"@.len() != "pyw"@.len() &&
                    "ts"@.len() != "pyi"@.len() && "ts"@[0] != "js"@[0] &&
                    "ts"@.len() != "jsx"@.len() && "ts"@.len() != "mjs"@.len() &&
                    "ts"@.len() != "cjs"@.len()
                );
            }
            assert(extension_language("tsx"@) == Some(Language::TypeScript)) by {
                reveal_strlit("rs"); reveal_strlit("py"); reveal_strlit("pyw");
                reveal_strlit("pyi"); reveal_strlit("js"); reveal_strlit("jsx");
                reveal_strlit("mjs"); reveal_strlit("cjs"); reveal_strlit("ts");
                reveal_strlit("tsx");
                assert(
                    "tsx"@.len() != "rs"@.len() && "tsx"@.len() != "py"@.len() &&
                    "tsx"@[0] != "pyw"@[0] && "tsx"@[0] != "pyi"@[0] &&
                    "tsx"@.len() != "js"@.len() && "tsx"@[0] != "jsx"@[0] &&
                    "tsx"@[0] != "mjs"@[0] && "tsx"@[0] != "cjs"@[0] &&
                    "tsx"@.len() != "ts"@.len()
                );
            }
            assert(extension_language("mts"@) == Some(Language::TypeScript)) by {
                reveal_strlit("rs"); reveal_strlit("py"); reveal_strlit("pyw");
                reveal_strlit("pyi"); reveal_strlit("js"); reveal_strlit("jsx");
                reveal_strlit("mjs"); reveal_strlit("cjs"); reveal_strlit("ts");
                reveal_strlit("tsx"); reveal_strlit("mts");
                assert(
                    "mts"@.len() != "rs"@.len() && "mts"@.len() != "py"@.len() &&
                    "mts"@[0] != "pyw"@[0] && "mts"@[0] != "pyi"@[0] &&
                    "mts"@.len() != "js"@.len() && "mts"@[0] != "jsx"@[0] &&
                    "mts"@[1] != "mjs"@[1] && "mts"@[0] != "cjs"@[0] &&
                    "mts"@.len() != "ts"@.len() && "mts"@[0] != "tsx"@[0]
                );
            }
            assert(extension_language("cts"@) == Some(Language::TypeScript)) by {
                reveal_strlit("rs"); reveal_strlit("py"); reveal_strlit("pyw");
                reveal_strlit("pyi"); reveal_strlit("js"); reveal_strlit("jsx");
                reveal_strlit("mjs"); reveal_strlit("cjs"); reveal_strlit("ts");
                reveal_strlit("tsx"); reveal_strlit("mts"); reveal_strlit("cts");
                assert(
                    "cts"@.len() != "rs"@.len() && "cts"@.len() != "py"@.len() &&
                    "cts"@[0] != "pyw"@[0] && "cts"@[0] != "pyi"@[0] &&
                    "cts"@.len() != "js"@.len() && "cts"@[0] != "jsx"@[0] &&
                    "cts"@[0] != "mjs"@[0] && "cts"@[1] != "cjs"@[1] &&
                    "cts"@.len() != "ts"@.len() && "cts"@[0] != "tsx"@[0] &&
                    "cts"@[0] != "mts"@[0]
                );
            }
        },
        Language::Go => {
            assert(extension_language("go"@) == Some(Language::Go)) by {
                reveal_strlit("rs"); reveal_strlit("py"); reveal_strlit("pyw");
                reveal_strlit("pyi"); reveal_strlit("js"); reveal_strlit("jsx");
                reveal_strlit("mjs"); reveal_strlit("cjs"); reveal_strlit("ts");
                reveal_strlit("tsx"); reveal_strlit("mts"); reveal_strlit("cts");
                reveal_strlit("go");
                assert(
                    "go"@[0] != "rs"@[0] && "go"@[0] != "py"@[0] && "go"@.len() != "pyw"@.len() &&
                    "go"@.len() != "pyi"@.len() && "go"@[0] != "js"@[0] &&
                    "go"@.len() != "jsx"@.len() && "go"@.len() != "mjs"@.len() &&
                    "go"@.len() != "cjs"@.len() && "go"@[0] != "ts"@[0] &&
                    "go"@.len() != "tsx"@.len() && "go"@.len() != "mts"@.len() &&
                    "go"@.len() != "cts"@.len()
                );
            }
        },
        Language::C => {
            assert(extension_language("c"@) == Some(Language::C)) by {
                reveal_strlit("rs"); reveal_strlit("py"); reveal_strlit("pyw");
                reveal_strlit("pyi"); reveal_strlit("js"); reveal_strlit("jsx");
                reveal_strlit("mjs"); reveal_strlit("cjs"); reveal_strlit("ts");
                reveal_strlit("tsx"); reveal_strlit("mts"); reveal_strlit("cts");
                reveal_strlit("go"); reveal_strlit("c");
                assert(
                    "c"@.len() != "rs"@.len() && "c"@.len() != "py"@.len() &&
                    "c"@.len() != "pyw"@.len() && "c"@.len() != "pyi"@.len() &&
                    "c"@.len() != "js"@.len() && "c"@.len() != "jsx"@.len() &&
                    "c"@.len() != "mjs"@.len() && "c"@.len() != "cjs"@.len() &&
                    "c"@.len() != "ts"@.len() && "c"@.len() != "tsx"@.len() &&
                    "c"@.len() != "mts"@.len() && "c"@.len() != "cts"@.len() &&
                    "c"@.len() != "go"@.len()
                );
            }
            assert(extension_language("h"@) == Some(Language::C)) by {
                reveal_strlit("rs"); reveal_strlit("py"); reveal_strlit("pyw");
                reveal_strlit("pyi"); reveal_strlit("js"); reveal_strlit("jsx");
                reveal_strlit("mjs"); reveal_strlit("cjs"); reveal_strlit("ts");
                reveal_strlit("tsx"); reveal_strlit("mts"); reveal_strlit("cts");
                reveal_strlit("go"); reveal_strlit("c"); reveal_strlit("h");
                assert(
                    "h"@.len() != "rs"@.len() && "h"@.len() != "py"@.len() &&
                    "h"@.len() != "pyw"@.len() && "h"@.len() != "pyi"@.len() &&
                    "h"@.len() != "js"@.len() && "h"@.len() != "jsx"@.len() &&
                    "h"@.len() != "mjs"@.len() && "h"@.len() != "cjs"@.len() &&
                    "h"@.len() != "ts"@.len() && "h"@.len() != "tsx"@.len() &&
                    "h"@.len() != "mts"@.len() && "h"@.len() != "cts"@.len() &&
                    "h"@.len() != "go"@.len() && "h"@[0] != "c"@[0]
                );
            }
        },
        Language::Cpp => {
            assert(extension_language("cpp"@) == Some(Language::Cpp)) by {
                reveal_strlit("rs"); reveal_strlit("py"); reveal_strlit("pyw");
                reveal_strlit("pyi"); reveal_strlit("js"); reveal_strlit("jsx");
                reveal_strlit("mjs"); reveal_strlit("cjs"); reveal_strlit("ts");
                reveal_strlit("tsx"); reveal_strlit("mts"); reveal_strlit("cts");
                reveal_strlit("go"); reveal_strlit("c"); reveal_strlit("h");
                reveal_strlit("cpp");
                assert(
                    "cpp"@.len() != "rs"@.len() && "cpp"@.len() != "py"@.len() &&
                    "cpp"@[0] != "pyw"@[0] && "cpp"@[0] != "pyi"@[0] &&
                    "cpp"@.len() != "js"@.len() && "cpp"@[0] != "jsx"@[0] &&
                    "cpp"@[0] != "mjs"@[0] && "cpp"@[1] != "cjs"@[1] &&
                    "cpp"@.len() != "ts"@.len() && "cpp"@[0] != "tsx"@[0] &&
                    "cpp"@[0] != "mts"@[0] && "cpp"@[1] != "cts"@[1] &&
                    "cpp"@.len() != "go"@.len() && "cpp"@.len() != "c"@.len() &&
                    "cpp"@.len() != "h"@.len()
                );
            }
            assert(extension_language("cc"@) == Some(Language::Cpp)) by {
                reveal_strlit("rs"); reveal_strlit("py"); reveal_strlit("pyw");
                reveal_strlit("pyi"); reveal_strlit("js"); reveal_strlit("jsx");
                reveal_strlit("mjs"); reveal_strlit("cjs"); reveal_strlit("ts");
                reveal_strlit("tsx"); reveal_strlit("mts"); reveal_strlit("cts");
                reveal_strlit("go"); reveal_strlit("c"); reveal_strlit("h");
                reveal_strlit("cpp"); reveal_strlit("cc");
                assert(
                    "cc"@[0] != "rs"@[0] && "cc"@[0] != "py"@[0] && "cc"@.len() != "pyw"@.len() &&
                    "cc"@.len() != "pyi"@.len() && "cc"@[0] != "js"@[0] &&
                    "cc"@.len() != "jsx"@.len() && "cc"@.len() != "mjs"@.len() &&
                    "cc"@.len() != "cjs"@.len() && "cc"@[0] != "ts"@[0] &&
                    "cc"@.len() != "tsx"@.len() && "cc"@.len() != "mts"@.len() &&
                    "cc"@.len() != "cts"@.len() && "cc"@[0] != "go"@[0] &&
                    "cc"@.len() != "c"@.len() && "cc"@.len() != "h"@.len() &&
                    "cc"@.len() != "cpp"@.len()
                );
            }
            assert(extension_language("cxx"@) == Some(Language::Cpp)) by {
                reveal_strlit("rs"); reveal_strlit("py"); reveal_strlit("pyw");
                reveal_strlit("pyi"); reveal_strlit("js"); reveal_strlit("jsx");
                reveal_strlit("mjs"); reveal_strlit("cjs"); reveal_strlit("ts");
                reveal_strlit("tsx"); reveal_strlit("mts"); reveal_strlit("cts");
                reveal_strlit("go"); reveal_strlit("c"); reveal_strlit("h");
                reveal_strlit("cpp"); reveal_strlit("cc"); reveal_strlit("cxx");
                assert(
                    "cxx"@.len() != "rs"@.len() && "cxx"@.len() != "py"@.len() &&
                    "cxx"@[0] != "pyw"@[0] && "cxx"@[0] != "pyi"@[0] &&
                    "cxx"@.len() != "js"@.len() && "cxx"@[0] != "jsx"@[0] &&
                    "cxx"@[0] != "mjs"@[0] && "cxx"@[1] != "cjs"@[1] &&
                    "cxx"@.len() != "ts"@.len() && "cxx"@[0] != "tsx"@[0] &&
                    "cxx"@[0] != "mts"@[0] && "cxx"@[1] != "cts"@[1] &&
                    "cxx"@.len() != "go"@.len() && "cxx"@.len() != "c"@.len() &&
                    "cxx"@.len() != "h"@.len() && "cxx"@[1] != "cpp"@[1] &&
                    "cxx"@.len() != "cc"@.len()
                );
            }
            assert(extension_language("hpp"@) == Some(Language::Cpp)) by {
                reveal_strlit("rs"); reveal_strlit("py"); reveal_strlit("pyw");
                reveal_strlit("pyi"); reveal_strlit("js"); reveal_strlit("jsx");
                reveal_strlit("mjs"); reveal_strlit("cjs"); reveal_strlit("ts");
                reveal_strlit("tsx"); reveal_strlit("mts"); reveal_strlit("cts");
                reveal_strlit("go"); reveal_strlit("c"); reveal_strlit("h");
                reveal_strlit("cpp"); reveal_strlit("cc"); reveal_strlit("cxx");
                reveal_strlit("hpp");
                assert(
                    "hpp"@.len() != "rs"@.len() && "hpp"@.len() != "py"@.len() &&
                    "hpp"@[0] != "pyw"@[0] && "hpp"@[0] != "pyi"@[0] &&
                    "hpp"@.len() != "js"@.len() && "hpp"@[0] != "jsx"@[0] &&
                    "hpp"@[0] != "mjs"@[0] && "hpp"@[0] != "cjs"@[0] &&
                    "hpp"@.len() != "ts"@.len() && "hpp"@[0] != "tsx"@[0] &&
                    "hpp"@[0] != "mts"@[0] && "hpp"@[0] != "cts"@[0] &&
                    "hpp"@.len() != "go"@.len() && "hpp"@.len() != "c"@.len() &&
                    "hpp"@.len() != "h"@.len() && "hpp"@[0] != "cpp"@[0] &&
                    "hpp"@.len() != "cc"@.len() && "hpp"@[0] != "cxx"@[0]
                );
            }
            assert(extension_language("hxx"@) == Some(Language::Cpp)) by {
                reveal_strlit("rs"); reveal_strlit("py"); reveal_strlit("pyw");
                reveal_strlit("pyi"); reveal_strlit("js"); reveal_strlit("jsx");
                reveal_strlit("mjs"); reveal_strlit("cjs"); reveal_strlit("ts");
                reveal_strlit("tsx"); reveal_strlit("mts"); reveal_strlit("cts");
                reveal_strlit("go"); reveal_strlit("c"); reveal_strlit("h");
                reveal_strlit("cpp"); reveal_strlit("cc"); reveal_strlit("cxx");
                reveal_strlit("hpp"); reveal_strlit("hxx");
                assert(
                    "hxx"@.len() != "rs"@.len() && "hxx"@.len() != "py"@.len() &&
                    "hxx"@[0] != "pyw"@[0] && "hxx"@[0] != "pyi"@[0] &&
                    "hxx"@.len() != "js"@.len() && "hxx"@[0] != "jsx"@[0] &&
                    "hxx"@[0] != "mjs"@[0] && "hxx"@[0] != "cjs"@[0] &&
                    "hxx"@.len() != "ts"@.len() && "hxx"@[0] != "tsx"@[0] &&
                    "hxx"@[0] != "mts"@[0] && "hxx"@[0] != "cts"@[0] &&
                    "hxx"@.len() != "go"@.len() && "hxx"@.len() != "c"@.len() &&
                    "hxx"@.len() != "h"@.len() && "hxx"@[0] != "cpp"@[0] &&
                    "hxx"@.len() != "cc"@.len() && "hxx"@[0] != "cxx"@[0] &&
                    "hxx"@[1] != "hpp"@[1]
                );
            }
            assert(extension_language("hh"@) == Some(Language::Cpp)) by {
                reveal_strlit("rs"); reveal_strlit("py"); reveal_strlit("pyw");
                reveal_strlit("pyi"); reveal_strlit("js"); reveal_strlit("jsx");
                reveal_strlit("mjs"); reveal_strlit("cjs"); reveal_strlit("ts");
                reveal_strlit("tsx"); reveal_strlit("mts"); reveal_strlit("cts");
                reveal_strlit("go"); reveal_strlit("c"); reveal_strlit("h");
                reveal_strlit("cpp"); reveal_strlit("cc"); reveal_strlit("cxx");
                reveal_strlit("hpp"); reveal_strlit("hxx"); reveal_strlit("hh");
                assert(
                    "hh"@[0] != "rs"@[0] && "hh"@[0] != "py"@[0] && "hh"@.len() != "pyw"@.len() &&
                    "hh"@.len() != "pyi"@.len() && "hh"@[0] != "js"@[0] &&
                    "hh"@.len() != "jsx"@.len() && "hh"@.len() != "mjs"@.len() &&
                    "hh"@.len() != "cjs"@.len() && "hh"@[0] != "ts"@[0] &&
                    "hh"@.len() != "tsx"@.len() && "hh"@.len() != "mts"@.len() &&
                    "hh"@.len() != "cts"@.len() && "hh"@[0] != "go"@[0] &&
                    "hh"@.len() != "c"@.len() && "hh"@.len() != "h"@.len() &&
                    "hh"@.len() != "cpp"@.len() && "hh"@[0] != "cc"@[0] &&
                    "hh"@.len() != "cxx"@.len() && "hh"@.len() != "hpp"@.len() &&
                    "hh"@.len() != "hxx"@.len()
                );
            }
        },
        Language::Ruby => {
            assert(extension_language("rb"@) == Some(Language::Ruby)) by {
                reveal_strlit("rs"); reveal_strlit("py"); reveal_strlit("pyw");
                reveal_strlit("pyi"); reveal_strlit("js"); reveal_strlit("jsx");
                reveal_strlit("mjs"); reveal_strlit("cjs"); reveal_strlit("ts");
                reveal_strlit("tsx"); reveal_strlit("mts"); reveal_strlit("cts");
                reveal_strlit("go"); reveal_strlit("c"); reveal_strlit("h");
                reveal_strlit("cpp"); reveal_strlit("cc"); reveal_strlit("cxx");
                reveal_strlit("hpp"); reveal_strlit("hxx"); reveal_strlit("hh");
                reveal_strlit("rb");
                assert(
                    "rb"@[1] != "rs"@[1] && "rb"@[0] != "py"@[0] && "rb"@.len() != "pyw"@.len() &&
                    "rb"@.len() != "pyi"@.len() && "rb"@[0] != "js"@[0] &&
                    "rb"@.len() != "jsx"@.len() && "rb"@.len() != "mjs"@.len() &&
                    "rb"@.len() != "cjs"@.len() && "rb"@[0] != "ts"@[0] &&
                    "rb"@.len() != "tsx"@.len() && "rb"@.len() != "mts"@.len() &&
                    "rb"@.len() != "cts"@.len() && "rb"@[0] != "go"@[0] &&
                    "rb"@.len() != "c"@.len() && "rb"@.len() != "h"@.len() &&
                    "rb"@.len() != "cpp"@.len() && "rb"@[0] != "cc"@[0] &&
                    "rb"@.len() != "cxx"@.len() && "rb"@.len() != "hpp"@.len() &&
                    "rb"@.len() != "hxx"@.len() && "rb"@[0] != "hh"@[0]
                );
            }
            assert(extension_language("rake"@) == Some(Language::Ruby)) by {
                reveal_strlit("rs"); reveal_strlit("py"); reveal_strlit("pyw");
                reveal_strlit("pyi"); reveal_strlit("js"); reveal_strlit("jsx");
                reveal_strlit("mjs"); reveal_strlit("cjs"); reveal_strlit("ts");
                reveal_strlit("tsx"); reveal_strlit("mts"); reveal_strlit("cts");
                reveal_strlit("go"); reveal_strlit("c"); reveal_strlit("h");
                reveal_strlit("cpp"); reveal_strlit("cc"); reveal_strlit("cxx");
                reveal_strlit("hpp"); reveal_strlit("hxx"); reveal_strlit("hh");
                reveal_strlit("rb"); reveal_strlit("rake");
                assert(
                    "rake"@.len() != "rs"@.len() && "rake"@.len() != "py"@.len() &&
                    "rake"@.len() != "pyw"@.len() && "rake"@.len() != "pyi"@.len() &&
                    "rake"@.len() != "js"@.len() && "rake"@.len() != "jsx"@.len() &&
                    "rake"@.len() != "mjs"@.len() && "rake"@.len() != "cjs"@.len() &&
                    "rake"@.len() != "ts"@.len() && "rake"@.len() != "tsx"@.len() &&
                    "rake"@.len() != "mts"@.len() && "rake"@.len() != "cts"@.len() &&
                    "rake"@.len() != "go"@.len() && "rake"@.len() != "c"@.len() &&
                    "rake"@.len() != "h"@.len() && "rake"@.len() != "cpp"@.len() &&
                    "rake"@.len() != "cc"@.len() && "rake"@.len() != "cxx"@.len() &&
                    "rake"@.len() != "hpp"@.len() && "rake"@.len() != "hxx"@.len() &&
                    "rake"@.len() != "hh"@.len() && "rake"@.len() != "rb"@.len()
                );
            }
            assert(extension_language("gemspec"@) == Some(Language::Ruby)) by {
                reveal_strlit("rs"); reveal_strlit("py"); reveal_strlit("pyw");
                reveal_strlit("pyi"); reveal_strlit("js"); reveal_strlit("jsx");
                reveal_strlit("mjs"); reveal_strlit("cjs"); reveal_strlit("ts");
                reveal_strlit("tsx"); reveal_strlit("mts"); reveal_strlit("cts");
                reveal_strlit("go"); reveal_strlit("c"); reveal_strlit("h");
                reveal_strlit("cpp"); reveal_strlit("cc"); reveal_strlit("cxx");
                reveal_strlit("hpp"); reveal_strlit("hxx"); reveal_strlit("hh");
                reveal_strlit("rb"); reveal_strlit("rake"); reveal_strlit("gemspec");
                assert(
                    "gemspec"@.len() != "rs"@.len() && "gemspec"@.len() != "py"@.len() &&
                    "gemspec"@.len() != "pyw"@.len() && "gemspec"@.len() != "pyi"@.len() &&
                    "gemspec"@.len() != "js"@.len() && "gemspec"@.len() != "jsx"@.len() &&
                    "gemspec"@.len() != "mjs"@.len() && "gemspec"@.len() != "cjs"@.len() &&
                    "gemspec"@.len() != "ts"@.len() && "gemspec"@.len() != "tsx"@.len() &&
                    "gemspec"@.len() != "mts"@.len() && "gemspec"@.len() != "cts"@.len() &&
                    "gemspec"@.len() != "go"@.len() && "gemspec"@.len() != "c"@.len() &&
                    "gemspec"@.len() != "h"@.len() && "gemspec"@.len() != "cpp"@.len() &&
                    "gemspec"@.len() != "cc"@.len() && "gemspec"@.len() != "cxx"@.len() &&
                    "gemspec"@.len() != "hpp"@.len() && "gemspec"@.len() != "hxx"@.len() &&
                    "gemspec"@.len() != "hh"@.len() && "gemspec"@.len() != "rb"@.len() &&
                    "gemspec"@.len() != "rake"@.len()
                );
            }
        },
        Language::Elixir => {
            assert(extension_language("ex"@) == Some(Language::Elixir)) by {
                reveal_strlit("rs"); reveal_strlit("py"); reveal_strlit("pyw");
                reveal_strlit("pyi"); reveal_strlit("js"); reveal_strlit("jsx");
                reveal_strlit("mjs"); reveal_strlit("cjs"); reveal_strlit("ts");
                reveal_strlit("tsx"); reveal_strlit("mts"); reveal_strlit("cts");
                reveal_strlit("go"); reveal_strlit("c"); reveal_strlit("h");
                reveal_strlit("cpp"); reveal_strlit("cc"); reveal_strlit("cxx");
                reveal_strlit("hpp"); reveal_strlit("hxx"); reveal_strlit("hh");
                reveal_strlit("rb"); reveal_strlit("rake"); reveal_strlit("gemspec");
                reveal_strlit("ex");
                assert(
                    "ex"@[0] != "rs"@[0] && "ex"@[0] != "py"@[0] && "ex"@.len() != "pyw"@.len() &&
                    "ex"@.len() != "pyi"@.len() && "ex"@[0] != "js"@[0] &&
                    "ex"@.len() != "jsx"@.len() && "ex"@.len() != "mjs"@.len() &&
                    "ex"@.len() != "cjs"@.len() && "ex"@[0] != "ts"@[0] &&
                    "ex"@.len() != "tsx"@.len() && "ex"@.len() != "mts"@.len() &&
                    "ex"@.len() != "cts"@.len() && "ex"@[0] != "go"@[0] &&
                    "ex"@.len() != "c"@.len() && "ex"@.len() != "h"@.len() &&
                    "ex"@.len() != "cpp"@.len() && "ex"@[0] != "cc"@[0] &&
                    "ex"@.len() != "cxx"@.len() && "ex"@.len() != "hpp"@.len() &&
                    "ex"@.len() != "hxx"@.len() && "ex"@[0] != "hh"@[0] && "ex"@[0] != "rb"@[0] &&
                    "ex"@.len() != "rake"@.len() && "ex"@.len() != "gemspec"@.len()
                );
            }
            assert(extension_language("exs"@) == Some(Language::Elixir)) by {
                reveal_strlit("rs"); reveal_strlit("py"); reveal_strlit("pyw");
                reveal_strlit("pyi"); reveal_strlit("js"); reveal_strlit("jsx");
                reveal_strlit("mjs"); reveal_strlit("cjs"); reveal_strlit("ts");
                reveal_strlit("tsx"); reveal_strlit("mts"); reveal_strlit("cts");
                reveal_strlit("go"); reveal_strlit("c"); reveal_strlit("h");
                reveal_strlit("cpp"); reveal_strlit("cc"); reveal_strlit("cxx");
                reveal_strlit("hpp"); reveal_strlit("hxx"); reveal_strlit("hh");
                reveal_strlit("rb"); reveal_strlit("rake"); reveal_strlit("gemspec");
                reveal_strlit("ex"); reveal_strlit("exs");
                assert(
                    "exs"@.len() != "rs"@.len() && "exs"@.len() != "py"@.len() &&
                    "exs"@[0] != "pyw"@[0] && "exs"@[0] != "pyi"@[0] &&
                    "exs"@.len() != "js"@.len() && "exs"@[0] != "jsx"@[0] &&
                    "exs"@[0] != "mjs"@[0] && "exs"@[0] != "cjs"@[0] &&
                    "exs"@.len() != "ts"@.len() && "exs"@[0] != "tsx"@[0] &&
                    "exs"@[0] != "mts"@[0] && "exs"@[0] != "cts"@[0] &&
                    "exs"@.len() != "go"@.len() && "exs"@.len() != "c"@.len() &&
                    "exs"@.len() != "h"@.len() && "exs"@[0] != "cpp"@[0] &&
                    "exs"@.len() != "cc"@.len() && "exs"@[0] != "cxx"@[0] &&
                    "exs"@[0] != "hpp"@[0] && "exs"@[0] != "hxx"@[0] &&
                    "exs"@.len() != "hh"@.len() && "exs"@.len() != "rb"@.len() &&
                    "exs"@.len() != "rake"@.len() && "exs"@.len() != "gemspec"@.len() &&
                    "exs"@.len() != "ex"@.len()
                );
            }
        },
        Language::Erlang => {
            assert(extension_language("erl"@) == Some(Language::Erlang)) by {
                reveal_strlit("rs"); reveal_strlit("py"); reveal_strlit("pyw");
                reveal_strlit("pyi"); reveal_strlit("js"); reveal_strlit("jsx");
                reveal_strlit("mjs"); reveal_strlit("cjs"); reveal_strlit("ts");
                reveal_strlit("tsx"); reveal_strlit("mts"); reveal_strlit("cts");
                reveal_strlit("go"); reveal_strlit("c"); reveal_strlit("h");
                reveal_strlit("cpp"); reveal_strlit("cc"); reveal_strlit("cxx");
                reveal_strlit("hpp"); reveal_strlit("hxx"); reveal_strlit("hh");
                reveal_strlit("rb"); reveal_strlit("rake"); reveal_strlit("gemspec");
                reveal_strlit("ex"); reveal_strlit("exs"); reveal_strlit("erl");
                assert(
                    "erl"@.len() != "rs"@.len() && "erl"@.len() != "py"@.len() &&
                    "erl"@[0] != "pyw"@[0] && "erl"@[0] != "pyi"@[0] &&
                    "erl"@.len() != "js"@.len() && "erl"@[0] != "jsx"@[0] &&
                    "erl"@[0] != "mjs"@[0] && "erl"@[0] != "cjs"@[0] &&
                    "erl"@.len() != "ts"@.len() && "erl"@[0] != "tsx"@[0] &&
                    "erl"@[0] != "mts"@[0] && "erl"@[0] != "cts"@[0] &&
                    "erl"@.len() != "go"@.len() && "erl"@.len() != "c"@.len() &&
                    "erl"@.len() != "h"@.len() && "erl"@[0] != "cpp"@[0] &&
                    "erl"@.len() != "cc"@.len() && "erl"@[0] != "cxx"@[0] &&
                    "erl"@[0] != "hpp"@[0] && "erl"@[0] != "hxx"@[0] &&
                    "erl"@.len() != "hh"@.len() && "erl"@.len() != "rb"@.len() &&
                    "erl"@.len() != "rake"@.len() && "erl"@.len() != "gemspec"@.len() &&
                    "erl"@.len() != "ex"@.len() && "erl"@[1] != "exs"@[1]
                );
            }
            assert(extension_language("hrl"@) == Some(Language::Erlang)) by {
                reveal_strlit("rs"); reveal_strlit("py"); reveal_strlit("pyw");
                reveal_strlit("pyi"); reveal_strlit("js"); reveal_strlit("jsx");
                reveal_strlit("mjs"); reveal_strlit("cjs"); reveal_strlit("ts");
                reveal_strlit("tsx"); reveal_strlit("mts"); reveal_strlit("cts");
                reveal_strlit("go"); reveal_strlit("c"); reveal_strlit("h");
                reveal_strlit("cpp"); reveal_strlit("cc"); reveal_strlit("cxx");
                reveal_strlit("hpp"); reveal_strlit("hxx"); reveal_strlit("hh");
                reveal_strlit("rb"); reveal_strlit("rake"); reveal_strlit("gemspec");
                reveal_strlit("ex"); reveal_strlit("exs"); reveal_strlit("erl");
                reveal_strlit("hrl");
                assert(
                    "hrl"@.len() != "rs"@.len() && "hrl"@.len() != "py"@.len() &&
                    "hrl"@[0] != "pyw"@[0] && "hrl"@[0] != "pyi"@[0] &&
                    "hrl"@.len() != "js"@.len() && "hrl"@[0] != "jsx"@[0] &&
                    "hrl"@[0] != "mjs"@[0] && "hrl"@[0] != "cjs"@[0] &&
                    "hrl"@.len() != "ts"@.len() && "hrl"@[0] != "tsx"@[0] &&
                    "hrl"@[0] != "mts"@[0] && "hrl"@[0] != "cts"@[0] &&
                    "hrl"@.len() != "go"@.len() && "hrl"@.len() != "c"@.len() &&
                    "hrl"@.len() != "h"@.len() && "hrl"@[0] != "cpp"@[0] &&
                    "hrl"@.len() != "cc"@.len() && "hrl"@[0] != "cxx"@[0] &&
                    "hrl"@[1] != "hpp"@[1] && "hrl"@[1] != "hxx"@[1] &&
                    "hrl"@.len() != "hh"@.len() && "hrl"@.len() != "rb"@.len() &&
                    "hrl"@.len() != "rake"@.len() && "hrl"@.len() != "gemspec"@.len() &&
                    "hrl"@.len() != "ex"@.len() && "hrl"@[0] != "exs"@[0] &&
                    "hrl"@[0] != "erl"@[0]
                );
            }
        },
        Language::Bash => {
            assert(extension_language("sh"@) == Some(Language::Bash)) by {
                reveal_strlit("rs"); reveal_strlit("py"); reveal_strlit("pyw");
                reveal_strlit("pyi"); reveal_strlit("js"); reveal_strlit("jsx");
                reveal_strlit("mjs"); reveal_strlit("cjs"); reveal_strlit("ts");
                reveal_strlit("tsx"); reveal_strlit("mts"); reveal_strlit("cts");
                reveal_strlit("go"); reveal_strlit("c"); reveal_strlit("h");
                reveal_strlit("cpp"); reveal_strlit("cc"); reveal_strlit("cxx");
                reveal_strlit("hpp"); reveal_strlit("hxx"); reveal_strlit("hh");
                reveal_strlit("rb"); reveal_strlit("rake"); reveal_strlit("gemspec");
                reveal_strlit("ex"); reveal_strlit("exs"); reveal_strlit("erl");
                reveal_strlit("hrl"); reveal_strlit("sh");
                assert(
                    "sh"@[0] != "rs"@[0] && "sh"@[0] != "py"@[0] && "sh"@.len() != "pyw"@.len() &&
                    "sh"@.len() != "pyi"@.len() && "sh"@[0] != "js"@[0] &&
                    "sh"@.len() != "jsx"@.len() && "sh"@.len() != "mjs"@.len() &&
                    "sh"@.len() != "cjs"@.len() && "sh"@[0] != "ts"@[0] &&
                    "sh"@.len() != "tsx"@.len() && "sh"@.len() != "mts"@.len() &&
                    "sh"@.len() != "cts"@.len() && "sh"@[0] != "go"@[0] &&
                    "sh"@.len() != "c"@.len() && "sh"@.len() != "h"@.len() &&
                    "sh"@.len() != "cpp"@.len() && "sh"@[0] != "cc"@[0] &&
                    "sh"@.len() != "cxx"@.len() && "sh"@.len() != "hpp"@.len() &&
                    "sh"@.len() != "hxx"@.len() && "sh"@[0] != "hh"@[0] && "sh"@[0] != "rb"@[0] &&
                    "sh"@.len() != "rake"@.len() && "sh"@.len() != "gemspec"@.len() &&
                    "sh"@[0] != "ex"@[0] && "sh"@.len() != "exs"@.len() &&
                    "sh"@.len() != "erl"@.len() && "sh"@.len() != "hrl"@.len()
                );
            }
            assert(extension_language("bash"@) == Some(Language::Bash)) by {
                reveal_strlit("rs"); reveal_strlit("py"); reveal_strlit("pyw");
                reveal_strlit("pyi"); reveal_strlit("js"); reveal_strlit("jsx");
                reveal_strlit("mjs"); reveal_strlit("cjs"); reveal_strlit("ts");
                reveal_strlit("tsx"); reveal_strlit("mts"); reveal_strlit("cts");
                reveal_strlit("go"); reveal_strlit("c"); reveal_strlit("h");
                reveal_strlit("cpp"); reveal_strlit("cc"); reveal_strlit("cxx");
                reveal_strlit("hpp"); reveal_strlit("hxx"); reveal_strlit("hh");
                reveal_strlit("rb"); reveal_strlit("rake"); reveal_strlit("gemspec");
                reveal_strlit("ex"); reveal_strlit("exs"); reveal_strlit("erl");
                reveal_strlit("hrl"); reveal_strlit("sh"); reveal_strlit("bash");
                assert(
                    "bash"@.len() != "rs"@.len() && "bash"@.len() != "py"@.len() &&
                    "bash"@.len() != "pyw"@.len() && "bash"@.len() != "pyi"@.len() &&
                    "bash"@.len() != "js"@.len() && "bash"@.len() != "jsx"@.len() &&
                    "bash"@.len() != "mjs"@.len() && "bash"@.len() != "cjs"@.len() &&
                    "bash"@.len() != "ts"@.len() && "bash"@.len() != "tsx"@.len() &&
                    "bash"@.len() != "mts"@.len() && "bash"@.len() != "cts"@.len() &&
                    "bash"@.len() != "go"@.len() && "bash"@.len() != "c"@.len() &&
                    "bash"@.len() != "h"@.len() && "bash"@.len() != "cpp"@.len() &&
                    "bash"@.len() != "cc"@.len() && "bash"@.len() != "cxx"@.len() &&
                    "bash"@.len() != "hpp"@.len() && "bash"@.len() != "hxx"@.len() &&
                    "bash"@.len() != "hh"@.len() && "bash"@.len() != "rb"@.len() &&
                    "bash"@[0] != "rake"@[0] && "bash"@.len() != "gemspec"@.len() &&
                    "bash"@.len() != "ex"@.len() && "bash"@.len() != "exs"@.len() &&
                    "bash"@.len() != "erl"@.len() && "bash"@.len() != "hrl"@.len() &&
                    "bash"@.len() != "sh"@.len()
                );
            }
            assert(extension_language("zsh"@) == Some(Language::Bash)) by {
                reveal_strlit("rs"); reveal_strlit("py"); reveal_strlit("pyw");
                reveal_strlit("pyi"); reveal_strlit("js"); reveal_strlit("jsx");
                reveal_strlit("mjs"); reveal_strlit("cjs"); reveal_strlit("ts");
                reveal_strlit("tsx"); reveal_strlit("mts"); reveal_strlit("cts");
                reveal_strlit("go"); reveal_strlit("c"); reveal_strlit("h");
                reveal_strlit("cpp"); reveal_strlit("cc"); reveal_strlit("cxx");
                reveal_strlit("hpp"); reveal_strlit("hxx"); reveal_strlit("hh");
                reveal_strlit("rb"); reveal_strlit("rake"); reveal_strlit("gemspec");
                reveal_strlit("ex"); reveal_strlit("exs"); reveal_strlit("erl");
                reveal_strlit("hrl"); reveal_strlit("sh"); reveal_strlit("bash");
                reveal_strlit("zsh");
                assert(
                    "zsh"@.len() != "rs"@.len() && "zsh"@.len() != "py"@.len() &&
                    "zsh"@[0] != "pyw"@[0] && "zsh"@[0] != "pyi"@[0] &&
                    "zsh"@.len() != "js"@.len() && "zsh"@[0] != "jsx"@[0] &&
                    "zsh"@[0] != "mjs"@[0] && "zsh"@[0] != "cjs"@[0] &&
                    "zsh"@.len() != "ts"@.len() && "zsh"@[0] != "tsx"@[0] &&
                    "zsh"@[0] != "mts"@[0] && "zsh"@[0] != "cts"@[0] &&
                    "zsh"@.len() != "go"@.len() && "zsh"@.len() != "c"@.len() &&
                    "zsh"@.len() != "h"@.len() && "zsh"@[0] != "cpp"@[0] &&
                    "zsh"@.len() != "cc"@.len() && "zsh"@[0] != "cxx"@[0] &&
                    "zsh"@[0] != "hpp"@[0] && "zsh"@[0] != "hxx"@[0] &&
                    "zsh"@.len() != "hh"@.len() && "zsh"@.len() != "rb"@.len() &&
                    "zsh"@.len() != "rake"@.len() && "zsh"@.len() != "gemspec"@.len() &&
                    "zsh"@.len() != "ex"@.len() && "zsh"@[0] != "exs"@[0] &&
                    "zsh"@[0] != "erl"@[0] && "zsh"@[0] != "hrl"@[0] &&
                    "zsh"@.len() != "sh"@.len() && "zsh"@.len() != "bash"@.len()
                );
            }
        },
        Language::Yaml => {
            assert(extension_language("yaml"@) == Some(Language::Yaml)) by {
                reveal_strlit("rs"); reveal_strlit("py"); reveal_strlit("pyw");
                reveal_strlit("pyi"); reveal_strlit("js"); reveal_strlit("jsx");
                reveal_strlit("mjs"); reveal_strlit("cjs"); reveal_strlit("ts");
                reveal_strlit("tsx"); reveal_strlit("mts"); reveal_strlit("cts");
                reveal_strlit("go"); reveal_strlit("c"); reveal_strlit("h");
                reveal_strlit("cpp"); reveal_strlit("cc"); reveal_strlit("cxx");
                reveal_strlit("hpp"); reveal_strlit("hxx"); reveal_strlit("hh");
                reveal_strlit("rb"); reveal_strlit("rake"); reveal_strlit("gemspec");
                reveal_strlit("ex"); reveal_strlit("exs"); reveal_strlit("erl");
                reveal_strlit("hrl"); reveal_strlit("sh"); reveal_strlit("bash");
                reveal_strlit("zsh"); reveal_strlit("yaml");
                assert(
                    "yaml"@.len() != "rs"@.len() && "yaml"@.len() != "py"@.len() &&
                    "yaml"@.len() != "pyw"@.len() && "yaml"@.len() != "pyi"@.len() &&
                    "yaml"@.len() != "js"@.len() && "yaml"@.len() != "jsx"@.len() &&
                    "yaml"@.len() != "mjs"@.len() && "yaml"@.len() != "cjs"@.len() &&
                    "yaml"@.len() != "ts"@.len() && "yaml"@.len() != "tsx"@.len() &&
                    "yaml"@.len() != "mts"@.len() && "yaml"@.len() != "cts"@.len() &&
                    "yaml"@.len() != "go"@.len() && "yaml"@.len() != "c"@.len() &&
                    "yaml"@.len() != "h"@.len() && "yaml"@.len() != "cpp"@.len() &&
                    "yaml"@.len() != "cc"@.len() && "yaml"@.len() != "cxx"@.len() &&
                    "yaml"@.len() != "hpp"@.len() && "yaml"@.len() != "hxx"@.len() &&
                    "yaml"@.len() != "hh"@.len() && "yaml"@.len() != "rb"@.len() &&
                    "yaml"@[0] != "rake"@[0] && "yaml"@.len() != "gemspec"@.len() &&
                    "yaml"@.len() != "ex"@.len() && "yaml"@.len() != "exs"@.len() &&
                    "yaml"@.len() != "erl"@.len() && "yaml"@.len() != "hrl"@.len() &&
                    "yaml"@.len() != "sh"@.len() && "yaml"@[0] != "bash"@[0] &&
                    "yaml"@.len() != "zsh"@.len()
                );
            }
            assert(extension_language("yml"@) == Some(Language::Yaml)) by {
                reveal_strlit("rs"); reveal_strlit("py"); reveal_strlit("pyw");
                reveal_strlit("pyi"); reveal_strlit("js"); reveal_strlit("jsx");
                reveal_strlit("mjs"); reveal_strlit("cjs"); reveal_strlit("ts");
                reveal_strlit("tsx"); reveal_strlit("mts"); reveal_strlit("cts");
                reveal_strlit("go"); reveal_strlit("c"); reveal_strlit("h");
                reveal_strlit("cpp"); reveal_strlit("cc"); reveal_strlit("cxx");
                reveal_strlit("hpp"); reveal_strlit("hxx"); reveal_strlit("hh");
                reveal_strlit("rb"); reveal_strlit("rake"); reveal_strlit("gemspec");
                reveal_strlit("ex"); reveal_strlit("exs"); reveal_strlit("erl");
                reveal_strlit("hrl"); reveal_strlit("sh"); reveal_strlit("bash");
                reveal_strlit("zsh"); reveal_strlit("yaml"); reveal_strlit("yml");
                assert(
                    "yml"@.len() != "rs"@.len() && "yml"@.len() != "py"@.len() &&
                    "yml"@[0] != "pyw"@[0] && "yml"@[0] != "pyi"@[0] &&
                    "yml"@.len() != "js"@.len() && "yml"@[0] != "jsx"@[0] &&
                    "yml"@[0] != "mjs"@[0] && "yml"@[0] != "cjs"@[0] &&
                    "yml"@.len() != "ts"@.len() && "yml"@[0] != "tsx"@[0] &&
                    "yml"@[0] != "mts"@[0] && "yml"@[0] != "cts"@[0] &&
                    "yml"@.len() != "go"@.len() && "yml"@.len() != "c"@.len() &&
                    "yml"@.len() != "h"@.len() && "yml"@[0] != "cpp"@[0] &&
                    "yml"@.len() != "cc"@.len() && "yml"@[0] != "cxx"@[0] &&
                    "yml"@[0] != "hpp"@[0] && "yml"@[0] != "hxx"@[0] &&
                    "yml"@.len() != "hh"@.len() && "yml"@.len() != "rb"@.len() &&
                    "yml"@.len() != "rake"@.len() && "yml"@.len() != "gemspec"@.len() &&
                    "yml"@.len() != "ex"@.len() && "yml"@[0] != "exs"@[0] &&
                    "yml"@[0] != "erl"@[0] && "yml"@[0] != "hrl"@[0] &&
                    "yml"@.len() != "sh"@.len() && "yml"@.len() != "bash"@.len() &&
                    "yml"@[0] != "zsh"@[0] && "yml"@.len() != "yaml"@.len()
                );
            }
        },
        Language::Toml => {
            assert(extension_language("toml"@) == Some(Language::Toml)) by {
                reveal_strlit("rs"); reveal_strlit("py"); reveal_strlit("pyw");
                reveal_strlit("pyi"); reveal_strlit("js"); reveal_strlit("jsx");
                reveal_strlit("mjs"); reveal_strlit("cjs"); reveal_strlit("ts");
                reveal_strlit("tsx"); reveal_strlit("mts"); reveal_strlit("cts");
                reveal_strlit("go"); reveal_strlit("c"); reveal_strlit("h");
                reveal_strlit("cpp"); reveal_strlit("cc"); reveal_strlit("cxx");
                reveal_strlit("hpp"); reveal_strlit("hxx"); reveal_strlit("hh");
                reveal_strlit("rb"); reveal_strlit("rake"); reveal_strlit("gemspec");
                reveal_strlit("ex"); reveal_strlit("exs"); reveal_strlit("erl");
                reveal_strlit("hrl"); reveal_strlit("sh"); reveal_strlit("bash");
                reveal_strlit("zsh"); reveal_strlit("yaml"); reveal_strlit("yml");
                reveal_strlit("toml");
                assert(
                    "toml"@.len() != "rs"@.len() && "toml"@.len() != "py"@.len() &&
                    "toml"@.len() != "pyw"@.len() && "toml"@.len() != "pyi"@.len() &&
                    "toml"@.len() != "js"@.len() && "toml"@.len() != "jsx"@.len() &&
                    "toml"@.len() != "mjs"@.len() && "toml"@.len() != "cjs"@.len() &&
                    "toml"@.len() != "ts"@.len() && "toml"@.len() != "tsx"@.len() &&
                    "toml"@.len() != "mts"@.len() && "toml"@.len() != "cts"@.len() &&
                    "toml"@.len() != "go"@.len() && "toml"@.len() != "c"@.len() &&
                    "toml"@.len() != "h"@.len() && "toml"@.len() != "cpp"@.len() &&
                    "toml"@.len() != "cc"@.len() && "toml"@.len() != "cxx"@.len() &&
                    "toml"@.len() != "hpp"@.len() && "toml"@.len() != "hxx"@.len() &&
                    "toml"@.len() != "hh"@.len() && "toml"@.len() != "rb"@.len() &&
                    "toml"@[0] != "rake"@[0] && "toml"@.len() != "gemspec"@.len() &&
                    "toml"@.len() != "ex"@.len() && "toml"@.len() != "exs"@.len() &&
                    "toml"@.len() != "erl"@.len() && "toml"@.len() != "hrl"@.len() &&
                    "toml"@.len() != "sh"@.len() && "toml"@[0] != "bash"@[0] &&
                    "toml"@.len() != "zsh"@.len() && "toml"@[0] != "yaml"@[0] &&
                    "toml"@.len() != "yml"@.len()
                );
            }
        },
        Language::Json => {
            assert(extension_language("json"@) == Some(Language::Json)) by {
                reveal_strlit("rs"); reveal_strlit("py"); reveal_strlit("pyw");
                reveal_strlit("pyi"); reveal_strlit("js"); reveal_strlit("jsx");
                reveal_strlit("mjs"); reveal_strlit("cjs"); reveal_strlit("ts");
                reveal_strlit("tsx"); reveal_strlit("mts"); reveal_strlit("cts");
                reveal_strlit("go"); reveal_strlit("c"); reveal_strlit("h");
                reveal_strlit("cpp"); reveal_strlit("cc"); reveal_strlit("cxx");
                reveal_strlit("hpp"); reveal_strlit("hxx"); reveal_strlit("hh");
                reveal_strlit("rb"); reveal_strlit("rake"); reveal_strlit("gemspec");
                reveal_strlit("ex"); reveal_strlit("exs"); reveal_strlit("erl");
                reveal_strlit("hrl"); reveal_strlit("sh"); reveal_strlit("bash");
                reveal_strlit("zsh"); reveal_strlit("yaml"); reveal_strlit("yml");
                reveal_strlit("toml"); reveal_strlit("json");
                assert(
                    "json"@.len() != "rs"@.len() && "json"@.len() != "py"@.len() &&
                    "json"@.len() != "pyw"@.len() && "json"@.len() != "pyi"@.len() &&
                    "json"@.len() != "js"@.len() && "json"@.len() != "jsx"@.len() &&
                    "json"@.len() != "mjs"@.len() && "json"@.len() != "cjs"@.len() &&
                    "json"@.len() != "ts"@.len() && "json"@.len() != "tsx"@.len() &&
                    "json"@.len() != "mts"@.len() && "json"@.len() != "cts"@.len() &&
                    "json"@.len() != "go"@.len() && "json"@.len() != "c"@.len() &&
                    "json"@.len() != "h"@.len() && "json"@.len() != "cpp"@.len() &&
                    "json"@.len() != "cc"@.len() && "json"@.len() != "cxx"@.len() &&
                    "json"@.len() != "hpp"@.len() && "json"@.len() != "hxx"@.len() &&
                    "json"@.len() != "hh"@.len() && "json"@.len() != "rb"@.len() &&
                    "json"@[0] != "rake"@[0] && "json"@.len() != "gemspec"@.len() &&
                    "json"@.len() != "ex"@.len() && "json"@.len() != "exs"@.len() &&
                    "json"@.len() != "erl"@.len() && "json"@.len() != "hrl"@.len() &&
                    "json"@.len() != "sh"@.len() && "json"@[0] != "bash"@[0] &&
                    "json"@.len() != "zsh"@.len() && "json"@[0] != "yaml"@[0] &&
                    "json"@.len() != "yml"@.len() && "json"@[0] != "toml"@[0]
                );
            }
            assert(extension_language("jsonl"@) == Some(Language::Json)) by {
                reveal_strlit("rs"); reveal_strlit("py"); reveal_strlit("pyw");
                reveal_strlit("pyi"); reveal_strlit("js"); reveal_strlit("jsx");
                reveal_strlit("mjs"); reveal_strlit("cjs"); reveal_strlit("ts");
                reveal_strlit("tsx"); reveal_strlit("mts"); reveal_strlit("cts");
                reveal_strlit("go"); reveal_strlit("c"); reveal_strlit("h");
                reveal_strlit("cpp"); reveal_strlit("cc"); reveal_strlit("cxx");
                reveal_strlit("hpp"); reveal_strlit("hxx"); reveal_strlit("hh");
                reveal_strlit("rb"); reveal_strlit("rake"); reveal_strlit("gemspec");
                reveal_strlit("ex"); reveal_strlit("exs"); reveal_strlit("erl");
                reveal_strlit("hrl"); reveal_strlit("sh"); reveal_strlit("bash");
                reveal_strlit("zsh"); reveal_strlit("yaml"); reveal_strlit("yml");
                reveal_strlit("toml"); reveal_strlit("json"); reveal_strlit("jsonl");
                assert(
                    "jsonl"@.len() != "rs"@.len() && "jsonl"@.len() != "py"@.len() &&
                    "jsonl"@.len() != "pyw"@.len() && "jsonl"@.len() != "pyi"@.len() &&
                    "jsonl"@.len() != "js"@.len() && "jsonl"@.len() != "jsx"@.len() &&
                    "jsonl"@.len() != "mjs"@.len() && "jsonl"@.len() != "cjs"@.len() &&
                    "jsonl"@.len() != "ts"@.len() && "jsonl"@.len() != "tsx"@.len() &&
                    "jsonl"@.len() != "mts"@.len() && "jsonl"@.len() != "cts"@.len() &&
                    "jsonl"@.len() != "go"@.len() && "jsonl"@.len() != "c"@.len() &&
                    "jsonl"@.len() != "h"@.len() && "jsonl"@.len() != "cpp"@.len() &&
                    "jsonl"@.len() != "cc"@.len() && "jsonl"@.len() != "cxx"@.len() &&
                    "jsonl"@.len() != "hpp"@.len() && "jsonl"@.len() != "hxx"@.len() &&
                    "jsonl"@.len() != "hh"@.len() && "jsonl"@.len() != "rb"@.len() &&
                    "jsonl"@.len() != "rake"@.len() && "jsonl"@.len() != "gemspec"@.len() &&
                    "jsonl"@.len() != "ex"@.len() && "jsonl"@.len() != "exs"@.len() &&
                    "jsonl"@.len() != "erl"@.len() && "jsonl"@.len() != "hrl"@.len() &&
                    "jsonl"@.len() != "sh"@.len() && "jsonl"@.len() != "bash"@.len() &&
                    "jsonl"@.len() != "zsh"@.len() && "jsonl"@.len() != "yaml"@.len() &&
                    "jsonl"@.len() != "yml"@.len() && "jsonl"@.len() != "toml"@.len() &&
                    "jsonl"@.len() != "json"@.len()
                );
            }
        },
        Language::Html => {
            assert(extension_language("html"@) == Some(Language::Html)) by {
                reveal_strlit("rs"); reveal_strlit("py"); reveal_strlit("pyw");
                reveal_strlit("pyi"); reveal_strlit("js"); reveal_strlit("jsx");
                reveal_strlit("mjs"); reveal_strlit("cjs"); reveal_strlit("ts");
                reveal_strlit("tsx"); reveal_strlit("mts"); reveal_strlit("cts");
                reveal_strlit("go"); reveal_strlit("c"); reveal_strlit("h");
                reveal_strlit("cpp"); reveal_strlit("cc"); reveal_strlit("cxx");
                reveal_strlit("hpp"); reveal_strlit("hxx"); reveal_strlit("hh");
                reveal_strlit("rb"); reveal_strlit("rake"); reveal_strlit("gemspec");
                reveal_strlit("ex"); reveal_strlit("exs"); reveal_strlit("erl");
                reveal_strlit("hrl"); reveal_strlit("sh"); reveal_strlit("bash");
                reveal_strlit("zsh"); reveal_strlit("yaml"); reveal_strlit("yml");
                reveal_strlit("toml"); reveal_strlit("json"); reveal_strlit("jsonl");
                reveal_strlit("html");
                assert(
                    "html"@.len() != "rs"@.len() && "html"@.len() != "py"@.len() &&
                    "html"@.len() != "pyw"@.len() && "html"@.len() != "pyi"@.len() &&
                    "html"@.len() != "js"@.len() && "html"@.len() != "jsx"@.len() &&
                    "html"@.len() != "mjs"@.len() && "html"@.len() != "cjs"@.len() &&
                    "html"@.len() != "ts"@.len() && "html"@.len() != "tsx"@.len() &&
                    "html"@.len() != "mts"@.len() && "html"@.len() != "cts"@.len() &&
                    "html"@.len() != "go"@.len() && "html"@.len() != "c"@.len() &&
                    "html"@.len() != "h"@.len() && "html"@.len() != "cpp"@.len() &&
                    "html"@.len() != "cc"@.len() && "html"@.len() != "cxx"@.len() &&
                    "html"@.len() != "hpp"@.len() && "html"@.len() != "hxx"@.len() &&
                    "html"@.len() != "hh"@.len() && "html"@.len() != "rb"@.len() &&
                    "html"@[0] != "rake"@[0] && "html"@.len() != "gemspec"@.len() &&
                    "html"@.len() != "ex"@.len() && "html"@.len() != "exs"@.len() &&
                    "html"@.len() != "erl"@.len() && "html"@.len() != "hrl"@.len() &&
                    "html"@.len() != "sh"@.len() && "html"@[0] != "bash"@[0] &&
                    "html"@.len() != "zsh"@.len() && "html"@[0] != "yaml"@[0] &&
                    "html"@.len() != "yml"@.len() && "html"@[0] != "toml"@[0] &&
                    "html"@[0] != "json"@[0] && "html"@.len() != "jsonl"@.len()
                );
            }
            assert(extension_language("htm"@) == Some(Language::Html)) by {
                reveal_strlit("rs"); reveal_strlit("py"); reveal_strlit("pyw");
                reveal_strlit("pyi"); reveal_strlit("js"); reveal_strlit("jsx");
                reveal_strlit("mjs"); reveal_strlit("cjs"); reveal_strlit("ts");
                reveal_strlit("tsx"); reveal_strlit("mts"); reveal_strlit("cts");
                reveal_strlit("go"); reveal_strlit("c"); reveal_strlit("h");
                reveal_strlit("cpp"); reveal_strlit("cc"); reveal_strlit("cxx");
                reveal_strlit("hpp"); reveal_strlit("hxx"); reveal_strlit("hh");
                reveal_strlit("rb"); reveal_strlit("rake"); reveal_strlit("gemspec");
                reveal_strlit("ex"); reveal_strlit("exs"); reveal_strlit("erl");
                reveal_strlit("hrl"); reveal_strlit("sh"); reveal_strlit("bash");
                reveal_strlit("zsh"); reveal_strlit("yaml"); reveal_strlit("yml");
                reveal_strlit("toml"); reveal_strlit("json"); reveal_strlit("jsonl");
                reveal_strlit("html"); reveal_strlit("htm");
                assert(
                    "htm"@.len() != "rs"@.len() && "htm"@.len() != "py"@.len() &&
                    "htm"@[0] != "pyw"@[0] && "htm"@[0] != "pyi"@[0] &&
                    "htm"@.len() != "js"@.len() && "htm"@[0] != "jsx"@[0] &&
                    "htm"@[0] != "mjs"@[0] && "htm"@[0] != "cjs"@[0] &&
                    "htm"@.len() != "ts"@.len() && "htm"@[0] != "tsx"@[0] &&
                    "htm"@[0] != "mts"@[0] && "htm"@[0] != "cts"@[0] &&
                    "htm"@.len() != "go"@.len() && "htm"@.len() != "c"@.len() &&
                    "htm"@.len() != "h"@.len() && "htm"@[0] != "cpp"@[0] &&
                    "htm"@.len() != "cc"@.len() && "htm"@[0] != "cxx"@[0] &&
                    "htm"@[1] != "hpp"@[1] && "htm"@[1] != "hxx"@[1] &&
                    "htm"@.len() != "hh"@.len() && "htm"@.len() != "rb"@.len() &&
                    "htm"@.len() != "rake"@.len() && "htm"@.len() != "gemspec"@.len() &&
                    "htm"@.len() != "ex"@.len() && "htm"@[0] != "exs"@[0] &&
                    "htm"@[0] != "erl"@[0] && "htm"@[1] != "hrl"@[1] &&
                    "htm"@.len() != "sh"@.len() && "htm"@.len() != "bash"@.len() &&
                    "htm"@[0] != "zsh"@[0] && "htm"@.len() != "yaml"@.len() &&
                    "htm"@[0] != "yml"@[0] && "htm"@.len() != "toml"@.len() &&
                    "htm"@.len() != "json"@.len() && "htm"@.len() != "jsonl"@.len() &&
                    "htm"@.len() != "html"@.len()
                );
            }
        },
        Language::Sql => {
            assert(extension_language("sql"@) == Some(Language::Sql)) by {
                reveal_strlit("rs"); reveal_strlit("py"); reveal_strlit("pyw");
                reveal_strlit("pyi"); reveal_strlit("js"); reveal_strlit("jsx");
                reveal_strlit("mjs"); reveal_strlit("cjs"); reveal_strlit("ts");
                reveal_strlit("tsx"); reveal_strlit("mts"); reveal_strlit("cts");
                reveal_strlit("go"); reveal_strlit("c"); reveal_strlit("h");
                reveal_strlit("cpp"); reveal_strlit("cc"); reveal_strlit("cxx");
                reveal_strlit("hpp"); reveal_strlit("hxx"); reveal_strlit("hh");
                reveal_strlit("rb"); reveal_strlit("rake"); reveal_strlit("gemspec");
                reveal_strlit("ex"); reveal_strlit("exs"); reveal_strlit("erl");
                reveal_strlit("hrl"); reveal_strlit("sh"); reveal_strlit("bash");
                reveal_strlit("zsh"); reveal_strlit("yaml"); reveal_strlit("yml");
                reveal_strlit("toml"); reveal_strlit("json"); reveal_strlit("jsonl");
                reveal_strlit("html"); reveal_strlit("htm"); reveal_strlit("sql");
                assert(
                    "sql"@.len() != "rs"@.len() && "sql"@.len() != "py"@.len() &&
                    "sql"@[0] != "pyw"@[0] && "sql"@[0] != "pyi"@[0] &&
                    "sql"@.len() != "js"@.len() && "sql"@[0] != "jsx"@[0] &&
                    "sql"@[0] != "mjs"@[0] && "sql"@[0] != "cjs"@[0] &&
                    "sql"@.len() != "ts"@.len() && "sql"@[0] != "tsx"@[0] &&
                    "sql"@[0] != "mts"@[0] && "sql"@[0] != "cts"@[0] &&
                    "sql"@.len() != "go"@.len() && "sql"@.len() != "c"@.len() &&
                    "sql"@.len() != "h"@.len() && "sql"@[0] != "cpp"@[0] &&
                    "sql"@.len() != "cc"@.len() && "sql"@[0] != "cxx"@[0] &&
                    "sql"@[0] != "hpp"@[0] && "sql"@[0] != "hxx"@[0] &&
                    "sql"@.len() != "hh"@.len() && "sql"@.len() != "rb"@.len() &&
                    "sql"@.len() != "rake"@.len() && "sql"@.len() != "gemspec"@.len() &&
                    "sql"@.len() != "ex"@.len() && "sql"@[0] != "exs"@[0] &&
                    "sql"@[0] != "erl"@[0] && "sql"@[0] != "hrl"@[0] &&
                    "sql"@.len() != "sh"@.len() && "sql"@.len() != "bash"@.len() &&
                    "sql"@[0] != "zsh"@[0] && "sql"@.len() != "yaml"@.len() &&
                    "sql"@[0] != "yml"@[0] && "sql"@.len() != "toml"@.len() &&
                    "sql"@.len() != "json"@.len() && "sql"@.len() != "jsonl"@.len() &&
                    "sql"@.len() != "html"@.len() && "sql"@[0] != "htm"@[0]
                );
            }
            assert(extension_language("ddl"@) == Some(Language::Sql)) by {
                reveal_strlit("rs"); reveal_strlit("py"); reveal_strlit("pyw");
                reveal_strlit("pyi"); reveal_strlit("js"); reveal_strlit("jsx");
                reveal_strlit("mjs"); reveal_strlit("cjs"); reveal_strlit("ts");
                reveal_strlit("tsx"); reveal_strlit("mts"); reveal_strlit("cts");
                reveal_strlit("go"); reveal_strlit("c"); reveal_strlit("h");
                reveal_strlit("cpp"); reveal_strlit("cc"); reveal_strlit("cxx");
                reveal_strlit("hpp"); reveal_strlit("hxx"); reveal_strlit("hh");
                reveal_strlit("rb"); reveal_strlit("rake"); reveal_strlit("gemspec");
                reveal_strlit("ex"); reveal_strlit("exs"); reveal_strlit("erl");
                reveal_strlit("hrl"); reveal_strlit("sh"); reveal_strlit("bash");
                reveal_strlit("zsh"); reveal_strlit("yaml"); reveal_strlit("yml");
                reveal_strlit("toml"); reveal_strlit("json"); reveal_strlit("jsonl");
                reveal_strlit("html"); reveal_strlit("htm"); reveal_strlit("sql");
                reveal_strlit("ddl");
                assert(
                    "ddl"@.len() != "rs"@.len() && "ddl"@.len() != "py"@.len() &&
                    "ddl"@[0] != "pyw"@[0] && "ddl"@[0] != "pyi"@[0] &&
                    "ddl"@.len() != "js"@.len() && "ddl"@[0] != "jsx"@[0] &&
                    "ddl"@[0] != "mjs"@[0] && "ddl"@[0] != "cjs"@[0] &&
                    "ddl"@.len() != "ts"@.len() && "ddl"@[0] != "tsx"@[0] &&
                    "ddl"@[0] != "mts"@[0] && "ddl"@[0] != "cts"@[0] &&
                    "ddl"@.len() != "go"@.len() && "ddl"@.len() != "c"@.len() &&
                    "ddl"@.len() != "h"@.len() && "ddl"@[0] != "cpp"@[0] &&
                    "ddl"@.len() != "cc"@.len() && "ddl"@[0] != "cxx"@[0] &&
                    "ddl"@[0] != "hpp"@[0] && "ddl"@[0] != "hxx"@[0] &&
                    "ddl"@.len() != "hh"@.len() && "ddl"@.len() != "rb"@.len() &&
                    "ddl"@.len() != "rake"@.len() && "ddl"@.len() != "gemspec"@.len() &&
                    "ddl"@.len() != "ex"@.len() && "ddl"@[0] != "exs"@[0] &&
                    "ddl"@[0] != "erl"@[0] && "ddl"@[0] != "hrl"@[0] &&
                    "ddl"@.len() != "sh"@.len() && "ddl"@.len() != "bash"@.len() &&
                    "ddl"@[0] != "zsh"@[0] && "ddl"@.len() != "yaml"@.len() &&
                    "ddl"@[0] != "yml"@[0] && "ddl"@.len() != "toml"@.len() &&
                    "ddl"@.len() != "json"@.len() && "ddl"@.len() != "jsonl"@.len() &&
                    "ddl"@.len() != "html"@.len() && "ddl"@[0] != "htm"@[0] &&
                    "ddl"@[0] != "sql"@[0]
                );
            }
            assert(extension_language("dml"@) == Some(Language::Sql)) by {
                reveal_strlit("rs"); reveal_strlit("py"); reveal_strlit("pyw");
                reveal_strlit("pyi"); reveal_strlit("js"); reveal_strlit("jsx");
                reveal_strlit("mjs"); reveal_strlit("cjs"); reveal_strlit("ts");
                reveal_strlit("tsx"); reveal_strlit("mts"); reveal_strlit("cts");
                reveal_strlit("go"); reveal_strlit("c"); reveal_strlit("h");
                reveal_strlit("cpp"); reveal_strlit("cc"); reveal_strlit("cxx");
                reveal_strlit("hpp"); reveal_strlit("hxx"); reveal_strlit("hh");
                reveal_strlit("rb"); reveal_strlit("rake"); reveal_strlit("gemspec");
                reveal_strlit("ex"); reveal_strlit("exs"); reveal_strlit("erl");
                reveal_strlit("hrl"); reveal_strlit("sh"); reveal_strlit("bash");
                reveal_strlit("zsh"); reveal_strlit("yaml"); reveal_strlit("yml");
                reveal_strlit("toml"); reveal_strlit("json"); reveal_strlit("jsonl");
                reveal_strlit("html"); reveal_strlit("htm"); reveal_strlit("sql");
                reveal_strlit("ddl"); reveal_strlit("dml");
                assert(
                    "dml"@.len() != "rs"@.len() && "dml"@.len() != "py"@.len() &&
                    "dml"@[0] != "pyw"@[0] && "dml"@[0] != "pyi"@[0] &&
                    "dml"@.len() != "js"@.len() && "dml"@[0] != "jsx"@[0] &&
                    "dml"@[0] != "mjs"@[0] && "dml"@[0] != "cjs"@[0] &&
                    "dml"@.len() != "ts"@.len() && "dml"@[0] != "tsx"@[0] &&
                    "dml"@[0] != "mts"@[0] && "dml"@[0] != "cts"@[0] &&
                    "dml"@.len() != "go"@.len() && "dml"@.len() != "c"@.len() &&
                    "dml"@.len() != "h"@.len() && "dml"@[0] != "cpp"@[0] &&
                    "dml"@.len() != "cc"@.len() && "dml"@[0] != "cxx"@[0] &&
                    "dml"@[0] != "hpp"@[0] && "dml"@[0] != "hxx"@[0] &&
                    "dml"@.len() != "hh"@.len() && "dml"@.len() != "rb"@.len() &&
                    "dml"@.len() != "rake"@.len() && "dml"@.len() != "gemspec"@.len() &&
                    "dml"@.len() != "ex"@.len() && "dml"@[0] != "exs"@[0] &&
                    "dml"@[0] != "erl"@[0] && "dml"@[0] != "hrl"@[0] &&
                    "dml"@.len() != "sh"@.len() && "dml"@.len() != "bash"@.len() &&
                    "dml"@[0] != "zsh"@[0] && "dml"@.len() != "yaml"@.len() &&
                    "dml"@[0] != "yml"@[0] && "dml"@.len() != "toml"@.len() &&
                    "dml"@.len() != "json"@.len() && "dml"@.len() != "jsonl"@.len() &&
                    "dml"@.len() != "html"@.len() && "dml"@[0] != "htm"@[0] &&
                    "dml"@[0] != "sql"@[0] && "dml"@[1] != "ddl"@[1]
                );
            }
        },
    }
}

/// Law: extension lookup follows the extension table of each language:
/// each of a language's extensions gives that language, and an extension
/// gives a language only if it is one of that language's extensions.
pub proof fn lemma_extension_table(l: Language, e: Seq<char>)
    ensures
        forall|i: int| 0 <= i < language_extensions(l).len() ==> extension_language(#[trigger] language_extensions(l)[i]) == Some(l),
        extension_language(e) == Some(l) ==> language_extensions(l).contains(e),
{
    reveal_strlit("rs");
    reveal_strlit("py");
    reveal_strlit("pyw");
    reveal_strlit("pyi");
    reveal_strlit("js");
    reveal_strlit("jsx");
    reveal_strlit("mjs");
    reveal_strlit("cjs");
    reveal_strlit("ts");
    reveal_strlit("tsx");
    reveal_strlit("mts");
    reveal_strlit("cts");
    reveal_strlit("go");
    reveal_strlit("c");
    reveal_strlit("h");
    reveal_strlit("cpp");
    reveal_strlit("cc");
    reveal_strlit("cxx");
    reveal_strlit("hpp");
    reveal_strlit("hxx");
    reveal_strlit("hh");
    reveal_strlit("rb");
    reveal_strlit("rake");
    reveal_strlit("gemspec");
    reveal_strlit("ex");
    reveal_strlit("exs");
    reveal_strlit("erl");
    reveal_strlit("hrl");
    reveal_strlit("sh");
    reveal_strlit("bash");
    reveal_strlit("zsh");
    reveal_strlit("yaml");
    reveal_strlit("yml");
    reveal_strlit("toml");
    reveal_strlit("json");
    reveal_strlit("jsonl");
    reveal_strlit("html");
    reveal_strlit("htm");
    reveal_strlit("sql");
    reveal_strlit("ddl");
    reveal_strlit("dml");
    lemma_listed_extensions_resolve(l);
    if extension_language(e) == Some(l) {
        match l {
            Language::Rust => {
                if e == "rs"@ { assert(language_extensions(l)[0] == e); }
            },
            Language::Python => {
                if e == "py"@ { assert(language_extensions(l)[0] == e); }
                if e == "pyw"@ { assert(language_extensions(l)[1] == e); }
                if e == "pyi"@ { assert(language_extensions(l)[2] == e); }
            },
            Language::JavaScript => {
                if e == "js"@ { assert(language_extensions(l)[0] == e); }
                if e == "jsx"@ { assert(language_extensions(l)[1] == e); }
                if e == "mjs"@ { assert(language_extensions(l)[2] == e); }
                if e == "cjs"@ { assert(language_extensions(l)[3] == e); }
            },
            Language::TypeScript => {
                if e == "ts"@ { assert(language_extensions(l)[0] == e); }
                if e == "tsx"@ { assert(language_extensions(l)[1] == e); }
                if e == "mts"@ { assert(language_extensions(l)[2] == e); }
                if e == "cts"@ { assert(language_extensions(l)[3] == e); }
            },
            Language::Go => {
                if e == "go"@ { assert(language_extensions(l)[0] == e); }
            },
            Language::C => {
                if e == "c"@ { assert(language_extensions(l)[0] == e); }
                if e == "h"@ { assert(language_extensions(l)[1] == e); }
            },
            Language::Cpp => {
                if e == "cpp"@ { assert(language_extensions(l)[0] == e); }
                if e == "cc"@ { assert(language_extensions(l)[1] == e); }
                if e == "cxx"@ { assert(language_extensions(l)[2] == e); }
                if e == "hpp"@ { assert(language_extensions(l)[3] == e); }
                if e == "hxx"@ { assert(language_extensions(l)[4] == e); }
                if e == "hh"@ { assert(language_extensions(l)[5] == e); }
            },
            Language::Ruby => {
                if e == "rb"@ { assert(language_extensions(l)[0] == e); }
                if e == "rake"@ { assert(language_extensions(l)[1] == e); }
                if e == "gemspec"@ { assert(language_extensions(l)[2] == e); }
            },
            Language::Elixir => {
                if e == "ex"@ { assert(language_extensions(l)[0] == e); }
                if e == "exs"@ { assert(language_extensions(l)[1] == e); }
            },
            Language::Erlang => {
                if e == "erl"@ { assert(language_extensions(l)[0] == e); }
                if e == "hrl"@ { assert(language_extensions(l)[1] == e); }
            },
            Language::Bash => {
                if e == "sh"@ { assert(language_extensions(l)[0] == e); }
                if e == "bash"@ { assert(language_extensions(l)[1] == e); }
                if e == "zsh"@ { assert(language_extensions(l)[2] == e); }
            },
            Language::Yaml => {
                if e == "yaml"@ { assert(language_extensions(l)[0] == e); }
                if e == "yml"@ { assert(language_extensions(l)[1] == e); }
            },
            Language::Toml => {
                if e == "toml"@ { assert(language_extensions(l)[0] == e); }
            },
            Language::Json => {
                if e == "json"@ { assert(language_extensions(l)[0] == e); }
                if e == "jsonl"@ { assert(language_extensions(l)[1] == e); }
            },
            Language::Html => {
                if e == "html"@ { assert(language_extensions(l)[0] == e); }
                if e == "htm"@ { assert(language_extensions(l)[1] == e); }
            },
            Language::Sql => {
                if e == "sql"@ { assert(language_extensions(l)[0] == e); }
                if e == "ddl"@ { assert(language_extensions(l)[1] == e); }
                if e == "dml"@ { assert(language_extensions(l)[2] == e); }
            },
        }
    }
}

/// The keyword score of a language (zero for one that is not scored).
pub open spec fn language_score(l: Language, s: Seq<char>) -> nat {
    match l {
        Language::Rust => rust_score(s),
        Language::Python => python_score(s),
        Language::JavaScript => javascript_score(s),
        Language::TypeScript => typescript_score(s),
        Language::Go => go_score(s),
        Language::C => c_score(s),
        Language::Cpp => cpp_score(s),
        Language::Ruby => ruby_score(s),
        Language::Elixir => elixir_score(s),
        Language::Erlang => erlang_score(s),
        Language::Html => html_score(s),
        Language::Yaml => yaml_score(s),
        Language::Json => json_score(s),
        Language::Toml => toml_score(s),
        Language::Sql => sql_score(s),
        Language::Bash => 0,
    }
}

/// Law: the shebang table. A first line that starts with `#!` names its
/// interpreter: one that mentions `python` (in any case) is Python, else
/// `ruby` is Ruby, else `bash` or `/sh` is Bash, else `elixir` is Elixir,
/// else `escript` is Erlang; any other first line gives no language.
pub proof fn lemma_shebang_table(s: Seq<char>, line: Seq<char>)
    requires
        first_line(s) == Some(line),
    ensures
        !starts_with(line, "#!"@) ==> shebang_language(s) is None,
        starts_with(line, "#!"@) ==> {
            let lo = lowercase(line);
            &&& contains(lo, "python"@) ==> shebang_language(s) == Some(Language::Python)
            &&& !contains(lo, "python"@) && contains(lo, "ruby"@) ==> shebang_language(s) == Some(
                Language::Ruby,
            )
            &&& !contains(lo, "python"@) && !contains(lo, "ruby"@) && (contains(lo, "bash"@)
                || contains(lo, "/sh"@)) ==> shebang_language(s) == Some(Language::Bash)
            &&& !contains(lo, "python"@) && !contains(lo, "ruby"@) && !contains(lo, "bash"@)
                && !contains(lo, "/sh"@) && contains(lo, "elixir"@) ==> shebang_language(s) == Some(
                Language::Elixir,
            )
            &&& !contains(lo, "python"@) && !contains(lo, "ruby"@) && !contains(lo, "bash"@)
                && !contains(lo, "/sh"@) && !contains(lo, "elixir"@) && contains(lo, "escript"@)
                ==> shebang_language(s) == Some(Language::Erlang)
            &&& !contains(lo, "python"@) && !contains(lo, "ruby"@) && !contains(lo, "bash"@)
                && !contains(lo, "/sh"@) && !contains(lo, "elixir"@) && !contains(lo, "escript"@)
                ==> shebang_language(s) is None
        },
        shebang_language(s) is Some ==> content_language(s) == shebang_language(s),
{
}

/// Law: a language whose keyword score on the sample is strictly higher than
/// that of every other scored language is the one keyword detection picks,
/// and, when the text has no recognised shebang line, the one detected from
/// the content.
pub proof fn lemma_keyword_winner(text: Seq<char>, l: Language)
    requires
        l != Language::Bash,
        forall|other: Language|
            other != l && other != Language::Bash ==> #[trigger] language_score(other, keyword_sample(text))
                < language_score(l, keyword_sample(text)),
    ensures
        keyword_language(text) == Some(l),
        shebang_language(text) is None ==> content_language(text) == Some(l),
{
    let s = keyword_sample(text);
    let c = keyword_scores(s);
    lemma_keyword_candidates(s);
    lemma_best_candidate(c);
    let k: int = match l {
        Language::Rust => 0,
        Language::Python => 1,
        Language::JavaScript => 2,
        Language::TypeScript => 3,
        Language::Go => 4,
        Language::C => 5,
        Language::Cpp => 6,
        Language::Ruby => 7,
        Language::Elixir => 8,
        Language::Erlang => 9,
        Language::Html => 10,
        Language::Yaml => 11,
        Language::Json => 12,
        Language::Toml => 13,
        Language::Sql => 14,
        Language::Bash => 0,
    };
    assert(c[k].0 == l);
    assert(c[k].1 == language_score(l, s));
    let other = if l == Language::Rust { Language::Python } else { Language::Rust };
    assert(language_score(other, s) < language_score(l, s));
    match best_candidate(c) {
        Some(b) => {
            let i = choose|i: int| 0 <= i < c.len() && c[i] == b && forall|j: int|
                0 <= j < i ==> #[trigger] c[j].1 < b.1;
            assert(c[i].1 == language_score(c[i].0, s));
            assert(c[k].1 <= b.1);
            if b.0 != l {
                assert(language_score(c[i].0, s) < language_score(l, s));
            }
        },
        None => {
            assert(c[k].1 == 0);
        },
    }
}

/// Law: keyword detection compares every language but Bash, each once, and
/// each with its own score.
pub proof fn lemma_keyword_candidates(s: Seq<char>)
    ensures
        keyword_scores(s).len() == 15,
        forall|i: int| 0 <= i < 15 ==> (#[trigger] keyword_scores(s)[i]).1 == language_score(keyword_scores(s)[i].0, s),
        forall|i: int| 0 <= i < 15 ==> (#[trigger] keyword_scores(s)[i]).0 != Language::Bash,
        forall|i: int, j: int| 0 <= i < j < 15 ==> (#[trigger] keyword_scores(s)[i]).0 != (#[trigger] keyword_scores(s)[j]).0,
{
}

} // verus!
