//! Code tokenization helpers: syntax-node kinds, comment and string
//! delimiter stripping, and the fallback tokenizer used when no parser is
//! available.

use crate::language::{
    Language, char_len_utf8, char_utf8_len, lemma_utf8_len_ascii, lemma_utf8_len_ge_len,
    lemma_utf8_len_prefix_step, utf8_len,
};
use crate::splitter::{identifier_parts, lemma_split_seq_step, split_identifier, split_seq, strings_view};
use crate::textutil::{
    char_is_whitespace, chars_of, ends_with, eq_lit, has_prefix, has_suffix, is_whitespace,
    slice_chars, starts_with, string_from_chars, trim, trim_chars,
};
use vstd::prelude::*;

verus! {

/// Tree-sitter based code tokenizer settings: the language to parse with
/// (`None`: detect it from the content) and which node kinds to index.
#[derive(Clone)]
pub struct TreeSitterTokenizer {
    pub language: Option<Language>,
    pub index_comments: bool,
    pub index_strings: bool,
}

impl TreeSitterTokenizer {
    /// A tokenizer for a specific language, indexing comments and strings.
    pub fn new(language: Language) -> (r: Self)
        ensures
            r.language == Some(language),
            r.index_comments,
            r.index_strings,
    {
        TreeSitterTokenizer { language: Some(language), index_comments: true, index_strings: true }
    }

    /// An auto-detecting tokenizer, indexing comments and strings.
    pub fn auto_detect() -> (r: Self)
        ensures
            r.language is None,
            r.index_comments,
            r.index_strings,
    {
        TreeSitterTokenizer { language: None, index_comments: true, index_strings: true }
    }
}

/// A token with the byte range of the source text it came from.
#[derive(Debug, Clone, PartialEq, Eq)]
pub struct ExtractedToken {
    pub text: String,
    pub offset_from: usize,
    pub offset_to: usize,
}

/// Plain view of a token: its characters and byte range.
pub open spec fn token_view(t: ExtractedToken) -> (Seq<char>, int, int) {
    (t.text@, t.offset_from as int, t.offset_to as int)
}

pub open spec fn tokens_view(v: Seq<ExtractedToken>) -> Seq<(Seq<char>, int, int)> {
    v.map_values(|t: ExtractedToken| token_view(t))
}

// ---------------------------------------------------------------------------
// Node kinds
// ---------------------------------------------------------------------------

pub open spec fn identifier_kind(k: Seq<char>) -> bool {
    ||| k == "identifier"@
    ||| k == "type_identifier"@
    ||| k == "field_identifier"@
    ||| k == "property_identifier"@
    ||| k == "shorthand_property_identifier"@
    ||| k == "shorthand_property_identifier_pattern"@
    ||| k == "attribute_item"@
    ||| k == "constant"@
    ||| k == "alias"@
    ||| k == "atom"@
    ||| k == "variable"@
    ||| k == "variable_name"@
    ||| k == "name"@
    ||| k == "simple_identifier"@
}

pub open spec fn string_kind(k: Seq<char>) -> bool {
    ||| k == "string_literal"@
    ||| k == "string"@
    ||| k == "string_content"@
    ||| k == "template_string"@
    ||| k == "interpreted_string_literal"@
    ||| k == "raw_string_literal"@
    ||| k == "heredoc_body"@
}

pub open spec fn comment_kind(k: Seq<char>) -> bool {
    ||| k == "line_comment"@
    ||| k == "block_comment"@
    ||| k == "comment"@
}

/// Whether a syntax-node kind names an identifier.
pub fn is_identifier_kind(kind: &str) -> (r: bool)
    ensures
        r == identifier_kind(kind@),
{
    let k = chars_of(kind);
    eq_lit(&k, "identifier") || eq_lit(&k, "type_identifier") || eq_lit(&k, "field_identifier")
        || eq_lit(&k, "property_identifier") || eq_lit(&k, "shorthand_property_identifier")
        || eq_lit(&k, "shorthand_property_identifier_pattern") || eq_lit(&k, "attribute_item")
        || eq_lit(&k, "constant") || eq_lit(&k, "alias") || eq_lit(&k, "atom") || eq_lit(
        &k,
        "variable",
    ) || eq_lit(&k, "variable_name") || eq_lit(&k, "name") || eq_lit(&k, "simple_identifier")
}

/// Whether a syntax-node kind names a string literal.
pub fn is_string_kind(kind: &str) -> (r: bool)
    ensures
        r == string_kind(kind@),
{
    let k = chars_of(kind);
    eq_lit(&k, "string_literal") || eq_lit(&k, "string") || eq_lit(&k, "string_content") || eq_lit(
        &k,
        "template_string",
    ) || eq_lit(&k, "interpreted_string_literal") || eq_lit(&k, "raw_string_literal") || eq_lit(
        &k,
        "heredoc_body",
    )
}

/// Whether a syntax-node kind names a comment.
pub fn is_comment_kind(kind: &str) -> (r: bool)
    ensures
        r == comment_kind(kind@),
{
    let k = chars_of(kind);
    eq_lit(&k, "line_comment") || eq_lit(&k, "block_comment") || eq_lit(&k, "comment")
}

// ---------------------------------------------------------------------------
// Comment markers
// ---------------------------------------------------------------------------

/// `s` without its leading copies of `c` (as `str::trim_start_matches`).
pub open spec fn trim_start_char(s: Seq<char>, c: char) -> Seq<char>
    decreases s.len(),
{
    if s.len() > 0 && s[0] == c {
        trim_start_char(s.drop_first(), c)
    } else {
        s
    }
}

fn trim_start_char_exec(s: &Vec<char>, c: char) -> (r: Vec<char>)
    ensures
        r@ == trim_start_char(s@, c),
{
    let mut i: usize = 0;
    assert(s@.subrange(0, s@.len() as int) =~= s@);
    while i < s.len() && s[i] == c
        invariant
            i <= s.len(),
            trim_start_char(s@, c) == trim_start_char(s@.subrange(i as int, s@.len() as int), c),
        decreases s.len() - i,
    {
        proof {
            let t = s@.subrange(i as int, s@.len() as int);
            assert(t.drop_first() =~= s@.subrange(i + 1, s@.len() as int));
        }
        i = i + 1;
    }
    proof {
        let t = s@.subrange(i as int, s@.len() as int);
        if i < s.len() {
            assert(t[0] == s@[i as int]);
        }
    }
    slice_chars(s, i, s.len())
}

/// The pieces of `s` between line feeds.
pub open spec fn newline_split(s: Seq<char>) -> Seq<Seq<char>> {
    split_seq(s, |c: char| c == '\n')
}

pub open spec fn strip_cr(l: Seq<char>) -> Seq<char> {
    if l.len() > 0 && l.last() == '\r' {
        l.drop_last()
    } else {
        l
    }
}

/// The lines of `s` as `str::lines` yields them: split at line feeds, a
/// carriage return before a line feed dropped, no final empty line.
pub open spec fn lines(s: Seq<char>) -> Seq<Seq<char>> {
    let ps = newline_split(s);
    if s.len() == 0 {
        Seq::empty()
    } else if ps.last().len() == 0 {
        ps.drop_last().map_values(|l: Seq<char>| strip_cr(l))
    } else {
        ps.drop_last().map_values(|l: Seq<char>| strip_cr(l)).push(ps.last())
    }
}

/// A doc-comment line cleaned of surrounding blanks and leading `*`.
pub open spec fn clean_comment_line(l: Seq<char>) -> Seq<char> {
    trim(trim_start_char(trim(l), '*'))
}

/// Lines joined by single spaces.
pub open spec fn join_spaced(ls: Seq<Seq<char>>) -> Seq<char>
    decreases ls.len(),
{
    if ls.len() == 0 {
        Seq::empty()
    } else if ls.len() == 1 {
        ls[0]
    } else {
        join_spaced(ls.drop_last()) + seq![' '] + ls.last()
    }
}

/// Comment text without its markers: `//` (and further `/`), `/* */`
/// (line by line, without leading `*`), `#` or `--`.
pub open spec fn comment_content(text: Seq<char>) -> Seq<char> {
    let t = trim(text);
    if starts_with(t, "//"@) {
        trim(trim_start_char(t.subrange(2, t.len() as int), '/'))
    } else if starts_with(t, "/*"@) && ends_with(t, "*/"@) {
        join_spaced(
            lines(t.subrange(2, t.len() - 2)).map_values(|l: Seq<char>| clean_comment_line(l)),
        )
    } else if starts_with(t, "#"@) {
        trim(t.subrange(1, t.len() as int))
    } else if starts_with(t, "--"@) {
        trim(t.subrange(2, t.len() as int))
    } else {
        t
    }
}

proof fn lemma_newline_split_nonempty(s: Seq<char>)
    ensures
        newline_split(s).len() >= 1,
    decreases s.len(),
{
    if s.len() > 0 {
        lemma_newline_split_nonempty(s.drop_last());
    }
}

fn split_newlines(s: &Vec<char>) -> (r: Vec<Vec<char>>)
    ensures
        r@.map_values(|v: Vec<char>| v@) == newline_split(s@),
        r.len() >= 1,
{
    let ghost d = |c: char| c == '\n';
    let mut out: Vec<Vec<char>> = Vec::new();
    let mut cur: Vec<char> = Vec::new();
    let mut i: usize = 0;
    proof {
        assert(s@.take(0) =~= Seq::<char>::empty());
    }
    while i < s.len()
        invariant
            i <= s.len(),
            d == (|c: char| c == '\n'),
            split_seq(s@.take(i as int), d).len() >= 1,
            out@.map_values(|v: Vec<char>| v@).push(cur@) == split_seq(s@.take(i as int), d),
        decreases s.len() - i,
    {
        let c = s[i];
        let ghost prev = split_seq(s@.take(i as int), d);
        let ghost old_out = out@.map_values(|v: Vec<char>| v@);
        proof {
            lemma_split_seq_step(s@, d, i as int);
        }
        if c == '\n' {
            let done = cur;
            out.push(done);
            cur = Vec::new();
            proof {
                assert(out@.map_values(|v: Vec<char>| v@) =~= old_out.push(done@));
                assert(out@.map_values(|v: Vec<char>| v@).push(cur@) =~= prev.push(Seq::<char>::empty()));
            }
        } else {
            cur.push(c);
            proof {
                assert(old_out.push(cur@) =~= prev.update(prev.len() - 1, prev.last().push(c)));
            }
        }
        i = i + 1;
    }
    proof {
        assert(s@.take(s@.len() as int) =~= s@);
    }
    let ghost old_out = out@.map_values(|v: Vec<char>| v@);
    out.push(cur);
    proof {
        assert(out@.map_values(|v: Vec<char>| v@) =~= old_out.push(cur@));
    }
    out
}

fn lines_exec(s: &Vec<char>) -> (r: Vec<Vec<char>>)
    ensures
        r@.map_values(|v: Vec<char>| v@) == lines(s@),
{
    if s.len() == 0 {
        let r: Vec<Vec<char>> = Vec::new();
        assert(r@.map_values(|v: Vec<char>| v@) =~= lines(s@));
        return r;
    }
    let ps = split_newlines(s);
    let ghost psv = newline_split(s@);
    let n = ps.len();
    let mut out: Vec<Vec<char>> = Vec::new();
    let mut i: usize = 0;
    while i + 1 < n
        invariant
            n == ps.len(),
            n >= 1,
            i + 1 <= n,
            ps@.map_values(|v: Vec<char>| v@) == psv,
            out@.map_values(|v: Vec<char>| v@) == psv.take(i as int).map_values(|l: Seq<char>| strip_cr(l)),
        decreases n - i,
    {
        let mut l = slice_chars(&ps[i], 0, ps[i].len());
        assert(l@ == psv[i as int]);
        if l.len() > 0 && l[l.len() - 1] == '\r' {
            l.pop();
        }
        let ghost old_out = out@.map_values(|v: Vec<char>| v@);
        out.push(l);
        proof {
            assert(out@.map_values(|v: Vec<char>| v@) =~= old_out.push(strip_cr(psv[i as int])));
            assert(psv.take(i + 1).map_values(|l: Seq<char>| strip_cr(l)) =~= psv.take(
                i as int,
            ).map_values(|l: Seq<char>| strip_cr(l)).push(strip_cr(psv[i as int])));
        }
        i = i + 1;
    }
    proof {
        assert(psv.take(n - 1) =~= psv.drop_last());
    }
    let last = slice_chars(&ps[n - 1], 0, ps[n - 1].len());
    assert(last@ == psv.last());
    if last.len() > 0 {
        let ghost old_out = out@.map_values(|v: Vec<char>| v@);
        out.push(last);
        proof {
            assert(out@.map_values(|v: Vec<char>| v@) =~= old_out.push(psv.last()));
        }
    }
    out
}

fn join_spaced_exec(ls: &Vec<Vec<char>>) -> (r: Vec<char>)
    ensures
        r@ == join_spaced(ls@.map_values(|v: Vec<char>| v@)),
{
    let ghost lv = ls@.map_values(|v: Vec<char>| v@);
    let mut r: Vec<char> = Vec::new();
    let mut i: usize = 0;
    while i < ls.len()
        invariant
            i <= ls.len(),
            lv == ls@.map_values(|v: Vec<char>| v@),
            r@ == join_spaced(lv.take(i as int)),
        decreases ls.len() - i,
    {
        proof {
            assert(lv.take(i + 1).drop_last() =~= lv.take(i as int));
        }
        if i > 0 {
            r.push(' ');
        }
        let l = &ls[i];
        let mut j: usize = 0;
        let ghost base = r@;
        while j < l.len()
            invariant
                j <= l.len(),
                r@ == base + l@.take(j as int),
            decreases l.len() - j,
        {
            r.push(l[j]);
            j = j + 1;
            proof {
                assert(l@.take(j as int) =~= l@.take(j - 1).push(l@[j - 1]));
            }
        }
        proof {
            assert(l@.take(l@.len() as int) =~= l@);
            if i == 0 {
                assert(base =~= Seq::<char>::empty());
                assert(lv.take(1) =~= seq![lv[0]]);
            } else {
                assert(base =~= join_spaced(lv.take(i as int)) + seq![' ']);
            }
            assert(r@ =~= join_spaced(lv.take(i + 1)));
        }
        i = i + 1;
    }
    proof {
        assert(lv.take(ls.len() as int) =~= lv);
    }
    r
}

/// Strip comment markers (`//`, `/* */`, `#`, `--`) from comment text.
pub fn strip_comment_markers(text: &str) -> (r: String)
    requires
        trim(text@) != "/*/"@,
    ensures
        r@ == comment_content(text@),
{
    let t = trim_chars(&chars_of(text));
    proof {
        reveal_strlit("//");
        reveal_strlit("/*");
        reveal_strlit("*/");
        reveal_strlit("/*/");
        reveal_strlit("#");
        reveal_strlit("--");
    }
    if has_prefix(&t, "//") {
        let rest = slice_chars(&t, 2, t.len());
        let r = trim_chars(&trim_start_char_exec(&rest, '/'));
        return string_from_chars(&r);
    }
    if has_prefix(&t, "/*") && has_suffix(&t, "*/") {
        proof {
            let n = t@.len();
            assert(t@.subrange(0, 2)[0] == t@[0]);
            assert(t@.subrange(0, 2)[1] == t@[1]);
            assert(t@.subrange(n - 2, n as int)[0] == t@[n - 2]);
            assert(t@.subrange(n - 2, n as int)[1] == t@[n - 1]);
            if n == 3 {
                assert(t@ =~= "/*/"@);
            }
        }
        let inner = slice_chars(&t, 2, t.len() - 2);
        let ls = lines_exec(&inner);
        let ghost lsv = ls@.map_values(|v: Vec<char>| v@);
        let mut cleaned: Vec<Vec<char>> = Vec::new();
        let mut i: usize = 0;
        while i < ls.len()
            invariant
                i <= ls.len(),
                lsv == ls@.map_values(|v: Vec<char>| v@),
                cleaned@.map_values(|v: Vec<char>| v@) == lsv.take(i as int).map_values(
                    |l: Seq<char>| clean_comment_line(l),
                ),
            decreases ls.len() - i,
        {
            let c = trim_chars(&trim_start_char_exec(&trim_chars(&ls[i]), '*'));
            let ghost old_c = cleaned@.map_values(|v: Vec<char>| v@);
            cleaned.push(c);
            proof {
                assert(cleaned@.map_values(|v: Vec<char>| v@) =~= old_c.push(clean_comment_line(lsv[i as int])));
                assert(lsv.take(i + 1).map_values(|l: Seq<char>| clean_comment_line(l)) =~= lsv.take(
                    i as int,
                ).map_values(|l: Seq<char>| clean_comment_line(l)).push(clean_comment_line(lsv[i as int])));
            }
            i = i + 1;
        }
        proof {
            assert(lsv.take(ls.len() as int) =~= lsv);
        }
        let joined = join_spaced_exec(&cleaned);
        return string_from_chars(&joined);
    }
    if has_prefix(&t, "#") {
        let r = trim_chars(&slice_chars(&t, 1, t.len()));
        return string_from_chars(&r);
    }
    if has_prefix(&t, "--") {
        let r = trim_chars(&slice_chars(&t, 2, t.len()));
        return string_from_chars(&r);
    }
    string_from_chars(&t)
}

// ---------------------------------------------------------------------------
// String delimiters
// ---------------------------------------------------------------------------

/// String-literal text without its quotes: triple quotes (`"""` or `'''`,
/// at least 6 bytes), else one pair of `"`, `'` or `` ` `` (at least 2
/// bytes); otherwise the trimmed text itself.
pub open spec fn string_content(text: Seq<char>) -> Seq<char> {
    let t = trim(text);
    if (starts_with(t, "\"\"\""@) && ends_with(t, "\"\"\""@) && utf8_len(t) >= 6) || (starts_with(
        t,
        "'''"@,
    ) && ends_with(t, "'''"@) && utf8_len(t) >= 6) {
        t.subrange(3, t.len() - 3)
    } else if ((starts_with(t, "\""@) && ends_with(t, "\""@)) || (starts_with(t, "'"@) && ends_with(
        t,
        "'"@,
    )) || (starts_with(t, "`"@) && ends_with(t, "`"@))) && utf8_len(t) >= 2 {
        t.subrange(1, t.len() - 1)
    } else {
        t
    }
}

proof fn lemma_quoted_len(t: Seq<char>, q: char, n: int)
    requires
        1 <= n <= 3,
        (q as u32) < 0x80,
        n <= t.len(),
        forall|i: int| 0 <= i < n ==> t[i] == q,
        forall|i: int| t.len() - n <= i < t.len() ==> t[i] == q,
    ensures
        (utf8_len(t) >= 2 * n) == (t.len() >= 2 * n),
{
    lemma_utf8_len_ge_len(t);
    if t.len() < 2 * n {
        assert forall|i: int| 0 <= i < t.len() implies ((#[trigger] t[i]) as u32) < 0x80 by {
            if i < n {
            } else {
                assert(t.len() - n <= i);
            }
        }
        lemma_utf8_len_ascii(t);
    }
}

/// Strip string delimiters (quotes) from string-literal text.
pub fn strip_string_delimiters(text: &str) -> (r: String)
    ensures
        r@ == string_content(text@),
{
    let t = trim_chars(&chars_of(text));
    proof {
        reveal_strlit("\"\"\"");
        reveal_strlit("'''");
        reveal_strlit("\"");
        reveal_strlit("'");
        reveal_strlit("`");
    }
    let tq = has_prefix(&t, "\"\"\"") && has_suffix(&t, "\"\"\"");
    let ts = has_prefix(&t, "'''") && has_suffix(&t, "'''");
    proof {
        if tq {
            assert forall|i: int| 0 <= i < 3 implies t@[i] == '"' by {
                assert(t@.subrange(0, 3)[i] == t@[i]);
            }
            assert forall|i: int| t@.len() - 3 <= i < t@.len() implies t@[i] == '"' by {
                assert(t@.subrange(t@.len() - 3, t@.len() as int)[i - (t@.len() - 3)] == t@[i]);
            }
            lemma_quoted_len(t@, '"', 3);
        }
        if ts {
            assert forall|i: int| 0 <= i < 3 implies t@[i] == '\'' by {
                assert(t@.subrange(0, 3)[i] == t@[i]);
            }
            assert forall|i: int| t@.len() - 3 <= i < t@.len() implies t@[i] == '\'' by {
                assert(t@.subrange(t@.len() - 3, t@.len() as int)[i - (t@.len() - 3)] == t@[i]);
            }
            lemma_quoted_len(t@, '\'', 3);
        }
    }
    if (tq || ts) && t.len() >= 6 {
        let r = slice_chars(&t, 3, t.len() - 3);
        return string_from_chars(&r);
    }
    let dq = has_prefix(&t, "\"") && has_suffix(&t, "\"");
    let sq = has_prefix(&t, "'") && has_suffix(&t, "'");
    let bq = has_prefix(&t, "`") && has_suffix(&t, "`");
    proof {
        if dq {
            assert(t@.subrange(0, 1)[0] == t@[0]);
            assert(t@.subrange(t@.len() - 1, t@.len() as int)[0] == t@[t@.len() - 1]);
            lemma_quoted_len(t@, '"', 1);
        }
        if sq {
            assert(t@.subrange(0, 1)[0] == t@[0]);
            assert(t@.subrange(t@.len() - 1, t@.len() as int)[0] == t@[t@.len() - 1]);
            lemma_quoted_len(t@, '\'', 1);
        }
        if bq {
            assert(t@.subrange(0, 1)[0] == t@[0]);
            assert(t@.subrange(t@.len() - 1, t@.len() as int)[0] == t@[t@.len() - 1]);
            lemma_quoted_len(t@, '`', 1);
        }
    }
    if (dq || sq || bq) && t.len() >= 2 {
        let r = slice_chars(&t, 1, t.len() - 1);
        return string_from_chars(&r);
    }
    string_from_chars(&t)
}

// ---------------------------------------------------------------------------
// Fallback tokenization
// ---------------------------------------------------------------------------

/// Characters at which the fallback tokenizer splits text.
pub open spec fn fallback_delimiter(c: char) -> bool {
    is_whitespace(c) || c == '(' || c == ')' || c == '{' || c == '}' || c == '[' || c == ']' || c
        == ';' || c == ',' || c == '.' || c == ':' || c == '<' || c == '>' || c == '=' || c == '+'
        || c == '-' || c == '*' || c == '/' || c == '&' || c == '|' || c == '!' || c == '?' || c
        == '@' || c == '#' || c == '$' || c == '%' || c == '^' || c == '~'
}

fn is_fallback_delimiter(c: char) -> (r: bool)
    ensures
        r == fallback_delimiter(c),
{
    char_is_whitespace(c) || c == '(' || c == ')' || c == '{' || c == '}' || c == '[' || c == ']'
        || c == ';' || c == ',' || c == '.' || c == ':' || c == '<' || c == '>' || c == '=' || c
        == '+' || c == '-' || c == '*' || c == '/' || c == '&' || c == '|' || c == '!' || c == '?'
        || c == '@' || c == '#' || c == '$' || c == '%' || c == '^' || c == '~'
}

/// The non-empty strings of `ps`, in order.
pub open spec fn nonempty_only(ps: Seq<Seq<char>>) -> Seq<Seq<char>>
    decreases ps.len(),
{
    if ps.len() == 0 {
        Seq::empty()
    } else if ps.last().len() > 0 {
        nonempty_only(ps.drop_last()).push(ps.last())
    } else {
        nonempty_only(ps.drop_last())
    }
}

/// Tokens of one word that starts at byte `off`: each non-empty identifier
/// part, spanning the whole word; none for words under two bytes.
pub open spec fn word_tokens(w: Seq<char>, off: int) -> Seq<(Seq<char>, int, int)> {
    if utf8_len(w) >= 2 {
        nonempty_only(identifier_parts(w)).map_values(
            |p: Seq<char>| (p, off, off + utf8_len(w)),
        )
    } else {
        Seq::empty()
    }
}

/// Byte offset after the words `ps`: each word's length plus one for the
/// delimiter that follows it.
pub open spec fn words_offset(ps: Seq<Seq<char>>) -> int
    decreases ps.len(),
{
    if ps.len() == 0 {
        0
    } else {
        words_offset(ps.drop_last()) + utf8_len(ps.last()) + 1
    }
}

/// Tokens of a sequence of words, each word starting after the previous
/// ones.
pub open spec fn words_tokens(ps: Seq<Seq<char>>) -> Seq<(Seq<char>, int, int)>
    decreases ps.len(),
{
    if ps.len() == 0 {
        Seq::empty()
    } else {
        words_tokens(ps.drop_last()) + word_tokens(ps.last(), words_offset(ps.drop_last()))
    }
}

/// What `fallback_tokenize` returns for `text`.
pub open spec fn fallback_tokens(text: Seq<char>) -> Seq<(Seq<char>, int, int)> {
    words_tokens(split_seq(text, |c: char| fallback_delimiter(c)))
}

proof fn lemma_nonempty_only_push(ps: Seq<Seq<char>>, p: Seq<char>)
    ensures
        nonempty_only(ps.push(p)) == (if p.len() > 0 {
            nonempty_only(ps).push(p)
        } else {
            nonempty_only(ps)
        }),
{
    assert(ps.push(p).drop_last() =~= ps);
}

fn emit_word(out: &mut Vec<ExtractedToken>, word: &Vec<char>, off: usize, bytes: usize)
    requires
        bytes == utf8_len(word@),
        off + bytes <= usize::MAX,
    ensures
        tokens_view(final(out)@) == tokens_view(old(out)@) + word_tokens(word@, off as int),
{
    let ghost base = tokens_view(out@);
    if !(word.len() > 0 && bytes >= 2) {
        proof {
            lemma_utf8_len_ge_len(word@);
            assert(word_tokens(word@, off as int) =~= Seq::empty());
            assert(tokens_view(out@) =~= base + Seq::empty());
        }
        return;
    }
    let ws = string_from_chars(word);
    let parts = split_identifier(ws.as_str());
    let ghost pv = strings_view(parts@);
    let mut i: usize = 0;
    while i < parts.len()
        invariant
            i <= parts.len(),
            pv == strings_view(parts@),
            pv == identifier_parts(word@),
            off + bytes <= usize::MAX,
            bytes == utf8_len(word@),
            tokens_view(out@) == base + nonempty_only(pv.take(i as int)).map_values(
                |p: Seq<char>| (p, off as int, off + bytes),
            ),
        decreases parts.len() - i,
    {
        let ghost before = tokens_view(out@);
        proof {
            assert(pv.take(i + 1) =~= pv.take(i as int).push(pv[i as int]));
            lemma_nonempty_only_push(pv.take(i as int), pv[i as int]);
        }
        if !parts[i].as_str().is_empty() {
            let t = ExtractedToken {
                text: parts[i].clone(),
                offset_from: off,
                offset_to: off + bytes,
            };
            out.push(t);
            proof {
                assert(tokens_view(out@) =~= before.push((pv[i as int], off as int, off + bytes)));
                let q = nonempty_only(pv.take(i as int));
                assert(q.push(pv[i as int]).map_values(|p: Seq<char>| (p, off as int, off + bytes))
                    =~= q.map_values(|p: Seq<char>| (p, off as int, off + bytes)).push(
                    (pv[i as int], off as int, off + bytes),
                ));
            }
        }
        i = i + 1;
    }
    proof {
        assert(pv.take(parts.len() as int) =~= pv);
    }
}

/// Fallback tokenization when no parser is available: split at whitespace
/// and punctuation, then split each word of at least two bytes into
/// identifier parts, each token spanning its whole word.
pub fn fallback_tokenize(text: &str) -> (tokens: Vec<ExtractedToken>)
    requires
        utf8_len(text@) < usize::MAX,
    ensures
        tokens_view(tokens@) == fallback_tokens(text@),
{
    let chars = chars_of(text);
    let ghost s = chars@;
    let ghost d = |c: char| fallback_delimiter(c);
    let mut tokens: Vec<ExtractedToken> = Vec::new();
    let mut cur: Vec<char> = Vec::new();
    let mut cur_bytes: usize = 0;
    let mut offset: usize = 0;
    let mut i: usize = 0;
    proof {
        assert(s.take(0) =~= Seq::<char>::empty());
        crate::language::lemma_utf8_len_full(s);
    }
    while i < chars.len()
        invariant
            s == chars@,
            s == text@,
            d == (|c: char| fallback_delimiter(c)),
            utf8_len(s) < usize::MAX,
            i <= chars.len(),
            split_seq(s.take(i as int), d).len() >= 1,
            cur@ == split_seq(s.take(i as int), d).last(),
            cur_bytes == utf8_len(cur@),
            offset == words_offset(split_seq(s.take(i as int), d).drop_last()),
            offset + cur_bytes <= utf8_len(s.take(i as int)),
            tokens_view(tokens@) == words_tokens(split_seq(s.take(i as int), d).drop_last()),
        decreases chars.len() - i,
    {
        let c = chars[i];
        let ghost prev = split_seq(s.take(i as int), d);
        proof {
            lemma_split_seq_step(s, d, i as int);
            lemma_utf8_len_prefix_step(s, i as int);
            if i + 1 < s.len() {
                crate::language::lemma_utf8_len_prefix_mono(s, i + 1, s.len() as int);
            }
            assert(s.take(s.len() as int) =~= s);
        }
        if is_fallback_delimiter(c) {
            emit_word(&mut tokens, &cur, offset, cur_bytes);
            proof {
                let next = prev.push(Seq::<char>::empty());
                assert(next.drop_last() =~= prev);
                assert(prev =~= prev.drop_last().push(prev.last()));
            }
            offset = offset + cur_bytes + 1;
            cur = Vec::new();
            cur_bytes = 0;
        } else {
            cur.push(c);
            proof {
                let next = prev.update(prev.len() - 1, prev.last().push(c));
                assert(next.drop_last() =~= prev.drop_last());
                assert(cur@.drop_last() =~= prev.last());
            }
            cur_bytes = cur_bytes + char_len_utf8(c);
        }
        i = i + 1;
        proof {
            crate::splitter::lemma_split_seq_nonempty_pub(s.take(i as int), d);
        }
    }
    proof {
        assert(s.take(s.len() as int) =~= s);
        let ps = split_seq(s, d);
        assert(ps =~= ps.drop_last().push(ps.last()));
    }
    emit_word(&mut tokens, &cur, offset, cur_bytes);
    tokens
}

// ---------------------------------------------------------------------------
// Tokenizer names
// ---------------------------------------------------------------------------

/// The tokenizer a text field asks for.
#[derive(Debug, Clone, Copy, PartialEq, Eq, Structural)]
pub enum TokenizerType {
    Default,
    Code,
    Raw,
    CodeTreeSitter,
}

/// The name a tree-sitter tokenizer for one language is registered under.
pub open spec fn language_tokenizer_name(lang: Language) -> Seq<char> {
    "code-treesitter-"@ + crate::language::language_name(lang)
}

/// `code-treesitter-<name>` for the language's name.
pub fn language_tokenizer(lang: Language) -> (r: String)
    ensures
        r@ == language_tokenizer_name(lang),
{
    let mut v = chars_of("code-treesitter-");
    let mut n = chars_of(lang.name());
    v.append(&mut n);
    string_from_chars(&v)
}

/// The tokenizer name of an indexed text field: `default` when none is
/// configured, the code tokenizer's name, `raw`, or for tree-sitter
/// `code-treesitter-<language>` with a configured language and
/// `code-treesitter` without.
pub open spec fn field_tokenizer_name(
    t: Option<TokenizerType>,
    language: Option<Seq<char>>,
    code_name: Seq<char>,
) -> Seq<char> {
    match t {
        None | Some(TokenizerType::Default) => "default"@,
        Some(TokenizerType::Code) => code_name,
        Some(TokenizerType::Raw) => "raw"@,
        Some(TokenizerType::CodeTreeSitter) => match language {
            Some(l) => "code-treesitter-"@ + l,
            None => "code-treesitter"@,
        },
    }
}

pub fn field_tokenizer(t: Option<TokenizerType>, language: Option<&str>, code_name: &str) -> (r: String)
    ensures
        r@ == field_tokenizer_name(
            t,
            match language {
                Some(l) => Some(l@),
                None => None,
            },
            code_name@,
        ),
{
    match t {
        None | Some(TokenizerType::Default) => string_from_chars(&chars_of("default")),
        Some(TokenizerType::Code) => string_from_chars(&chars_of(code_name)),
        Some(TokenizerType::Raw) => string_from_chars(&chars_of("raw")),
        Some(TokenizerType::CodeTreeSitter) => match language {
            Some(l) => {
                let mut v = chars_of("code-treesitter-");
                let mut n = chars_of(l);
                v.append(&mut n);
                string_from_chars(&v)
            },
            None => string_from_chars(&chars_of("code-treesitter")),
        },
    }
}

} // verus!
