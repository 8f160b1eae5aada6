//! Tokenization of source code through a tree-sitter syntax tree.
//!
//! The parser runs in the `tree_sitter` crate; its tree is read out as the
//! list of nodes in pre-order (with their depths), and the tokens are
//! extracted from that list by verified code: identifiers are split into
//! words, comments and strings are stripped of their markers and split into
//! words, and the children of a node that produced tokens are skipped.

use crate::code_tokens::{
    ExtractedToken, TreeSitterTokenizer, comment_content, comment_kind, fallback_tokenize,
    fallback_tokens, identifier_kind, is_comment_kind, is_identifier_kind, is_string_kind,
    nonempty_only, string_content, string_kind, strip_comment_markers, strip_string_delimiters,
    token_view, tokens_view,
};
use crate::language::{
    Language, char_len_utf8, content_language, keyword_sample_ok, language_from_content,
    lemma_utf8_len_prefix_mono, lemma_utf8_len_prefix_step, shebang_language, utf8_len,
};
use crate::splitter::{identifier_parts, split_identifier, strings_view, text_tokens, tokenize_text};
use crate::textutil::{chars_of, slice_chars, string_from_chars, trim};
use crate::ts_bindings::{
    cursor_depth, cursor_goto_descendant, cursor_node_end, cursor_node_kind, cursor_node_start, grammar_loads,
    grammar_of, parsed_depth, parsed_end, parsed_kind, parsed_node_count, parsed_start, parser_new, parser_parse,
    parser_set_language, tree_node_count, tree_walk, ParsedTree,
};
use vstd::prelude::*;

verus! {

impl Language {
    /// The tree-sitter grammar of this language.
    pub fn ts_language(&self) -> tree_sitter::Language {
        grammar_of(*self).into_grammar()
    }
}

// ---------------------------------------------------------------------------
// Syntax nodes as plain values
// ---------------------------------------------------------------------------

/// One node of a syntax tree: its kind, byte range and depth below the
/// root.  A tree is a list of nodes in pre-order, so the descendants of a
/// node are the nodes right after it that are deeper than it.
#[derive(Debug, Clone)]
pub struct SyntaxNode {
    pub kind: String,
    pub start_byte: usize,
    pub end_byte: usize,
    pub depth: u32,
}

/// A syntax node as plain values.
pub struct SyntaxNodeView {
    pub kind: Seq<char>,
    pub start_byte: usize,
    pub end_byte: usize,
    pub depth: u32,
}

impl View for SyntaxNode {
    type V = SyntaxNodeView;

    open spec fn view(&self) -> SyntaxNodeView {
        SyntaxNodeView { kind: self.kind@, start_byte: self.start_byte, end_byte: self.end_byte, depth: self.depth }
    }
}

pub open spec fn node_views(nodes: Seq<SyntaxNode>) -> Seq<SyntaxNodeView> {
    nodes.map_values(|n: SyntaxNode| n@)
}

/// The pre-order node list of the tree tree-sitter parses from `text` with
/// the language's grammar.
pub open spec fn parsed_nodes(lang: Option<Language>, text: Seq<char>) -> Seq<SyntaxNodeView> {
    Seq::new(
        parsed_node_count(lang, text) as nat,
        |i: int|
            SyntaxNodeView {
                kind: parsed_kind(lang, text, i as usize),
                start_byte: parsed_start(lang, text, i as usize),
                end_byte: parsed_end(lang, text, i as usize),
                depth: parsed_depth(lang, text, i as usize),
            },
    )
}

/// The characters of `s` whose UTF-8 bytes are `start..end`, when both
/// ends fall on character boundaries.
pub open spec fn byte_range_chars(s: Seq<char>, start: int, end: int) -> Option<Seq<char>> {
    if exists|a: int, b: int|
        0 <= a <= b <= s.len() && utf8_len(#[trigger] s.take(a)) == start && utf8_len(
            #[trigger] s.take(b),
        ) == end {
        let (a, b) = choose|a: int, b: int|
            0 <= a <= b <= s.len() && utf8_len(#[trigger] s.take(a)) == start && utf8_len(
                #[trigger] s.take(b),
            ) == end;
        Some(s.subrange(a, b))
    } else {
        None
    }
}

/// Tokens with the same byte range for every word.
pub open spec fn spanned(ws: Seq<Seq<char>>, start: int, end: int) -> Seq<(Seq<char>, int, int)> {
    ws.map_values(|w: Seq<char>| (w, start, end))
}

/// The tokens one node yields, if it yields any (then its children are
/// skipped): identifier parts, or words of comment / string content.
pub open spec fn node_tokens(
    text: Seq<char>,
    n: SyntaxNodeView,
    index_comments: bool,
    index_strings: bool,
) -> Option<Seq<(Seq<char>, int, int)>> {
    match byte_range_chars(text, n.start_byte as int, n.end_byte as int) {
        Some(t) => {
            let (s, e) = (n.start_byte as int, n.end_byte as int);
            if identifier_kind(n.kind) {
                Some(spanned(nonempty_only(identifier_parts(t)), s, e))
            } else if comment_kind(n.kind) && index_comments && trim(t) != "/*/"@ {
                Some(spanned(text_tokens(comment_content(t)), s, e))
            } else if string_kind(n.kind) && index_strings {
                Some(spanned(text_tokens(string_content(t)), s, e))
            } else {
                None
            }
        },
        None => None,
    }
}

/// Tokens of the first `k` nodes, and the depth of the last node that
/// yielded tokens while its descendants are still being skipped.
pub open spec fn walk_scan(
    text: Seq<char>,
    nodes: Seq<SyntaxNodeView>,
    ic: bool,
    is: bool,
    k: int,
) -> (Seq<(Seq<char>, int, int)>, Option<u32>)
    decreases k,
{
    if k <= 0 {
        (Seq::empty(), None)
    } else {
        let (ts, skip) = walk_scan(text, nodes, ic, is, k - 1);
        let n = nodes[k - 1];
        if skip is Some && n.depth > skip->0 {
            (ts, skip)
        } else {
            match node_tokens(text, n, ic, is) {
                Some(more) => (ts + more, Some(n.depth)),
                None => (ts, None),
            }
        }
    }
}

/// Tokens of a syntax tree given as its pre-order node list.
pub open spec fn tree_tokens(text: Seq<char>, nodes: Seq<SyntaxNodeView>, ic: bool, is: bool) -> Seq<
    (Seq<char>, int, int),
> {
    walk_scan(text, nodes, ic, is, nodes.len() as int).0
}

/// Byte offsets to character indices: the index of the character starting
/// at byte `b`, when `b` is a character boundary of `s`.
fn char_index_of_byte(s: &Vec<char>, b: usize) -> (r: Option<usize>)
    ensures
        match r {
            Some(a) => a <= s.len() && utf8_len(s@.take(a as int)) == b,
            None => forall|a: int| 0 <= a <= s.len() ==> utf8_len(#[trigger] s@.take(a)) != b,
        },
{
    let mut i: usize = 0;
    let mut acc: usize = 0;
    proof {
        assert(s@.take(0) =~= Seq::<char>::empty());
    }
    while i < s.len() && acc < b
        invariant
            i <= s.len(),
            acc == utf8_len(s@.take(i as int)),
            acc <= b,
            forall|a: int| 0 <= a < i ==> utf8_len(#[trigger] s@.take(a)) < b,
        decreases s.len() - i,
    {
        proof {
            lemma_utf8_len_prefix_step(s@, i as int);
        }
        let l = char_len_utf8(s[i]);
        if l > b - acc {
            proof {
                assert forall|a: int| 0 <= a <= s.len() implies utf8_len(#[trigger] s@.take(a)) != b by {
                    if a > i + 1 {
                        lemma_utf8_len_prefix_mono(s@, i + 1, a);
                    }
                }
            }
            return None;
        }
        acc = acc + l;
        i = i + 1;
    }
    if acc == b {
        return Some(i);
    }
    proof {
        assert forall|a: int| 0 <= a <= s.len() implies utf8_len(#[trigger] s@.take(a)) != b by {
            if a > i {
                lemma_utf8_len_prefix_mono(s@, i as int, a);
            }
        }
    }
    None
}

fn node_chars(s: &Vec<char>, start: usize, end: usize) -> (r: Option<Vec<char>>)
    ensures
        match (r, byte_range_chars(s@, start as int, end as int)) {
            (Some(v), Some(t)) => v@ == t,
            (None, None) => true,
            _ => false,
        },
{
    let a = char_index_of_byte(s, start);
    let b = char_index_of_byte(s, end);
    match (a, b) {
        (Some(a), Some(b)) => {
            if a <= b {
                proof {
                    let (x, y) = choose|x: int, y: int|
                        0 <= x <= y <= s@.len() && utf8_len(#[trigger] s@.take(x)) == start
                            && utf8_len(#[trigger] s@.take(y)) == end;
                    if x < a {
                        lemma_utf8_len_prefix_mono(s@, x, a as int);
                    }
                    if x > a {
                        lemma_utf8_len_prefix_mono(s@, a as int, x);
                    }
                    if y < b {
                        lemma_utf8_len_prefix_mono(s@, y, b as int);
                    }
                    if y > b {
                        lemma_utf8_len_prefix_mono(s@, b as int, y);
                    }
                }
                Some(slice_chars(s, a, b))
            } else {
                proof {
                    assert forall|x: int, y: int|
                        0 <= x <= y <= s@.len() && utf8_len(#[trigger] s@.take(x)) == start
                            implies utf8_len(#[trigger] s@.take(y)) != end by {
                        if x < a {
                            lemma_utf8_len_prefix_mono(s@, x, a as int);
                        }
                        if x > a {
                            lemma_utf8_len_prefix_mono(s@, a as int, x);
                        }
                        if y < b {
                            lemma_utf8_len_prefix_mono(s@, y, b as int);
                        }
                        if y > b {
                            lemma_utf8_len_prefix_mono(s@, b as int, y);
                        }
                    }
                }
                None
            }
        },
        _ => None,
    }
}

fn push_spanned(out: &mut Vec<ExtractedToken>, words: &Vec<String>, start: usize, end: usize)
    ensures
        tokens_view(final(out)@) == tokens_view(old(out)@) + spanned(
            strings_view(words@),
            start as int,
            end as int,
        ),
{
    let ghost base = tokens_view(out@);
    let ghost wv = strings_view(words@);
    let mut i: usize = 0;
    while i < words.len()
        invariant
            i <= words.len(),
            wv == strings_view(words@),
            tokens_view(out@) == base + spanned(wv.take(i as int), start as int, end as int),
        decreases words.len() - i,
    {
        let ghost before = tokens_view(out@);
        out.push(ExtractedToken { text: words[i].clone(), offset_from: start, offset_to: end });
        proof {
            assert(tokens_view(out@) =~= before.push((wv[i as int], start as int, end as int)));
            assert(spanned(wv.take(i + 1), start as int, end as int) =~= spanned(
                wv.take(i as int),
                start as int,
                end as int,
            ).push((wv[i as int], start as int, end as int)));
        }
        i = i + 1;
    }
    proof {
        assert(wv.take(words.len() as int) =~= wv);
    }
}

fn nonempty_strings(v: &Vec<String>) -> (r: Vec<String>)
    ensures
        strings_view(r@) == nonempty_only(strings_view(v@)),
{
    let ghost vv = strings_view(v@);
    let mut r: Vec<String> = Vec::new();
    let mut i: usize = 0;
    while i < v.len()
        invariant
            i <= v.len(),
            vv == strings_view(v@),
            strings_view(r@) == nonempty_only(vv.take(i as int)),
        decreases v.len() - i,
    {
        let ghost before = strings_view(r@);
        proof {
            assert(vv.take(i + 1).drop_last() =~= vv.take(i as int));
        }
        if !v[i].as_str().is_empty() {
            r.push(v[i].clone());
            proof {
                assert(strings_view(r@) =~= before.push(vv[i as int]));
            }
        }
        i = i + 1;
    }
    proof {
        assert(vv.take(v.len() as int) =~= vv);
    }
    r
}

/// Extract tokens from a syntax tree given as its pre-order node list.
pub fn extract_tokens(
    text: &str,
    nodes: &Vec<SyntaxNode>,
    index_comments: bool,
    index_strings: bool,
) -> (tokens: Vec<ExtractedToken>)
    ensures
        tokens_view(tokens@) == tree_tokens(text@, node_views(nodes@), index_comments, index_strings),
{
    let s = chars_of(text);
    let mut tokens: Vec<ExtractedToken> = Vec::new();
    let mut skip: Option<u32> = None;
    let mut k: usize = 0;
    while k < nodes.len()
        invariant
            k <= nodes.len(),
            s@ == text@,
            (tokens_view(tokens@), skip) == walk_scan(text@, node_views(nodes@), index_comments, index_strings, k as int),
        decreases nodes.len() - k,
    {
        let n = &nodes[k];
        let skipped = match skip {
            Some(d) => n.depth > d,
            None => false,
        };
        if !skipped {
            let ghost before = tokens_view(tokens@);
            let mut new_skip: Option<u32> = None;
            match node_chars(&s, n.start_byte, n.end_byte) {
                Some(t) => {
                    let ts = string_from_chars(&t);
                    if is_identifier_kind(n.kind.as_str()) {
                        let parts = nonempty_strings(&split_identifier(ts.as_str()));
                        push_spanned(&mut tokens, &parts, n.start_byte, n.end_byte);
                        new_skip = Some(n.depth);
                    } else if is_comment_kind(n.kind.as_str()) && index_comments {
                        let tt = crate::textutil::trim_chars(&t);
                        if !crate::textutil::eq_lit(&tt, "/*/") {
                            let content = strip_comment_markers(ts.as_str());
                            let words = tokenize_text(content.as_str());
                            push_spanned(&mut tokens, &words, n.start_byte, n.end_byte);
                            new_skip = Some(n.depth);
                        } else if is_string_kind(n.kind.as_str()) && index_strings {
                            let content = strip_string_delimiters(ts.as_str());
                            let words = tokenize_text(content.as_str());
                            push_spanned(&mut tokens, &words, n.start_byte, n.end_byte);
                            new_skip = Some(n.depth);
                        }
                    } else if is_string_kind(n.kind.as_str()) && index_strings {
                        let content = strip_string_delimiters(ts.as_str());
                        let words = tokenize_text(content.as_str());
                        push_spanned(&mut tokens, &words, n.start_byte, n.end_byte);
                        new_skip = Some(n.depth);
                    }
                },
                None => {},
            }
            skip = new_skip;
        }
        k = k + 1;
    }
    tokens
}

/// Reads a parsed tree out as its pre-order node list.
fn tree_nodes(tree: &ParsedTree) -> (nodes: Vec<SyntaxNode>)
    ensures
        nodes.len() >= 1,
        node_views(nodes@) == parsed_nodes(tree@.0, tree@.1),
{
    let count = tree_node_count(tree);
    let mut cursor = tree_walk(tree);
    let mut nodes: Vec<SyntaxNode> = Vec::new();
    let mut i: usize = 0;
    while i < count
        invariant
            i <= count,
            count >= 1,
            count == parsed_node_count(tree@.0, tree@.1),
            cursor@.0 == tree@.0,
            cursor@.1 == tree@.1,
            nodes.len() == i,
            forall|j: int| 0 <= j < i ==> #[trigger] node_views(nodes@)[j] == parsed_nodes(tree@.0, tree@.1)[j],
        decreases count - i,
    {
        cursor_goto_descendant(&mut cursor, i);
        let kind = cursor_node_kind(&cursor);
        let start_byte = cursor_node_start(&cursor);
        let end_byte = cursor_node_end(&cursor);
        let depth = cursor_depth(&cursor);
        let ghost before = nodes@;
        nodes.push(SyntaxNode { kind, start_byte, end_byte, depth });
        proof {
            assert forall|j: int| 0 <= j < i + 1 implies #[trigger] node_views(nodes@)[j] == parsed_nodes(
                tree@.0,
                tree@.1,
            )[j] by {
                if j < i {
                    assert(nodes@[j] == before[j]);
                    assert(node_views(before)[j] == parsed_nodes(tree@.0, tree@.1)[j]);
                }
            }
        }
        i = i + 1;
    }
    proof {
        assert(node_views(nodes@) =~= parsed_nodes(tree@.0, tree@.1));
    }
    nodes
}

/// The tokens of `text` in language `lang`: those of its syntax tree when
/// tree-sitter accepts the grammar, else fallback splitting.
pub open spec fn parsed_tokens(text: Seq<char>, lang: Language, ic: bool, is: bool) -> Seq<(Seq<char>, int, int)> {
    if grammar_loads(lang) {
        tree_tokens(text, parsed_nodes(Some(lang), text), ic, is)
    } else {
        fallback_tokens(text)
    }
}

/// Parse `text` as `lang` and extract its tokens; when the grammar cannot
/// be loaded, fall back to punctuation splitting.
pub fn parse_and_extract(
    text: &str,
    lang: Language,
    index_comments: bool,
    index_strings: bool,
) -> (tokens: Vec<ExtractedToken>)
    requires
        utf8_len(text@) < usize::MAX,
    ensures
        tokens_view(tokens@) == parsed_tokens(text@, lang, index_comments, index_strings),
{
    let mut parser = parser_new();
    let grammar = grammar_of(lang);
    if !parser_set_language(&mut parser, &grammar) {
        return fallback_tokenize(text);
    }
    let tree = match parser_parse(&mut parser, text) {
        Some(t) => t,
        None => return fallback_tokenize(text),
    };
    let nodes = tree_nodes(&tree);
    extract_tokens(text, &nodes, index_comments, index_strings)
}

impl TreeSitterTokenizer {
    /// The tokens of `text`: parsed with the configured language, or the
    /// detected one; fallback splitting when no language is known.
    pub fn tokens(&self, text: &str) -> (tokens: Vec<ExtractedToken>)
        requires
            utf8_len(text@) < usize::MAX,
            self.language is Some || shebang_language(text@) is Some || keyword_sample_ok(text@),
        ensures
            tokens_view(tokens@) == match (if self.language is Some {
                self.language
            } else {
                content_language(text@)
            }) {
                Some(l) => parsed_tokens(text@, l, self.index_comments, self.index_strings),
                None => fallback_tokens(text@),
            },
    {
        let lang = match self.language {
            Some(l) => Some(l),
            None => language_from_content(text),
        };
        match lang {
            Some(l) => parse_and_extract(text, l, self.index_comments, self.index_strings),
            None => fallback_tokenize(text),
        }
    }
}

} // verus!
