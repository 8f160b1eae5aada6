//! Bindings to the `tree_sitter` crate and its grammar crates: the outside
//! types used by the code tokenizer and one trusted wrapper per call.

use crate::language::Language;
use tree_sitter::Language as TsGrammar;
use vstd::prelude::*;

verus! {

// ---------------------------------------------------------------------------
// Outside types of the tree-sitter crate
// ---------------------------------------------------------------------------

#[verifier::external_type_specification]
#[verifier::external_body]
pub struct ExTsGrammar(TsGrammar);

#[verifier::external_type_specification]
#[verifier::external_body]
pub struct ExTsParser(tree_sitter::Parser);

#[verifier::external_type_specification]
#[verifier::external_body]
pub struct ExTsTree(tree_sitter::Tree);

#[verifier::external_type_specification]
#[verifier::external_body]
pub struct ExTsTreeCursor<'a>(tree_sitter::TreeCursor<'a>);

// ---------------------------------------------------------------------------
// Grammars
// ---------------------------------------------------------------------------

/// The Rust grammar (`tree_sitter_rust::LANGUAGE`).
#[verifier::external_body]
pub(crate) fn grammar_rust() -> TsGrammar {
    tree_sitter_rust::LANGUAGE.into()
}

/// The Python grammar (`tree_sitter_python::LANGUAGE`).
#[verifier::external_body]
pub(crate) fn grammar_python() -> TsGrammar {
    tree_sitter_python::LANGUAGE.into()
}

/// The JavaScript grammar (`tree_sitter_javascript::LANGUAGE`).
#[verifier::external_body]
pub(crate) fn grammar_javascript() -> TsGrammar {
    tree_sitter_javascript::LANGUAGE.into()
}

/// The TypeScript grammar (`tree_sitter_typescript::LANGUAGE_TYPESCRIPT`).
#[verifier::external_body]
pub(crate) fn grammar_typescript() -> TsGrammar {
    tree_sitter_typescript::LANGUAGE_TYPESCRIPT.into()
}

/// The Go grammar (`tree_sitter_go::LANGUAGE`).
#[verifier::external_body]
pub(crate) fn grammar_go() -> TsGrammar {
    tree_sitter_go::LANGUAGE.into()
}

/// The C grammar (`tree_sitter_c::LANGUAGE`).
#[verifier::external_body]
pub(crate) fn grammar_c() -> TsGrammar {
    tree_sitter_c::LANGUAGE.into()
}

/// The C++ grammar (`tree_sitter_cpp::LANGUAGE`).
#[verifier::external_body]
pub(crate) fn grammar_cpp() -> TsGrammar {
    tree_sitter_cpp::LANGUAGE.into()
}

/// The Ruby grammar (`tree_sitter_ruby::LANGUAGE`).
#[verifier::external_body]
pub(crate) fn grammar_ruby() -> TsGrammar {
    tree_sitter_ruby::LANGUAGE.into()
}

/// The Elixir grammar (`tree_sitter_elixir::LANGUAGE`).
#[verifier::external_body]
pub(crate) fn grammar_elixir() -> TsGrammar {
    tree_sitter_elixir::LANGUAGE.into()
}

/// The Erlang grammar (`tree_sitter_erlang::LANGUAGE`).
#[verifier::external_body]
pub(crate) fn grammar_erlang() -> TsGrammar {
    tree_sitter_erlang::LANGUAGE.into()
}

/// The Bash grammar (`tree_sitter_bash::LANGUAGE`).
#[verifier::external_body]
pub(crate) fn grammar_bash() -> TsGrammar {
    tree_sitter_bash::LANGUAGE.into()
}

/// The YAML grammar (`tree_sitter_yaml::LANGUAGE`).
#[verifier::external_body]
pub(crate) fn grammar_yaml() -> TsGrammar {
    tree_sitter_yaml::LANGUAGE.into()
}

/// The TOML grammar (`tree_sitter_toml_ng::LANGUAGE`).
#[verifier::external_body]
pub(crate) fn grammar_toml() -> TsGrammar {
    tree_sitter_toml_ng::LANGUAGE.into()
}

/// The JSON grammar (`tree_sitter_json::LANGUAGE`).
#[verifier::external_body]
pub(crate) fn grammar_json() -> TsGrammar {
    tree_sitter_json::LANGUAGE.into()
}

/// The HTML grammar (`tree_sitter_html::LANGUAGE`).
#[verifier::external_body]
pub(crate) fn grammar_html() -> TsGrammar {
    tree_sitter_html::LANGUAGE.into()
}

/// The SQL grammar (`tree_sitter_sequel::LANGUAGE`).
#[verifier::external_body]
pub(crate) fn grammar_sql() -> TsGrammar {
    tree_sitter_sequel::LANGUAGE.into()
}

// ---------------------------------------------------------------------------
// A grammar together with the language it belongs to
// ---------------------------------------------------------------------------

/// A tree-sitter grammar and the language whose grammar crate gave it. Only
/// `grammar_of` makes one, so the two always belong together.
pub struct Grammar {
    inner: TsGrammar,
    lang: Language,
}

impl View for Grammar {
    type V = Language;

    closed spec fn view(&self) -> Language {
        self.lang
    }
}

impl Grammar {
    /// The tree-sitter grammar itself.
    pub fn into_grammar(self) -> TsGrammar {
        self.inner
    }
}

/// The grammar of a language, from its grammar crate.
pub fn grammar_of(lang: Language) -> (g: Grammar)
    ensures
        g@ == lang,
{
    let inner = match lang {
        Language::Rust => grammar_rust(),
        Language::Python => grammar_python(),
        Language::JavaScript => grammar_javascript(),
        Language::TypeScript => grammar_typescript(),
        Language::Go => grammar_go(),
        Language::C => grammar_c(),
        Language::Cpp => grammar_cpp(),
        Language::Ruby => grammar_ruby(),
        Language::Elixir => grammar_elixir(),
        Language::Erlang => grammar_erlang(),
        Language::Bash => grammar_bash(),
        Language::Yaml => grammar_yaml(),
        Language::Toml => grammar_toml(),
        Language::Json => grammar_json(),
        Language::Html => grammar_html(),
        Language::Sql => grammar_sql(),
    };
    Grammar { inner, lang }
}

// ---------------------------------------------------------------------------
// What tree-sitter gives for a language and a text
// ---------------------------------------------------------------------------

/// Whether `Parser::set_language` accepts this language's grammar (its ABI
/// version is supported and it can parse).
pub uninterp spec fn grammar_loads(lang: Language) -> bool;

/// `descendant_count` of the root of the tree parsed from `text`.
pub uninterp spec fn parsed_node_count(lang: Option<Language>, text: Seq<char>) -> usize;

/// `Node::kind` of the node with pre-order index `i` of that tree.
pub uninterp spec fn parsed_kind(lang: Option<Language>, text: Seq<char>, i: usize) -> Seq<char>;

/// `Node::start_byte` of the node with pre-order index `i` of that tree.
pub uninterp spec fn parsed_start(lang: Option<Language>, text: Seq<char>, i: usize) -> usize;

/// `Node::end_byte` of the node with pre-order index `i` of that tree.
pub uninterp spec fn parsed_end(lang: Option<Language>, text: Seq<char>, i: usize) -> usize;

/// `TreeCursor::depth` at the node with pre-order index `i` of that tree.
pub uninterp spec fn parsed_depth(lang: Option<Language>, text: Seq<char>, i: usize) -> u32;

/// A parser and the language it was last given.
pub struct LangParser {
    parser: tree_sitter::Parser,
    lang: Option<Language>,
}

impl View for LangParser {
    type V = Option<Language>;

    closed spec fn view(&self) -> Option<Language> {
        self.lang
    }
}

/// A syntax tree, with the language and the text it was parsed from.
pub struct ParsedTree {
    tree: tree_sitter::Tree,
    lang: Option<Language>,
    text: String,
}

impl View for ParsedTree {
    type V = (Option<Language>, Seq<char>);

    closed spec fn view(&self) -> (Option<Language>, Seq<char>) {
        (self.lang, self.text@)
    }
}

/// A cursor on a parsed tree, and the pre-order index of its node.
pub struct NodeWalker<'a> {
    cursor: tree_sitter::TreeCursor<'a>,
    lang: Option<Language>,
    text: &'a str,
    at: usize,
}

impl<'a> View for NodeWalker<'a> {
    type V = (Option<Language>, Seq<char>, usize);

    closed spec fn view(&self) -> (Option<Language>, Seq<char>, usize) {
        (self.lang, self.text@, self.at)
    }
}

/// Calls `tree_sitter::Parser::new`: a parser with no language.
#[verifier::external_body]
pub(crate) fn parser_new() -> (p: LangParser)
    ensures
        p@ is None,
{
    LangParser { parser: tree_sitter::Parser::new(), lang: None }
}

/// Calls `tree_sitter::Parser::set_language` with the grammar. Claimed: it
/// succeeds or not by the grammar alone (its ABI version and whether it can
/// parse, as the source shows); on success the parser has that language, on
/// failure it is left as it was.
#[verifier::external_body]
pub(crate) fn parser_set_language(p: &mut LangParser, g: &Grammar) -> (r: bool)
    ensures
        r == grammar_loads(g@),
        r ==> final(p)@ == Some(g@),
        !r ==> final(p)@ == old(p)@,
{
    match p.parser.set_language(&g.inner) {
        Ok(()) => {
            p.lang = Some(g.lang);
            true
        },
        Err(_) => false,
    }
}

/// Calls `tree_sitter::Parser::parse` on `text` (no previous tree, no
/// timeout). Claimed, as its documentation says: `None` exactly when the
/// parser has no language; the tree is that of the parser's language and
/// this text.
#[verifier::external_body]
pub(crate) fn parser_parse(p: &mut LangParser, text: &str) -> (r: Option<ParsedTree>)
    ensures
        final(p)@ == old(p)@,
        r is None <==> old(p)@ is None,
        r matches Some(t) ==> t@ == (old(p)@, text@),
{
    match p.parser.parse(text, None) {
        Some(tree) => Some(ParsedTree { tree, lang: p.lang, text: text.to_string() }),
        None => None,
    }
}

/// Calls `tree_sitter::Node::descendant_count` on the tree's root node.
/// Claimed: the named count, which includes the root itself, as the
/// documentation says.
#[verifier::external_body]
pub(crate) fn tree_node_count(t: &ParsedTree) -> (n: usize)
    ensures
        n >= 1,
        n == parsed_node_count(t@.0, t@.1),
{
    t.tree.root_node().descendant_count()
}

/// Calls `tree_sitter::Tree::walk`: a cursor on the root node, whose
/// pre-order index is 0.
#[verifier::external_body]
pub(crate) fn tree_walk<'a>(t: &'a ParsedTree) -> (w: NodeWalker<'a>)
    ensures
        w@ == (t@.0, t@.1, 0usize),
{
    NodeWalker { cursor: t.tree.walk(), lang: t.lang, text: t.text.as_str(), at: 0 }
}

/// Calls `tree_sitter::TreeCursor::goto_descendant`: moves to the node with
/// that pre-order index.
#[verifier::external_body]
pub(crate) fn cursor_goto_descendant(w: &mut NodeWalker, index: usize)
    requires
        index < parsed_node_count(old(w)@.0, old(w)@.1),
    ensures
        final(w)@ == (old(w)@.0, old(w)@.1, index),
{
    w.cursor.goto_descendant(index);
    w.at = index;
}

/// Calls `tree_sitter::TreeCursor::depth`. Claimed: the named depth.
#[verifier::external_body]
pub(crate) fn cursor_depth(w: &NodeWalker) -> (r: u32)
    ensures
        r == parsed_depth(w@.0, w@.1, w@.2),
{
    w.cursor.depth()
}

/// Calls `tree_sitter::Node::kind` on the cursor's node. Claimed: the named
/// kind.
#[verifier::external_body]
pub(crate) fn cursor_node_kind(w: &NodeWalker) -> (r: String)
    ensures
        r@ == parsed_kind(w@.0, w@.1, w@.2),
{
    w.cursor.node().kind().to_string()
}

/// Calls `tree_sitter::Node::start_byte` on the cursor's node. Claimed: the
/// named offset.
#[verifier::external_body]
pub(crate) fn cursor_node_start(w: &NodeWalker) -> (r: usize)
    ensures
        r == parsed_start(w@.0, w@.1, w@.2),
{
    w.cursor.node().start_byte()
}

/// Calls `tree_sitter::Node::end_byte` on the cursor's node. Claimed: the
/// named offset.
#[verifier::external_body]
pub(crate) fn cursor_node_end(w: &NodeWalker) -> (r: usize)
    ensures
        r == parsed_end(w@.0, w@.1, w@.2),
{
    w.cursor.node().end_byte()
}

} // verus!
