//! Splitting of code identifiers (camelCase, PascalCase, snake_case,
//! kebab-case, digit boundaries) and of comment or string text into
//! lower-cased words.

use crate::textutil::{
    ascii_digit, char_is_alphabetic, char_is_alphanumeric, char_is_lowercase, char_is_uppercase,
    is_alphabetic, is_alphanumeric, is_ascii_digit, is_lowercase, is_uppercase, lowercase,
    lowercase_chars, string_from_chars, chars_of, slice_chars,
};
use vstd::prelude::*;

verus! {

/// The character views of a vector of strings.
pub open spec fn strings_view(v: Seq<String>) -> Seq<Seq<char>> {
    v.map_values(|x: String| x@)
}

// ---------------------------------------------------------------------------
// Identifier splitting
// ---------------------------------------------------------------------------

/// `_` and `-` separate identifier words and are dropped.
pub open spec fn is_ident_separator(c: char) -> bool {
    c == '_' || c == '-'
}

/// A word boundary falls right before position `i` (which is not a
/// separator): letter/digit changes, lower-to-upper case changes, and the
/// last capital of an acronym that is followed by a lower-case letter.
pub open spec fn boundary_before(s: Seq<char>, i: int) -> bool {
    0 < i < s.len() && {
        let p = s[i - 1];
        let c = s[i];
        ||| is_alphabetic(p) && is_ascii_digit(c)
        ||| is_ascii_digit(p) && is_alphabetic(c)
        ||| is_lowercase(p) && is_uppercase(c)
        ||| is_uppercase(p) && is_uppercase(c) && i + 1 < s.len() && is_lowercase(s[i + 1])
    }
}

/// State of the identifier scan after the first `n` characters of `s`: the
/// finished words and the start of the word in progress.
pub open spec fn ident_scan(s: Seq<char>, n: int) -> (Seq<Seq<char>>, int)
    decreases n,
{
    if n <= 0 {
        (Seq::empty(), 0)
    } else {
        let (ws, st) = ident_scan(s, n - 1);
        let i = n - 1;
        if is_ident_separator(s[i]) {
            (if st < i { ws.push(s.subrange(st, i)) } else { ws }, i + 1)
        } else if boundary_before(s, i) && st < i {
            (ws.push(s.subrange(st, i)), i)
        } else {
            (ws, st)
        }
    }
}

/// The words of identifier `s`, before lower-casing.
pub open spec fn ident_words(s: Seq<char>) -> Seq<Seq<char>> {
    let (ws, st) = ident_scan(s, s.len() as int);
    if st < s.len() {
        ws.push(s.subrange(st, s.len() as int))
    } else {
        ws
    }
}

/// The parts `split_identifier` returns: each word, lower-cased.
pub open spec fn identifier_parts(s: Seq<char>) -> Seq<Seq<char>> {
    ident_words(s).map_values(|w: Seq<char>| lowercase(w))
}

proof fn lemma_ident_scan_bounds(s: Seq<char>, n: int)
    requires
        0 <= n <= s.len(),
    ensures
        0 <= ident_scan(s, n).1 <= n,
    decreases n,
{
    if n > 0 {
        lemma_ident_scan_bounds(s, n - 1);
    }
}

/// Split a code identifier into lower-cased component words.
pub fn split_identifier(ident: &str) -> (parts: Vec<String>)
    ensures
        strings_view(parts@) == identifier_parts(ident@),
{
    let chars = chars_of(ident);
    let ghost s = chars@;
    let mut parts: Vec<String> = Vec::new();
    if chars.len() == 0 {
        proof {
            assert(strings_view(parts@) =~= identifier_parts(ident@));
        }
        return parts;
    }
    let mut current_start: usize = 0;
    let mut i: usize = 0;
    while i < chars.len()
        invariant
            s == chars@,
            i <= chars.len(),
            current_start <= i,
            current_start == ident_scan(s, i as int).1,
            strings_view(parts@) == ident_scan(s, i as int).0.map_values(|w: Seq<char>| lowercase(w)),
        decreases chars.len() - i,
    {
        let c = chars[i];
        let ghost before = ident_scan(s, i as int);
        let ghost old_parts = strings_view(parts@);
        if c == '_' || c == '-' {
            if current_start < i {
                let w = slice_chars(&chars, current_start, i);
                let lw = lowercase_chars(&w);
                parts.push(string_from_chars(&lw));
                proof {
                    assert(strings_view(parts@) =~= old_parts.push(lowercase(w@)));
                    assert(before.0.push(w@).map_values(|w: Seq<char>| lowercase(w)) =~= before.0.map_values(
                        |w: Seq<char>| lowercase(w),
                    ).push(lowercase(w@)));
                }
            }
            current_start = i + 1;
            i = i + 1;
        } else {
            let mut should_split = false;
            if i > 0 {
                let p = chars[i - 1];
                if (char_is_alphabetic(p) && ascii_digit(c)) || (ascii_digit(p) && char_is_alphabetic(c)) {
                    should_split = true;
                }
                if char_is_lowercase(p) && char_is_uppercase(c) {
                    should_split = true;
                }
                if char_is_uppercase(p) && char_is_uppercase(c) {
                    if i + 1 < chars.len() {
                        let n = chars[i + 1];
                        if char_is_lowercase(n) {
                            should_split = true;
                        }
                    }
                }
            }
            assert(should_split == boundary_before(s, i as int));
            if should_split && current_start < i {
                let w = slice_chars(&chars, current_start, i);
                let lw = lowercase_chars(&w);
                parts.push(string_from_chars(&lw));
                proof {
                    assert(strings_view(parts@) =~= old_parts.push(lowercase(w@)));
                    assert(before.0.push(w@).map_values(|w: Seq<char>| lowercase(w)) =~= before.0.map_values(
                        |w: Seq<char>| lowercase(w),
                    ).push(lowercase(w@)));
                }
                current_start = i;
            }
            i = i + 1;
        }
    }
    if current_start < chars.len() {
        let w = slice_chars(&chars, current_start, chars.len());
        let lw = lowercase_chars(&w);
        let ghost old_parts = strings_view(parts@);
        parts.push(string_from_chars(&lw));
        proof {
            let sc = ident_scan(s, s.len() as int);
            assert(strings_view(parts@) =~= old_parts.push(lowercase(w@)));
            assert(sc.0.push(w@).map_values(|w: Seq<char>| lowercase(w)) =~= sc.0.map_values(
                |w: Seq<char>| lowercase(w),
            ).push(lowercase(w@)));
        }
    }
    parts
}

// ---------------------------------------------------------------------------
// Splitting text at delimiter characters (`str::split` with a predicate)
// ---------------------------------------------------------------------------

/// Pieces of `s` between the characters satisfying `d` (as `str::split`:
/// `k` delimiters give `k + 1` pieces, possibly empty).
pub open spec fn split_seq(s: Seq<char>, d: spec_fn(char) -> bool) -> Seq<Seq<char>>
    decreases s.len(),
{
    if s.len() == 0 {
        seq![Seq::<char>::empty()]
    } else {
        let prev = split_seq(s.drop_last(), d);
        if d(s.last()) {
            prev.push(Seq::<char>::empty())
        } else {
            prev.update(prev.len() - 1, prev.last().push(s.last()))
        }
    }
}

proof fn lemma_split_seq_nonempty(s: Seq<char>, d: spec_fn(char) -> bool)
    ensures
        split_seq(s, d).len() >= 1,
    decreases s.len(),
{
    if s.len() > 0 {
        lemma_split_seq_nonempty(s.drop_last(), d);
    }
}

/// `split_seq` always yields at least one piece.
pub proof fn lemma_split_seq_nonempty_pub(s: Seq<char>, d: spec_fn(char) -> bool)
    ensures
        split_seq(s, d).len() >= 1,
{
    lemma_split_seq_nonempty(s, d);
}

/// Step lemma: the pieces of the first `i + 1` characters.
pub proof fn lemma_split_seq_step(s: Seq<char>, d: spec_fn(char) -> bool, i: int)
    requires
        0 <= i < s.len(),
    ensures
        split_seq(s.take(i + 1), d) == (if d(s[i]) {
            split_seq(s.take(i), d).push(Seq::<char>::empty())
        } else {
            let prev = split_seq(s.take(i), d);
            prev.update(prev.len() - 1, prev.last().push(s[i]))
        }),
{
    assert(s.take(i + 1).drop_last() =~= s.take(i));
}

/// Delimiters of comment and string text: anything that is neither
/// alphanumeric nor `_`.
pub open spec fn text_delimiter() -> spec_fn(char) -> bool {
    |c: char| !is_alphanumeric(c) && c != '_'
}

/// Whether a piece is at least two characters long.
pub fn long_enough(p: &Vec<char>) -> (r: bool)
    ensures
        r == (p@.len() >= 2),
{
    p.len() >= 2
}

/// The words kept from text pieces: pieces of at least two characters,
/// lower-cased.
pub open spec fn text_words(ps: Seq<Seq<char>>) -> Seq<Seq<char>>
    decreases ps.len(),
{
    if ps.len() == 0 {
        Seq::empty()
    } else {
        let prev = text_words(ps.drop_last());
        if ps.last().len() >= 2 {
            prev.push(lowercase(ps.last()))
        } else {
            prev
        }
    }
}

/// Words of comment or string text.
pub open spec fn text_tokens(s: Seq<char>) -> Seq<Seq<char>> {
    text_words(split_seq(s, text_delimiter()))
}

/// Law: two characters that are letters, digits or `_` make a word of their
/// own, lower-cased, while a single such character is too short to be kept.
pub proof fn lemma_text_tokens_min_length(a: char, b: char)
    requires
        is_alphanumeric(a) || a == '_',
        is_alphanumeric(b) || b == '_',
    ensures
        text_tokens(seq![a, b]) == seq![lowercase(seq![a, b])],
        text_tokens(seq![a]) == Seq::<Seq<char>>::empty(),
{
    let d = text_delimiter();
    let one = seq![a];
    let two = seq![a, b];
    assert(one.drop_last() =~= Seq::<char>::empty());
    assert(two.drop_last() =~= one);
    assert(Seq::<char>::empty().push(a) =~= one);
    let e = split_seq(Seq::<char>::empty(), d);
    assert(e == seq![Seq::<char>::empty()]);
    assert(one.last() == a && !d(a));
    assert(e.update(0, e.last().push(a)) =~= seq![one]);
    assert(split_seq(one, d) =~= seq![one]);
    assert(one.push(b) =~= two);
    assert(split_seq(two, d) =~= seq![two]);
    assert(seq![one].drop_last() =~= Seq::<Seq<char>>::empty());
    assert(seq![two].drop_last() =~= Seq::<Seq<char>>::empty());
    assert(seq![one].last() == one && one.len() == 1);
    assert(text_words(Seq::<Seq<char>>::empty()) == Seq::<Seq<char>>::empty());
    assert(text_words(seq![one]) =~= Seq::<Seq<char>>::empty());
    assert(text_words(seq![two]) =~= seq![lowercase(two)]);
}

/// Tokenize comment or string content into lower-cased words of at least
/// two characters, splitting at every character that is neither alphanumeric nor
/// `_`.
pub fn tokenize_text(text: &str) -> (words: Vec<String>)
    ensures
        strings_view(words@) == text_tokens(text@),
{
    let chars = chars_of(text);
    let ghost s = chars@;
    let ghost d = text_delimiter();
    let mut words: Vec<String> = Vec::new();
    let mut cur: Vec<char> = Vec::new();
    let mut i: usize = 0;
    proof {
        assert(s.take(0) =~= Seq::<char>::empty());
    }
    while i < chars.len()
        invariant
            s == chars@,
            d == text_delimiter(),
            i <= chars.len(),
            split_seq(s.take(i as int), d).len() >= 1,
            cur@ == split_seq(s.take(i as int), d).last(),
            strings_view(words@) == text_words(split_seq(s.take(i as int), d).drop_last()),
        decreases chars.len() - i,
    {
        let c = chars[i];
        let ghost prev = split_seq(s.take(i as int), d);
        proof {
            lemma_split_seq_step(s, d, i as int);
        }
        if !char_is_alphanumeric(c) && c != '_' {
            let ghost old_words = strings_view(words@);
            if long_enough(&cur) {
                let lw = lowercase_chars(&cur);
                words.push(string_from_chars(&lw));
                proof {
                    assert(strings_view(words@) =~= old_words.push(lowercase(cur@)));
                }
            }
            proof {
                let next = prev.push(Seq::<char>::empty());
                assert(next.drop_last() =~= prev);
                assert(prev =~= prev.drop_last().push(prev.last()));
            }
            cur = Vec::new();
        } else {
            cur.push(c);
            proof {
                let next = prev.update(prev.len() - 1, prev.last().push(c));
                assert(next.drop_last() =~= prev.drop_last());
            }
        }
        i = i + 1;
        proof {
            lemma_split_seq_nonempty(s.take(i as int), d);
        }
    }
    proof {
        assert(s.take(s.len() as int) =~= s);
        let ps = split_seq(s, d);
        assert(ps =~= ps.drop_last().push(ps.last()));
    }
    if long_enough(&cur) {
        let lw = lowercase_chars(&cur);
        words.push(string_from_chars(&lw));
    }
    proof {
        let ps = split_seq(s, d);
        assert(ps.drop_last() =~= ps.drop_last());
        assert(strings_view(words@) =~= text_words(ps));
    }
    words
}

// ---------------------------------------------------------------------------
// What splitting keeps
// ---------------------------------------------------------------------------

/// The words of `ws`, one after the other.
pub open spec fn concat_words(ws: Seq<Seq<char>>) -> Seq<char>
    decreases ws.len(),
{
    if ws.len() == 0 {
        Seq::empty()
    } else {
        concat_words(ws.drop_last()) + ws.last()
    }
}

/// `s` without its `_` and `-` characters.
pub open spec fn strip_separators(s: Seq<char>) -> Seq<char>
    decreases s.len(),
{
    if s.len() == 0 {
        s
    } else if is_ident_separator(s.last()) {
        strip_separators(s.drop_last())
    } else {
        strip_separators(s.drop_last()).push(s.last())
    }
}

/// No character of `w` is a separator.
pub open spec fn no_separator(w: Seq<char>) -> bool {
    forall|k: int| 0 <= k < w.len() ==> !is_ident_separator(#[trigger] w[k])
}

proof fn lemma_concat_push(ws: Seq<Seq<char>>, w: Seq<char>)
    ensures
        concat_words(ws.push(w)) == concat_words(ws) + w,
{
    assert(ws.push(w).drop_last() =~= ws);
}

proof fn lemma_ident_scan_inv(s: Seq<char>, n: int)
    requires
        0 <= n <= s.len(),
    ensures
        0 <= ident_scan(s, n).1 <= n,
        no_separator(s.subrange(ident_scan(s, n).1, n)),
        concat_words(ident_scan(s, n).0) + s.subrange(ident_scan(s, n).1, n) == strip_separators(s.take(n)),
        forall|k: int|
            0 <= k < ident_scan(s, n).0.len() ==> (#[trigger] ident_scan(s, n).0[k]).len() > 0 && no_separator(
                ident_scan(s, n).0[k],
            ),
    decreases n,
{
    if n == 0 {
        assert(s.take(0) =~= Seq::<char>::empty());
        assert(s.subrange(0, 0) =~= Seq::<char>::empty());
    } else {
        lemma_ident_scan_inv(s, n - 1);
        let (ws, st) = ident_scan(s, n - 1);
        let i = n - 1;
        let c = s[i];
        assert(s.take(n).drop_last() =~= s.take(i));
        assert(s.take(n).last() == c);
        let (ws2, st2) = ident_scan(s, n);
        if is_ident_separator(c) {
            if st < i {
                lemma_concat_push(ws, s.subrange(st, i));
                assert forall|k: int| 0 <= k < ws2.len() implies (#[trigger] ws2[k]).len() > 0 && no_separator(ws2[k]) by {
                    if k < ws.len() {
                        assert(ws2[k] == ws[k]);
                    }
                }
            }
            assert(s.subrange(st2, n) =~= Seq::<char>::empty());
            assert(concat_words(ws2) + Seq::<char>::empty() =~= concat_words(ws2));
            assert(concat_words(ws) + s.subrange(st, i) == strip_separators(s.take(i)));
        } else if boundary_before(s, i) && st < i {
            lemma_concat_push(ws, s.subrange(st, i));
            assert(s.subrange(i, n) =~= seq![c]);
            assert(concat_words(ws2) + s.subrange(st2, n) =~= (concat_words(ws) + s.subrange(st, i)).push(c));
            assert forall|k: int| 0 <= k < ws2.len() implies (#[trigger] ws2[k]).len() > 0 && no_separator(ws2[k]) by {
                if k < ws.len() {
                    assert(ws2[k] == ws[k]);
                }
            }
            assert forall|k: int| 0 <= k < s.subrange(st2, n).len() implies !is_ident_separator(
                #[trigger] s.subrange(st2, n)[k],
            ) by {}
        } else {
            assert(s.subrange(st, n) =~= s.subrange(st, i).push(c));
            assert(concat_words(ws) + s.subrange(st, n) =~= (concat_words(ws) + s.subrange(st, i)).push(c));
            assert forall|k: int| 0 <= k < s.subrange(st, n).len() implies !is_ident_separator(
                #[trigger] s.subrange(st, n)[k],
            ) by {
                if k < i - st {
                    assert(s.subrange(st, n)[k] == s.subrange(st, i)[k]);
                }
            }
        }
    }
}

/// No word of an identifier straddles a digit/letter change, a lower-to-upper
/// case change or the end of an acronym: inside the word, an ASCII digit is
/// never next to an alphabetic character, a lower-case character is never
/// followed by an upper-case one, and two upper-case characters are never
/// followed by a lower-case one.
pub open spec fn unbroken_word(w: Seq<char>) -> bool {
    forall|j: int|
        0 <= j && j + 1 < w.len() ==> {
            &&& !(is_ascii_digit(#[trigger] w[j]) && is_alphabetic(w[j + 1]))
            &&& !(is_alphabetic(w[j]) && is_ascii_digit(w[j + 1]))
            &&& !(is_lowercase(w[j]) && is_uppercase(w[j + 1]))
            &&& !(j + 2 < w.len() && is_uppercase(w[j]) && is_uppercase(w[j + 1]) && is_lowercase(
                w[j + 2],
            ))
        }
}

/// A stretch of an identifier with no word boundary inside it is unbroken.
proof fn lemma_segment_unbroken(s: Seq<char>, a: int, b: int)
    requires
        0 <= a <= b <= s.len(),
        forall|p: int| a < p < b ==> !#[trigger] boundary_before(s, p),
    ensures
        unbroken_word(s.subrange(a, b)),
{
    let w = s.subrange(a, b);
    assert forall|j: int| 0 <= j && j + 1 < w.len() implies {
        &&& !(is_ascii_digit(#[trigger] w[j]) && is_alphabetic(w[j + 1]))
        &&& !(is_alphabetic(w[j]) && is_ascii_digit(w[j + 1]))
        &&& !(is_lowercase(w[j]) && is_uppercase(w[j + 1]))
        &&& !(j + 2 < w.len() && is_uppercase(w[j]) && is_uppercase(w[j + 1]) && is_lowercase(
            w[j + 2],
        ))
    } by {
        let p = a + j + 1;
        assert(!boundary_before(s, p));
        assert(w[j] == s[p - 1] && w[j + 1] == s[p]);
        if j + 2 < w.len() {
            assert(w[j + 2] == s[p + 1]);
        }
    }
}

proof fn lemma_ident_scan_unbroken(s: Seq<char>, n: int)
    requires
        0 <= n <= s.len(),
    ensures
        0 <= ident_scan(s, n).1 <= n,
        forall|p: int| ident_scan(s, n).1 < p < n ==> !#[trigger] boundary_before(s, p),
        forall|k: int| 0 <= k < ident_scan(s, n).0.len() ==> unbroken_word(#[trigger] ident_scan(s, n).0[k]),
    decreases n,
{
    if n > 0 {
        lemma_ident_scan_unbroken(s, n - 1);
        let (ws, st) = ident_scan(s, n - 1);
        let i = n - 1;
        let (ws2, st2) = ident_scan(s, n);
        if st < i {
            lemma_segment_unbroken(s, st, i);
        }
        assert forall|k: int| 0 <= k < ws2.len() implies unbroken_word(#[trigger] ws2[k]) by {
            if k < ws.len() {
                assert(ws2[k] == ws[k]);
            } else {
                assert(ws2[k] == s.subrange(st, i));
            }
        }
    }
}

/// Law: every word an identifier splits into is unbroken (see
/// `unbroken_word`): a digit followed by a letter, a letter followed by a
/// digit, a lower-case letter followed by an upper-case one, and the last
/// upper-case letter of an acronym followed by a lower-case one always start
/// a new word.
pub proof fn lemma_ident_words_unbroken(s: Seq<char>)
    ensures
        forall|k: int| 0 <= k < ident_words(s).len() ==> unbroken_word(#[trigger] ident_words(s)[k]),
{
    lemma_ident_scan_unbroken(s, s.len() as int);
    let (ws, st) = ident_scan(s, s.len() as int);
    let r = ident_words(s);
    if st < s.len() {
        lemma_segment_unbroken(s, st, s.len() as int);
    }
    assert forall|k: int| 0 <= k < r.len() implies unbroken_word(#[trigger] r[k]) by {
        if k < ws.len() {
            assert(r[k] == ws[k]);
        } else {
            assert(r[k] == s.subrange(st, s.len() as int));
        }
    }
}

/// Law: splitting an identifier loses nothing but its separators. Its words
/// are non-empty, hold no `_` or `-`, and, put back together, give the
/// identifier without separators; `split_identifier` returns these words
/// lower-cased.
pub proof fn lemma_ident_words_law(s: Seq<char>)
    ensures
        concat_words(ident_words(s)) == strip_separators(s),
        forall|k: int|
            0 <= k < ident_words(s).len() ==> (#[trigger] ident_words(s)[k]).len() > 0 && no_separator(
                ident_words(s)[k],
            ),
        identifier_parts(s) == ident_words(s).map_values(|w: Seq<char>| lowercase(w)),
        forall|k: int, j: int|
            0 <= k < ident_words(s).len() && 0 <= j < ident_words(s)[k].len() ==> #[trigger] ident_words(
                s,
            )[k][j] != '_' && ident_words(s)[k][j] != '-',
{
    let n = s.len() as int;
    lemma_ident_scan_inv(s, n);
    let (ws, st) = ident_scan(s, n);
    assert(s.take(n) =~= s);
    if st < n {
        lemma_concat_push(ws, s.subrange(st, n));
        let ws2 = ws.push(s.subrange(st, n));
        assert forall|k: int| 0 <= k < ws2.len() implies (#[trigger] ws2[k]).len() > 0 && no_separator(ws2[k]) by {
            if k < ws.len() {
                assert(ws2[k] == ws[k]);
            }
        }
    } else {
        assert(s.subrange(st, n) =~= Seq::<char>::empty());
        assert(concat_words(ws) + Seq::<char>::empty() =~= concat_words(ws));
    }
}

} // verus!
