//! Collection names: validation, glob patterns and pattern expansion.

use crate::error::Error;
use crate::splitter::strings_view;
use crate::textutil::{char_is_alphanumeric, chars_of, has_char, is_alphanumeric, string_from_chars};
use vstd::prelude::*;

verus! {

// ---------------------------------------------------------------------------
// Validation
// ---------------------------------------------------------------------------

pub open spec fn valid_name_char(c: char) -> bool {
    is_alphanumeric(c) || c == '-' || c == '_'
}

/// A collection name is non-empty and made of alphanumerics, `-` and `_`.
pub open spec fn valid_collection_name(name: Seq<char>) -> bool {
    name.len() > 0 && forall|i: int| 0 <= i < name.len() ==> valid_name_char(#[trigger] name[i])
}

pub open spec fn empty_name_message() -> Seq<char> {
    "Collection name cannot be empty"@
}

pub open spec fn invalid_name_message(name: Seq<char>) -> Seq<char> {
    "Collection name '"@ + name
        + "' contains invalid characters (use alphanumeric, hyphens, underscores)"@
}

/// Characters of `a`, then `b`, then `c`, as one string.
pub fn concat3(a: &str, b: &str, c: &str) -> (r: String)
    ensures
        r@ == a@ + b@ + c@,
{
    let mut v = chars_of(a);
    let mut w = chars_of(b);
    let mut x = chars_of(c);
    v.append(&mut w);
    v.append(&mut x);
    string_from_chars(&v)
}

/// Validate a collection name: alphanumerics, hyphens and underscores only.
pub fn validate_collection_name(name: &str) -> (r: Result<(), Error>)
    ensures
        r is Ok <==> valid_collection_name(name@),
        r matches Err(e) ==> e matches Error::Schema(m) && m@ == (if name@.len() == 0 {
            empty_name_message()
        } else {
            invalid_name_message(name@)
        }),
{
    let s = chars_of(name);
    if s.len() == 0 {
        return Err(Error::Schema(string_from_chars(&chars_of("Collection name cannot be empty"))));
    }
    let mut i: usize = 0;
    while i < s.len()
        invariant
            i <= s.len(),
            s@ == name@,
            forall|k: int| 0 <= k < i ==> valid_name_char(#[trigger] s@[k]),
        decreases s.len() - i,
    {
        let c = s[i];
        if !(char_is_alphanumeric(c) || c == '-' || c == '_') {
            let msg = concat3(
                "Collection name '",
                name,
                "' contains invalid characters (use alphanumeric, hyphens, underscores)",
            );
            return Err(Error::Schema(msg));
        }
        i = i + 1;
    }
    Ok(())
}

// ---------------------------------------------------------------------------
// Glob patterns
// ---------------------------------------------------------------------------

/// The first `i` pattern characters match the first `j` text characters:
/// `*` matches any run (possibly empty), `?` any one character, anything
/// else itself.
pub open spec fn glob_prefix(p: Seq<char>, t: Seq<char>, i: int, j: int) -> bool
    decreases i + j,
{
    if i <= 0 {
        j == 0
    } else if j < 0 {
        false
    } else if p[i - 1] == '*' {
        glob_prefix(p, t, i - 1, j) || (j > 0 && glob_prefix(p, t, i, j - 1))
    } else {
        j > 0 && (p[i - 1] == '?' || p[i - 1] == t[j - 1]) && glob_prefix(p, t, i - 1, j - 1)
    }
}

/// Pattern `p` matches the whole text `t`.
pub open spec fn glob_matches(p: Seq<char>, t: Seq<char>) -> bool {
    glob_prefix(p, t, p.len() as int, t.len() as int)
}

/// Glob matching of a whole text (`*` any run, `?` any one character).
pub fn glob_match(pattern: &str, text: &str) -> (r: bool)
    requires
        text@.len() < usize::MAX,
    ensures
        r == glob_matches(pattern@, text@),
{
    let p = chars_of(pattern);
    let t = chars_of(text);
    let nt = t.len();
    // Row 0: only the empty text matches the empty pattern.
    let mut prev: Vec<bool> = Vec::new();
    let mut j: usize = 0;
    while j <= nt
        invariant
            nt == t.len(),
            nt < usize::MAX,
            j <= nt + 1,
            prev.len() == j,
            forall|k: int| 0 <= k < j ==> prev@[k] == glob_prefix(p@, t@, 0, k),
        decreases nt + 1 - j,
    {
        prev.push(j == 0);
        j = j + 1;
    }
    let mut i: usize = 0;
    while i < p.len()
        invariant
            nt == t.len(),
            nt < usize::MAX,
            i <= p.len(),
            prev.len() == nt + 1,
            forall|k: int| 0 <= k <= nt ==> prev@[k] == glob_prefix(p@, t@, i as int, k),
        decreases p.len() - i,
    {
        let pc = p[i];
        let mut cur: Vec<bool> = Vec::new();
        cur.push(pc == '*' && prev[0]);
        let mut j: usize = 0;
        while j < nt
            invariant
                nt == t.len(),
                nt < usize::MAX,
                i < p.len(),
                pc == p@[i as int],
                prev.len() == nt + 1,
                forall|k: int| 0 <= k <= nt ==> prev@[k] == glob_prefix(p@, t@, i as int, k),
                j <= nt,
                cur.len() == j + 1,
                forall|k: int| 0 <= k <= j ==> cur@[k] == glob_prefix(p@, t@, i + 1, k),
            decreases nt - j,
        {
            let v = if pc == '*' {
                prev[j + 1] || cur[j]
            } else if pc == '?' || pc == t[j] {
                prev[j]
            } else {
                false
            };
            cur.push(v);
            j = j + 1;
        }
        prev = cur;
        i = i + 1;
    }
    prev[nt]
}

/// A pattern without wildcards matches exactly the text equal to it.
pub proof fn lemma_glob_literal(p: Seq<char>, t: Seq<char>)
    requires
        forall|k: int| 0 <= k < p.len() ==> #[trigger] p[k] != '*' && p[k] != '?',
    ensures
        glob_matches(p, t) <==> p == t,
{
    lemma_glob_literal_prefix(p, t, p.len() as int, t.len() as int);
    if p == t {
        assert(p.take(p.len() as int) =~= p);
        assert(t.take(t.len() as int) =~= t);
    } else if glob_matches(p, t) {
        assert(p.take(p.len() as int) =~= p);
        assert(t.take(t.len() as int) =~= t);
    }
}

proof fn lemma_glob_literal_prefix(p: Seq<char>, t: Seq<char>, i: int, j: int)
    requires
        0 <= i <= p.len(),
        0 <= j <= t.len(),
        forall|k: int| 0 <= k < p.len() ==> #[trigger] p[k] != '*' && p[k] != '?',
    ensures
        glob_prefix(p, t, i, j) <==> (i == j && p.take(i) == t.take(j)),
    decreases i + j,
{
    if i > 0 {
        assert(p[i - 1] != '*' && p[i - 1] != '?');
        if j > 0 {
            lemma_glob_literal_prefix(p, t, i - 1, j - 1);
            if i == j && p.take(i) == t.take(j) {
                assert(p.take(i - 1) =~= p.take(i).drop_last());
                assert(t.take(j - 1) =~= t.take(j).drop_last());
                assert(p[i - 1] == p.take(i).last());
                assert(t[j - 1] == t.take(j).last());
            }
            if glob_prefix(p, t, i, j) {
                assert(p.take(i) =~= p.take(i - 1).push(p[i - 1]));
                assert(t.take(j) =~= t.take(j - 1).push(t[j - 1]));
            }
        }
    } else {
        if j == 0 {
            assert(p.take(0) =~= t.take(0));
        }
    }
}

/// A pattern made of one `*` matches every text.
pub proof fn lemma_glob_star_matches_all(t: Seq<char>)
    ensures
        glob_matches(seq!['*'], t),
    decreases t.len(),
{
    lemma_glob_star_prefix(t, t.len() as int);
}

proof fn lemma_glob_star_prefix(t: Seq<char>, j: int)
    requires
        0 <= j <= t.len(),
    ensures
        glob_prefix(seq!['*'], t, 1, j),
    decreases j,
{
    let p = seq!['*'];
    assert(p[0] == '*');
    assert(glob_prefix(p, t, 0, 0));
    if j > 0 {
        lemma_glob_star_prefix(t, j - 1);
        assert(glob_prefix(p, t, 1, j - 1));
        assert(glob_prefix(p, t, 1, j));
    } else {
        assert(glob_prefix(p, t, 1, 0));
    }
}

// ---------------------------------------------------------------------------
// Pattern expansion
// ---------------------------------------------------------------------------

/// Names added for one pattern to the names found so far: with `*`, every
/// known name it matches (in known order, once); otherwise the pattern
/// itself when it names a known collection.
pub open spec fn expand_one(acc: Seq<Seq<char>>, known: Seq<Seq<char>>, pat: Seq<char>) -> Seq<
    Seq<char>,
>
    decreases known.len(),
{
    if has_char(pat, '*') {
        if known.len() == 0 {
            acc
        } else {
            let prev = expand_one(acc, known.drop_last(), pat);
            let c = known.last();
            if glob_matches(pat, c) && !prev.contains(c) {
                prev.push(c)
            } else {
                prev
            }
        }
    } else if known.contains(pat) && !acc.contains(pat) {
        acc.push(pat)
    } else {
        acc
    }
}

/// Collection names selected by `patterns`, in order of first selection.
pub open spec fn expand_all(known: Seq<Seq<char>>, patterns: Seq<Seq<char>>) -> Seq<Seq<char>>
    decreases patterns.len(),
{
    if patterns.len() == 0 {
        Seq::empty()
    } else {
        expand_one(expand_all(known, patterns.drop_last()), known, patterns.last())
    }
}

fn contains_string(v: &Vec<String>, s: &String) -> (r: bool)
    ensures
        r == strings_view(v@).contains(s@),
{
    let mut i: usize = 0;
    while i < v.len()
        invariant
            i <= v.len(),
            forall|k: int| 0 <= k < i ==> v@[k]@ != s@,
        decreases v.len() - i,
    {
        if v[i] == *s {
            assert(strings_view(v@)[i as int] == s@);
            return true;
        }
        i = i + 1;
    }
    proof {
        if strings_view(v@).contains(s@) {
            let k = choose|k: int| 0 <= k < strings_view(v@).len() && strings_view(v@)[k] == s@;
            assert(v@[k]@ == s@);
        }
    }
    false
}

proof fn lemma_expand_one_take(acc: Seq<Seq<char>>, known: Seq<Seq<char>>, pat: Seq<char>, j: int)
    requires
        0 <= j < known.len(),
        has_char(pat, '*'),
    ensures
        expand_one(acc, known.take(j + 1), pat) == ({
            let prev = expand_one(acc, known.take(j), pat);
            if glob_matches(pat, known[j]) && !prev.contains(known[j]) {
                prev.push(known[j])
            } else {
                prev
            }
        }),
{
    assert(known.take(j + 1).drop_last() =~= known.take(j));
}

/// Expand collection names and `*`-patterns to the known collections they
/// select, without duplicates.
pub fn expand_collection_patterns(known: &Vec<String>, patterns: &Vec<String>) -> (r: Vec<String>)
    requires
        forall|k: int| 0 <= k < known.len() ==> (#[trigger] known@[k])@.len() < usize::MAX,
    ensures
        strings_view(r@) == expand_all(strings_view(known@), strings_view(patterns@)),
{
    let ghost kv = strings_view(known@);
    let ghost pv = strings_view(patterns@);
    let mut result: Vec<String> = Vec::new();
    let mut i: usize = 0;
    while i < patterns.len()
        invariant
            i <= patterns.len(),
            kv == strings_view(known@),
            pv == strings_view(patterns@),
            forall|k: int| 0 <= k < known.len() ==> (#[trigger] known@[k])@.len() < usize::MAX,
            strings_view(result@) == expand_all(kv, pv.take(i as int)),
        decreases patterns.len() - i,
    {
        let pattern = &patterns[i];
        let ghost acc = strings_view(result@);
        proof {
            assert(pv.take(i + 1).drop_last() =~= pv.take(i as int));
            assert(pv.take(i + 1).last() == pattern@);
        }
        let pc = chars_of(pattern.as_str());
        if crate::textutil::contains_char(&pc, '*') {
            let mut j: usize = 0;
            proof {
                assert(kv.take(0) =~= Seq::<Seq<char>>::empty());
            }
            while j < known.len()
                invariant
                    j <= known.len(),
                    kv == strings_view(known@),
                    pc@ == pattern@,
                    has_char(pattern@, '*'),
                    forall|k: int| 0 <= k < known.len() ==> (#[trigger] known@[k])@.len() < usize::MAX,
                    strings_view(result@) == expand_one(acc, kv.take(j as int), pattern@),
                decreases known.len() - j,
            {
                let c = &known[j];
                proof {
                    lemma_expand_one_take(acc, kv, pattern@, j as int);
                    assert(kv[j as int] == c@);
                    assert(c@.len() < usize::MAX);
                }
                if glob_match(pattern.as_str(), c.as_str()) && !contains_string(&result, c) {
                    let ghost before = strings_view(result@);
                    result.push(c.clone());
                    proof {
                        assert(strings_view(result@) =~= before.push(c@));
                    }
                }
                j = j + 1;
            }
            proof {
                assert(kv.take(known.len() as int) =~= kv);
            }
        } else {
            if contains_string(known, pattern) && !contains_string(&result, pattern) {
                let ghost before = strings_view(result@);
                result.push(pattern.clone());
                proof {
                    assert(strings_view(result@) =~= before.push(pattern@));
                }
            }
        }
        i = i + 1;
    }
    proof {
        assert(pv.take(patterns.len() as int) =~= pv);
    }
    result
}

/// Every expanded name is a known collection, and none appears twice.
pub proof fn lemma_expand_all_sound(known: Seq<Seq<char>>, patterns: Seq<Seq<char>>)
    ensures
        forall|k: int|
            0 <= k < expand_all(known, patterns).len() ==> known.contains(
                #[trigger] expand_all(known, patterns)[k],
            ),
        expand_all(known, patterns).no_duplicates(),
    decreases patterns.len(),
{
    if patterns.len() > 0 {
        lemma_expand_all_sound(known, patterns.drop_last());
        lemma_expand_one_sound(expand_all(known, patterns.drop_last()), known, known, patterns.last());
    }
}

proof fn lemma_expand_one_sound(
    acc: Seq<Seq<char>>,
    all: Seq<Seq<char>>,
    known: Seq<Seq<char>>,
    pat: Seq<char>,
)
    requires
        forall|k: int| 0 <= k < acc.len() ==> all.contains(#[trigger] acc[k]),
        acc.no_duplicates(),
        forall|k: int| 0 <= k < known.len() ==> all.contains(#[trigger] known[k]),
    ensures
        forall|k: int|
            0 <= k < expand_one(acc, known, pat).len() ==> all.contains(
                #[trigger] expand_one(acc, known, pat)[k],
            ),
        expand_one(acc, known, pat).no_duplicates(),
    decreases known.len(),
{
    if has_char(pat, '*') {
        if known.len() > 0 {
            let d = known.drop_last();
            assert forall|k: int| 0 <= k < d.len() implies all.contains(#[trigger] d[k]) by {
                assert(d[k] == known[k]);
            }
            lemma_expand_one_sound(acc, all, d, pat);
            let prev = expand_one(acc, d, pat);
            let c = known.last();
            assert(all.contains(known[known.len() - 1]));
            if glob_matches(pat, c) && !prev.contains(c) {
                let n = prev.push(c);
                assert forall|k: int| 0 <= k < n.len() implies all.contains(#[trigger] n[k]) by {
                    if k < prev.len() {
                        assert(n[k] == prev[k]);
                    }
                }
                assert forall|a: int, b: int| 0 <= a < n.len() && 0 <= b < n.len() && a != b implies n[a] != n[b] by {
                    if a < prev.len() && b < prev.len() {
                        assert(n[a] == prev[a] && n[b] == prev[b]);
                    } else if a < prev.len() {
                        assert(n[a] == prev[a]);
                        assert(prev.contains(prev[a]));
                    } else if b < prev.len() {
                        assert(n[b] == prev[b]);
                        assert(prev.contains(prev[b]));
                    }
                }
            }
        }
    } else if known.contains(pat) && !acc.contains(pat) {
        let n = acc.push(pat);
        let w = choose|w: int| 0 <= w < known.len() && known[w] == pat;
        assert(all.contains(known[w]));
        assert forall|k: int| 0 <= k < n.len() implies all.contains(#[trigger] n[k]) by {
            if k < acc.len() {
                assert(n[k] == acc[k]);
            }
        }
        assert forall|a: int, b: int| 0 <= a < n.len() && 0 <= b < n.len() && a != b implies n[a] != n[b] by {
            if a < acc.len() && b < acc.len() {
                assert(n[a] == acc[a] && n[b] == acc[b]);
            } else if a < acc.len() {
                assert(n[a] == acc[a]);
                assert(acc.contains(acc[a]));
            } else if b < acc.len() {
                assert(n[b] == acc[b]);
                assert(acc.contains(acc[b]));
            }
        }
    }
}

} // verus!
