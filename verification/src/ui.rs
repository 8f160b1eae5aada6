//! Caching policy of the embedded web UI's static files.

use crate::textutil::{chars_of, contains, contains_lit, ends_with, has_suffix};
use vstd::prelude::*;

verus! {

/// The `Cache-Control` value for a static file path.
pub open spec fn cache_control_spec(path: Seq<char>) -> Seq<char> {
    if ends_with(path, ".html"@) {
        "no-cache, must-revalidate"@
    } else if contains(path, "/assets/"@) || ends_with(path, ".js"@) || ends_with(path, ".css"@) {
        "public, max-age=31536000, immutable"@
    } else {
        "public, max-age=3600"@
    }
}

/// HTML is always revalidated, hashed assets (scripts, styles, anything
/// under `/assets/`) are cached for a year, other files for an hour.
pub fn cache_control_for(path: &str) -> (r: &'static str)
    ensures
        r@ == cache_control_spec(path@),
{
    let p = chars_of(path);
    if has_suffix(&p, ".html") {
        "no-cache, must-revalidate"
    } else if contains_lit(&p, "/assets/") || has_suffix(&p, ".js") || has_suffix(&p, ".css") {
        "public, max-age=31536000, immutable"
    } else {
        "public, max-age=3600"
    }
}

} // verus!
