//! Regular-expression search, through the `regex` crate.

use vstd::prelude::*;
use vstd::utf8::is_char_boundary;
use crate::text::bytes_of;

verus! {

/// What a regular expression compiled from `pattern` finds in `text`:
/// `None` when the pattern does not compile, else the byte ranges of its
/// successive non-overlapping matches.
pub uninterp spec fn regex_find_all(pattern: Seq<char>, text: Seq<char>) -> Option<
    Seq<(usize, usize)>,
>;

/// Every hit lies in `text` between character boundaries, and each hit ends
/// no later than the next one starts.
pub open spec fn hits_fit(hits: Seq<(usize, usize)>, text: Seq<char>) -> bool {
    &&& forall|i: int|
        0 <= i < hits.len() ==> {
            &&& (#[trigger] hits[i]).0 <= hits[i].1 <= bytes_of(text).len()
            &&& is_char_boundary(bytes_of(text), hits[i].0 as int)
            &&& is_char_boundary(bytes_of(text), hits[i].1 as int)
        }
    &&& forall|i: int| 0 <= i < hits.len() - 1 ==> (#[trigger] hits[i]).1 <= hits[i + 1].0
}

/// The hits of `pattern` in `text`; none when the pattern does not compile.
pub open spec fn pattern_hits(pattern: Seq<char>, text: Seq<char>) -> Seq<(usize, usize)> {
    match regex_find_all(pattern, text) {
        Some(h) => h,
        None => seq![],
    }
}

/// Relies on `regex::Regex::new` (an error for a pattern that does not
/// compile) and `Regex::find_iter`, whose matches are successive,
/// non-overlapping, and start and end on UTF-8 boundaries of the haystack.
#[verifier::external_body]
fn regex_search(pattern: &str, text: &str) -> (r: Option<Vec<(usize, usize)>>)
    ensures
        r is None ==> regex_find_all(pattern@, text@) is None,
        r is Some ==> regex_find_all(pattern@, text@) == Some(r->0@) && hits_fit(r->0@, text@),
{
    match regex::Regex::new(pattern) {
        Ok(re) => Some(re.find_iter(text).map(|m| (m.start(), m.end())).collect()),
        Err(_) => None,
    }
}

/// The byte ranges that `pattern` matches in `text`.
pub fn find_hits(pattern: &str, text: &str) -> (r: Vec<(usize, usize)>)
    ensures
        r@ == pattern_hits(pattern@, text@),
        hits_fit(r@, text@),
{
    match regex_search(pattern, text) {
        Some(v) => v,
        None => Vec::new(),
    }
}

} // verus!
