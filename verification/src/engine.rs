//! The regular-expression engine, as far as the extractor relies on it.
//!
//! Nothing here is proved: the contract of `search` is taken on trust from
//! the `regex` crate.

use crate::text::{in_scan_order, views};
use vstd::prelude::*;

verus! {

/// Whether `regex::Regex::new` accepts `pattern`.
pub uninterp spec fn regex_accepts(pattern: Seq<char>) -> bool;

/// The matches that `regex::Regex::find_iter` yields for `pattern` in `text`,
/// first to last, each as the matched piece of the text.
pub uninterp spec fn regex_matches(pattern: Seq<char>, text: Seq<char>) -> Seq<Seq<char>>;

/// Compiles `pattern` with `regex::Regex::new` and, where the engine accepts
/// it, walks `regex::Regex::find_iter` over `text`, taking each match by
/// `regex::Match::as_str`.
///
/// Trusted: the outcome depends on the pattern and the text alone; it is
/// `None` exactly for a pattern that the engine rejects; and the matches are
/// pieces of the text that do not overlap, yielded from left to right.
#[verifier::external_body]
pub(crate) fn search(pattern: &str, text: &str) -> (found: Option<Vec<String>>)
    ensures
        found is Some <==> regex_accepts(pattern@),
        found matches Some(v) ==> views(v@) == regex_matches(pattern@, text@),
        found matches Some(v) ==> in_scan_order(views(v@), text@),
{
    match regex::Regex::new(pattern) {
        Ok(re) => Some(re.find_iter(text).map(|m| m.as_str().to_string()).collect()),
        Err(_) => None,
    }
}

} // verus!
