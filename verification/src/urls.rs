//! Extraction of the URLs of a text.
//!
//! The engine searches the text and proposes pieces of it. Of these the
//! extractor returns the ones that are URLs as `shape` defines them, so that
//! the shape of what is returned is proved here and does not rest on the
//! engine. Which pieces the engine proposes is not: that is spoken of by
//! name, as `candidates`.

use crate::engine::{regex_accepts, regex_matches, search};
use crate::shape::{
    continues_url, has_no_delimiter_but_at, has_no_space, http_scheme, https_scheme, is_url,
    scheme_len, url_chars,
};
use crate::text::{
    chars_of, in_scan_order, lemma_filter_in_scan_order, occurs_in, placed_at, views,
};
use vstd::hash_set::StringHashSet;
use vstd::prelude::*;

verus! {

/// The pattern that the engine searches a text for: the shape that
/// `shape::is_url` states, in the engine's notation.
pub const URL_PATTERN: &'static str = "https?://[^\\s/$.?#][^\\s\\)\\(\\[\\]><\"]*";

/// What the engine proposes for `text`: its matches of `URL_PATTERN`, from
/// left to right.
pub open spec fn candidates(text: Seq<char>) -> Seq<Seq<char>> {
    if regex_accepts(URL_PATTERN@) {
        regex_matches(URL_PATTERN@, text)
    } else {
        Seq::empty()
    }
}

/// The URLs among `matches`, in their order.
pub open spec fn shaped(matches: Seq<Seq<char>>) -> Seq<Seq<char>> {
    matches.filter(|m: Seq<char>| is_url(m))
}

/// `s` without repetitions: each element once, where it first stands.
pub open spec fn distinct(s: Seq<Seq<char>>) -> Seq<Seq<char>>
    decreases s.len(),
{
    if s.len() == 0 {
        Seq::empty()
    } else {
        let before = distinct(s.drop_last());
        if before.contains(s.last()) {
            before
        } else {
            before.push(s.last())
        }
    }
}

/// What is returned for `matches`: the URLs among them, each once if
/// `dedupe`.
pub open spec fn selection(matches: Seq<Seq<char>>, dedupe: bool) -> Seq<Seq<char>> {
    if dedupe {
        distinct(shaped(matches))
    } else {
        shaped(matches)
    }
}

/// Some piece of `text` is a URL.
pub open spec fn contains_url(text: Seq<char>) -> bool {
    exists|part: Seq<char>| is_url(part) && #[trigger] occurs_in(part, text)
}

/// Whether `s`, taken whole, is a URL.
pub fn url_str(s: &str) -> (b: bool)
    ensures
        b == is_url(s@),
{
    let v = chars_of(s);
    url_chars(&v)
}

/// Selects from the matches of a search the URLs to return: those of
/// `matches` that are URLs, in their order, and with `dedupe` each only where
/// it first stands.
pub fn select_urls(matches: &Vec<String>, dedupe: bool) -> (urls: Vec<String>)
    ensures
        views(urls@) == selection(views(matches@), dedupe),
{
    let ghost all = views(matches@);
    let mut urls: Vec<String> = Vec::new();
    let mut seen = StringHashSet::new();
    let mut i: usize = 0;
    proof {
        reveal(Seq::filter);
    }
    while i < matches.len()
        invariant
            i <= matches.len(),
            all == views(matches@),
            views(urls@) == selection(all.take(i as int), dedupe),
            dedupe ==> seen@ == views(urls@).to_set(),
        decreases matches.len() - i,
    {
        let m = &matches[i];
        let ghost before = views(urls@);
        proof {
            assert(all.take(i + 1) =~= all.take(i as int).push(m@));
            all.take(i as int).lemma_filter_push(m@, |m: Seq<char>| is_url(m));
            assert(shaped(all.take(i as int)).push(m@).drop_last() =~= shaped(all.take(i as int)));
        }
        if url_str(m.as_str()) && (!dedupe || seen.insert(m.clone())) {
            urls.push(m.clone());
            assert(views(urls@) =~= before.push(m@));
            assert(dedupe ==> seen@ =~= views(urls@).to_set()) by {
                before.lemma_push_to_set_commute(m@);
            }
        }
        i += 1;
    }
    assert(all.take(matches.len() as int) =~= all);
    urls
}

/// The URLs of `text`: the pieces of it that the engine matches against
/// `URL_PATTERN` and that are URLs, from left to right; with `dedupe`, each
/// only where it first stands.
pub fn find_urls(text: &str, dedupe: &bool) -> (urls: Vec<String>)
    ensures
        views(urls@) == selection(candidates(text@), *dedupe),
        forall|i: int|
            0 <= i < urls@.len() ==> is_url(#[trigger] views(urls@)[i]) && occurs_in(
                views(urls@)[i],
                text@,
            ),
        forall|i: int|
            0 <= i < urls@.len() ==> has_no_space(#[trigger] views(urls@)[i])
                && has_no_delimiter_but_at(views(urls@)[i], scheme_len(views(urls@)[i])),
        !contains_url(text@) ==> urls@.len() == 0,
        !*dedupe ==> in_scan_order(views(urls@), text@),
        *dedupe ==> views(urls@).no_duplicates(),
{
    match search(URL_PATTERN, text) {
        Some(matches) => {
            let urls = select_urls(&matches, *dedupe);
            proof {
                let found = views(matches@);
                lemma_selection_is_of_urls(found, *dedupe);
                lemma_pieces_occur(found, text@);
                lemma_scan_order_kept(found, text@);
                lemma_dedupe_same_urls(found);
                if urls@.len() > 0 {
                    assert(is_url(views(urls@)[0]) && occurs_in(views(urls@)[0], text@));
                }
            }
            urls
        },
        None => {
            let urls: Vec<String> = Vec::new();
            assert(placed_at(views(urls@), Seq::empty(), text@));
            urls
        },
    }
}

/// What is selected from matches is a URL and one of the matches.
pub proof fn lemma_selection_is_of_urls(matches: Seq<Seq<char>>, dedupe: bool)
    ensures
        forall|i: int|
            0 <= i < selection(matches, dedupe).len() ==> is_url(
                #[trigger] selection(matches, dedupe)[i],
            ) && matches.contains(selection(matches, dedupe)[i]),
{
    let keep = |m: Seq<char>| is_url(m);
    let urls = shaped(matches);
    lemma_distinct(urls);
    assert forall|i: int| 0 <= i < urls.len() implies is_url(#[trigger] urls[i])
        && matches.contains(urls[i]) by {
        matches.lemma_filter_pred(keep, i);
        matches.lemma_filter_contains_rev(keep, urls[i]);
    }
}

/// `distinct(s)` holds nothing twice, every element of it is one of `s`, and
/// it holds what `s` holds.
pub proof fn lemma_distinct(s: Seq<Seq<char>>)
    ensures
        distinct(s).no_duplicates(),
        distinct(s).to_set() == s.to_set(),
        forall|i: int| 0 <= i < distinct(s).len() ==> s.contains(#[trigger] distinct(s)[i]),
    decreases s.len(),
{
    if s.len() > 0 {
        let front = s.drop_last();
        let before = distinct(front);
        lemma_distinct(front);
        assert forall|x: Seq<char>| distinct(s).to_set().contains(x) <==> s.to_set().contains(
            x,
        ) by {
            if s.contains(x) {
                let j = choose|j: int| 0 <= j < s.len() && s[j] == x;
                if j < s.len() - 1 {
                    assert(front[j] == x);
                    assert(before.to_set().contains(x));
                    let k = choose|k: int| 0 <= k < before.len() && before[k] == x;
                    assert(distinct(s)[k] == x);
                } else if !before.contains(x) {
                    assert(distinct(s)[before.len() as int] == x);
                }
            }
        }
    }
}

/// With or without `dedupe` the same URLs are selected, and with it none
/// twice.
pub proof fn lemma_dedupe_same_urls(matches: Seq<Seq<char>>)
    ensures
        selection(matches, true).no_duplicates(),
        selection(matches, true).to_set() == selection(matches, false).to_set(),
{
    lemma_distinct(shaped(matches));
}

/// Without `dedupe`, what is selected from pieces of a text that stand in it
/// from left to right stands in it from left to right.
pub proof fn lemma_scan_order_kept(matches: Seq<Seq<char>>, text: Seq<char>)
    requires
        in_scan_order(matches, text),
    ensures
        in_scan_order(selection(matches, false), text),
{
    lemma_filter_in_scan_order(matches, text, |m: Seq<char>| is_url(m));
}

/// Each of the pieces of a text occurs in it.
pub proof fn lemma_pieces_occur(parts: Seq<Seq<char>>, text: Seq<char>)
    requires
        in_scan_order(parts, text),
    ensures
        forall|part: Seq<char>| parts.contains(part) ==> occurs_in(part, text),
{
}

/// A URL begins with one of the two schemes, and what follows the first
/// character after the scheme holds neither white space nor a delimiter.
pub proof fn lemma_url_begins_with_scheme(s: Seq<char>)
    requires
        is_url(s),
    ensures
        http_scheme().is_prefix_of(s) || https_scheme().is_prefix_of(s),
        scheme_len(s) < s.len(),
        forall|k: int| scheme_len(s) < k < s.len() ==> continues_url(#[trigger] s[k]),
{
}

/// No character of a URL is white space, and none but the one right after
/// the scheme is a delimiter.
pub proof fn lemma_url_is_clean(s: Seq<char>)
    requires
        is_url(s),
    ensures
        has_no_space(s),
        has_no_delimiter_but_at(s, scheme_len(s)),
{
}

} // verus!
