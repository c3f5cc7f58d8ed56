//! Strings as sequences of characters, and parts of a text.

use vstd::prelude::*;

verus! {

/// The strings of `v`, each as its sequence of characters.
pub open spec fn views(v: Seq<String>) -> Seq<Seq<char>> {
    Seq::new(v.len(), |i: int| v[i]@)
}

/// `part` stands in `text` from position `at` on.
pub open spec fn occurs_at(part: Seq<char>, text: Seq<char>, at: int) -> bool {
    &&& 0 <= at
    &&& at + part.len() <= text.len()
    &&& text.subrange(at, at + part.len()) == part
}

/// `part` stands somewhere in `text`.
pub open spec fn occurs_in(part: Seq<char>, text: Seq<char>) -> bool {
    exists|at: int| occurs_at(part, text, at)
}

/// `parts` stand in `text` at `starts`, one after the other and without
/// overlap.
pub open spec fn placed_at(parts: Seq<Seq<char>>, starts: Seq<int>, text: Seq<char>) -> bool {
    &&& starts.len() == parts.len()
    &&& forall|i: int| 0 <= i < parts.len() ==> occurs_at(#[trigger] parts[i], text, starts[i])
    &&& forall|i: int, j: int|
        0 <= i < j < parts.len() ==> #[trigger] starts[i] + parts[i].len() <= #[trigger] starts[j]
}

/// `parts` are pieces of `text` that do not overlap, listed from left to
/// right.
pub open spec fn in_scan_order(parts: Seq<Seq<char>>, text: Seq<char>) -> bool {
    exists|starts: Seq<int>| placed_at(parts, starts, text)
}

/// The characters of `s`, in order.
pub fn chars_of(s: &str) -> (v: Vec<char>)
    ensures
        v@ == s@,
{
    broadcast use vstd::string::group_string_axioms;

    let mut v: Vec<char> = Vec::new();
    for c in it: s.chars()
        invariant
            it.seq() == s@,
            v@ == it.seq().take(it.index()),
    {
        v.push(c);
    }
    v
}

/// The pieces of a text that are kept by a filter still stand in it from left
/// to right.
pub proof fn lemma_filter_in_scan_order(
    parts: Seq<Seq<char>>,
    text: Seq<char>,
    keep: spec_fn(Seq<char>) -> bool,
)
    requires
        in_scan_order(parts, text),
    ensures
        in_scan_order(parts.filter(keep), text),
{
    let starts = choose|starts: Seq<int>| placed_at(parts, starts, text);
    let kept = lemma_filter_placed(parts, starts, text, keep);
}

proof fn lemma_filter_placed(
    parts: Seq<Seq<char>>,
    starts: Seq<int>,
    text: Seq<char>,
    keep: spec_fn(Seq<char>) -> bool,
) -> (kept: Seq<int>)
    requires
        placed_at(parts, starts, text),
    ensures
        placed_at(parts.filter(keep), kept, text),
        forall|k: int|
            0 <= k < kept.len() ==> exists|i: int|
                0 <= i < parts.len() && #[trigger] kept[k] == starts[i] && parts.filter(keep)[k]
                    == parts[i],
    decreases parts.len(),
{
    reveal(Seq::filter);
    if parts.len() == 0 {
        Seq::empty()
    } else {
        let n = parts.len() - 1;
        let before = parts.drop_last();
        let kept_before = lemma_filter_placed(before, starts.drop_last(), text, keep);
        let kept = if keep(parts[n]) {
            kept_before.push(starts[n])
        } else {
            kept_before
        };
        assert forall|k: int| 0 <= k < kept.len() implies exists|i: int|
            0 <= i < parts.len() && #[trigger] kept[k] == starts[i] && parts.filter(keep)[k]
                == parts[i] by {
            if k < kept_before.len() {
                let i = choose|i: int|
                    0 <= i < n && kept_before[k] == starts[i] && before.filter(keep)[k]
                        == before[i];
                assert(kept[k] == starts[i] && parts.filter(keep)[k] == parts[i]);
            } else {
                assert(kept[k] == starts[n] && parts.filter(keep)[k] == parts[n]);
            }
        }
        kept
    }
}

} // verus!
