//! The shape of a URL: which strings the extractor accepts as one.
//!
//! A URL is one of the two schemes, then one character that may open a host,
//! then a run, possibly empty, of characters that may continue a URL.

use vstd::prelude::*;

verus! {

/// White space: the characters with the Unicode property `White_Space`.
pub open spec fn is_space(c: char) -> bool {
    let n = c as int;
    ||| 0x09 <= n <= 0x0d
    ||| n == 0x20
    ||| n == 0x85
    ||| n == 0xa0
    ||| n == 0x1680
    ||| 0x2000 <= n <= 0x200a
    ||| n == 0x2028
    ||| n == 0x2029
    ||| n == 0x202f
    ||| n == 0x205f
    ||| n == 0x3000
}

/// A bracket of any of the three kinds, or a double quote.
pub open spec fn is_delimiter(c: char) -> bool {
    c == '(' || c == ')' || c == '[' || c == ']' || c == '<' || c == '>' || c == '"'
}

/// The character right after the scheme: no white space, and none of
/// `/ $ . ? #`.
pub open spec fn opens_host(c: char) -> bool {
    !is_space(c) && c != '/' && c != '$' && c != '.' && c != '?' && c != '#'
}

/// A character of the closing run: no white space and no delimiter.
pub open spec fn continues_url(c: char) -> bool {
    !is_space(c) && !is_delimiter(c)
}

pub open spec fn http_scheme() -> Seq<char> {
    seq!['h', 't', 't', 'p', ':', '/', '/']
}

pub open spec fn https_scheme() -> Seq<char> {
    seq!['h', 't', 't', 'p', 's', ':', '/', '/']
}

/// The length of the scheme that `s` begins with; 0 if it begins with none.
pub open spec fn scheme_len(s: Seq<char>) -> int {
    if https_scheme().is_prefix_of(s) {
        8
    } else if http_scheme().is_prefix_of(s) {
        7
    } else {
        0
    }
}

/// `s`, taken whole, is a URL.
pub open spec fn is_url(s: Seq<char>) -> bool {
    let n = scheme_len(s);
    &&& n > 0
    &&& s.len() >= n + 1
    &&& opens_host(s[n])
    &&& forall|k: int| n + 1 <= k < s.len() ==> continues_url(#[trigger] s[k])
}

/// No character of `s` is white space.
pub open spec fn has_no_space(s: Seq<char>) -> bool {
    forall|k: int| 0 <= k < s.len() ==> !is_space(#[trigger] s[k])
}

/// No character of `s` is a delimiter, but for the one at `at`, which may be
/// one.
pub open spec fn has_no_delimiter_but_at(s: Seq<char>, at: int) -> bool {
    forall|k: int| 0 <= k < s.len() && k != at ==> !is_delimiter(#[trigger] s[k])
}

/// Decides `is_space`.
pub fn space(c: char) -> (b: bool)
    ensures
        b == is_space(c),
{
    let n: u32 = c as u32;
    (0x09 <= n && n <= 0x0d) || n == 0x20 || n == 0x85 || n == 0xa0 || n == 0x1680 || (0x2000 <= n
        && n <= 0x200a) || n == 0x2028 || n == 0x2029 || n == 0x202f || n == 0x205f || n == 0x3000
}

/// Decides `continues_url`.
pub fn continues(c: char) -> (b: bool)
    ensures
        b == continues_url(c),
{
    !space(c) && c != '(' && c != ')' && c != '[' && c != ']' && c != '<' && c != '>' && c != '"'
}

/// Decides `opens_host`.
pub fn opens(c: char) -> (b: bool)
    ensures
        b == opens_host(c),
{
    !space(c) && c != '/' && c != '$' && c != '.' && c != '?' && c != '#'
}

/// Computes `scheme_len`.
pub fn scheme_of(v: &Vec<char>) -> (n: usize)
    ensures
        n == scheme_len(v@),
{
    if v.len() < 7 || v[0] != 'h' || v[1] != 't' || v[2] != 't' || v[3] != 'p' {
        0
    } else if v[4] == ':' && v[5] == '/' && v[6] == '/' {
        7
    } else if v.len() >= 8 && v[4] == 's' && v[5] == ':' && v[6] == '/' && v[7] == '/' {
        8
    } else {
        0
    }
}

/// Decides `is_url` of a string given by its characters.
pub fn url_chars(v: &Vec<char>) -> (b: bool)
    ensures
        b == is_url(v@),
{
    let n = scheme_of(v);
    if n == 0 || v.len() < n + 1 {
        return false;
    }
    if !opens(v[n]) {
        return false;
    }
    let mut k: usize = n + 1;
    while k < v.len()
        invariant
            n == scheme_len(v@),
            n + 1 <= k <= v.len(),
            forall|j: int| n + 1 <= j < k ==> continues_url(#[trigger] v@[j]),
        decreases v.len() - k,
    {
        if !continues(v[k]) {
            return false;
        }
        k += 1;
    }
    true
}

} // verus!
