//! Reading suggested tags out of a generated answer.

use vstd::prelude::*;

use crate::text::{opt_view, trim, trimmed};

verus! {

/// The strings of `s` when `s` is a JSON array of strings (surrounding
/// whitespace allowed), as `serde_json` reads it; `None` for any other text.
pub uninterp spec fn json_string_array(s: Seq<char>) -> Option<Seq<Seq<char>>>;

pub open spec fn strings_view(v: Seq<String>) -> Seq<Seq<char>> {
    v.map_values(|x: String| x@)
}

/// Relies on `serde_json::from_str::<Vec<String>>`: it reads a JSON array of
/// strings and fails on any other text; its outcome depends on the text
/// alone.
#[verifier::external_body]
fn parse_json_strings(s: &str) -> (r: Option<Vec<String>>)
    ensures
        r is Some <==> json_string_array(s@) is Some,
        r is Some ==> strings_view(r->0@) == json_string_array(s@)->0,
{
    serde_json::from_str::<Vec<String>>(s).ok()
}

/// The first index at or after `k` where `s` holds `c`.
pub open spec fn index_from(s: Seq<char>, c: char, k: int) -> Option<int>
    decreases s.len() - k,
{
    if k < 0 || k >= s.len() {
        None
    } else if s[k] == c {
        Some(k)
    } else {
        index_from(s, c, k + 1)
    }
}

/// The text from the first `[` of `s` to the first `]` after it, both
/// included.
pub open spec fn bracketed(s: Seq<char>) -> Option<Seq<char>> {
    match index_from(s, '[', 0) {
        Some(i) => match index_from(s, ']', i) {
            Some(j) => Some(s.subrange(i, j + 1)),
            None => None,
        },
        None => None,
    }
}

/// The tags read from a generated answer: the answer itself as a JSON array
/// of strings, else the bracketed part of it as one, else no tags.
pub open spec fn tags_from_response(s: Seq<char>) -> Seq<Seq<char>> {
    match json_string_array(trimmed(s)) {
        Some(t) => t,
        None => match bracketed(s) {
            Some(b) => match json_string_array(b) {
                Some(t) => t,
                None => Seq::empty(),
            },
            None => Seq::empty(),
        },
    }
}

proof fn lemma_index_from_bounds(s: Seq<char>, c: char, k: int)
    ensures
        index_from(s, c, k) matches Some(i) ==> 0 <= k <= i < s.len() && s[i] == c,
    decreases s.len() - k,
{
    if 0 <= k < s.len() && s[k] != c {
        lemma_index_from_bounds(s, c, k + 1);
    }
}

/// The first index at or after `from` where `s` holds `c`.
pub fn find_char_from(s: &str, c: char, from: usize) -> (r: Option<usize>)
    ensures
        opt_int(r) == index_from(s@, c, from as int),
{
    let n = s.unicode_len();
    let mut k: usize = from;
    while k < n
        invariant
            n == s@.len(),
            from <= k,
            index_from(s@, c, from as int) == index_from(s@, c, k as int),
        decreases n - k,
    {
        if s.get_char(k) == c {
            return Some(k);
        }
        k = k + 1;
    }
    None
}

pub open spec fn opt_int(o: Option<usize>) -> Option<int> {
    match o {
        Some(i) => Some(i as int),
        None => None,
    }
}

/// The part of `response` from its first `[` to the first `]` after it,
/// both included; `None` when there is no such pair.
pub fn extract_bracketed(response: &str) -> (r: Option<String>)
    ensures
        opt_view(r) == bracketed(response@),
{
    match find_char_from(response, '[', 0) {
        Some(i) => match find_char_from(response, ']', i) {
            Some(j) => {
                let n = response.unicode_len();
                proof {
                    lemma_index_from_bounds(response@, ']', i as int);
                }
                Some(String::from_str(response.substring_char(i, j + 1)))
            },
            None => None,
        },
        None => None,
    }
}

/// Reads the tags that a model suggested. The answer is taken as a JSON
/// array of strings; failing that, the first bracketed part of it; failing
/// that, there are no tags. It never fails.
pub fn parse_tags_from_response(response: &str) -> (r: Result<Vec<String>, String>)
    ensures
        match r {
            Ok(v) => strings_view(v@) == tags_from_response(response@),
            Err(_) => false,
        },
{
    let trimmed_text = trim(response);
    if let Some(tags) = parse_json_strings(trimmed_text.as_str()) {
        return Ok(tags);
    }
    if let Some(inner) = extract_bracketed(response) {
        if let Some(tags) = parse_json_strings(inner.as_str()) {
            return Ok(tags);
        }
    }
    let none: Vec<String> = Vec::new();
    proof {
        assert(strings_view(none@) =~= Seq::empty());
    }
    Ok(none)
}

} // verus!
