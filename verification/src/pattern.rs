//! The tie to the regular-expression engine.
//!
//! The matcher's rules carry their patterns as plain strings; the engine
//! behind them is the `regex` crate. What a pattern matches is a function
//! of the pattern and the text alone, so the two operations the matcher
//! needs are given names here — `pattern_ok` for "the pattern compiles",
//! `re_find` for the first match — and the contracts of the rest of the
//! library are stated over those names.

use vstd::prelude::*;

verus! {

/// Whether `pattern` is a well-formed regular expression, as the engine
/// judges it; a function of the pattern alone.
pub uninterp spec fn pattern_ok(pattern: Seq<char>) -> bool;

/// The first match of `pattern` in `text`, as the pair of its start and end
/// offsets counted in characters, or `None` when the pattern matches nowhere
/// in `text` or is not a well-formed regular expression. A function of the
/// pattern and the text alone.
pub uninterp spec fn re_find_spec(pattern: Seq<char>, text: Seq<char>) -> Option<(nat, nat)>;

/// Relies on `regex::Regex::new`: whether a pattern compiles is decided by
/// the pattern alone.
#[verifier::external_body]
pub(crate) fn re_ok(pattern: &str) -> (r: bool)
    ensures
        r == pattern_ok(pattern@),
{
    regex::Regex::new(pattern).is_ok()
}

/// Relies on `regex::Regex::new` and `regex::Regex::find`: `find` returns
/// the leftmost match of the pattern, with byte offsets lying inside the
/// haystack, and depends on the pattern and the haystack alone; the byte
/// offsets are re-measured here in characters. A pattern that does not
/// compile matches nothing.
#[verifier::external_body]
pub(crate) fn re_find(pattern: &str, text: &str) -> (r: Option<(usize, usize)>)
    ensures
        r matches Some(m) ==> re_find_spec(pattern@, text@) == Some((m.0 as nat, m.1 as nat))
            && m.0 <= m.1 <= text@.len(),
        r is None ==> re_find_spec(pattern@, text@) is None,
{
    match regex::Regex::new(pattern) {
        Ok(re) => match re.find(text) {
            Some(m) => Some((
                text[..m.start()].chars().count(),
                text[..m.end()].chars().count(),
            )),
            None => None,
        },
        Err(_) => None,
    }
}

} // verus!
