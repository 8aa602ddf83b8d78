use globset::{GlobBuilder, GlobSetBuilder};
use vstd::prelude::*;

verus! {

/// What the `globset` crate says of `pattern` applied to `text`: `None` when
/// the pattern cannot be built, otherwise whether it matches.
pub uninterp spec fn glob_verdict(pattern: Seq<char>, text: Seq<char>) -> Option<bool>;

/// Matches `text` against the single glob `pattern`.
///
/// Builds the pattern with `globset::GlobBuilder` (a `/` in the text is only
/// matched by a `/` in the pattern, and a backslash escapes the next
/// character), puts it alone into a `globset::GlobSet` and asks
/// `GlobSet::is_match` about `text`. The answer is `None` when either build
/// step returns an error. Nothing is proved of the answer: it is only given
/// the name `glob_verdict`, which is a function of the two texts on platforms
/// whose sole path separator is `/`.
#[verifier::external_body]
pub(crate) fn glob_match(pattern: &str, text: &str) -> (verdict: Option<bool>)
    ensures
        verdict == glob_verdict(pattern@, text@),
{
    match GlobBuilder::new(pattern).literal_separator(true).backslash_escape(true).build() {
        Ok(glob) => match GlobSetBuilder::new().add(glob).build() {
            Ok(set) => Some(set.is_match(text)),
            Err(_) => None,
        },
        Err(_) => None,
    }
}

/// Whether `pattern` is a usable glob that matches `text`.
pub open spec fn glob_hits(pattern: Seq<char>, text: Seq<char>) -> bool {
    glob_verdict(pattern, text) == Some(true)
}

/// Whether `pattern` matches `text`; a pattern that cannot be built matches
/// nothing.
pub fn pattern_matches(pattern: &str, text: &str) -> (hit: bool)
    ensures
        hit == glob_hits(pattern@, text@),
{
    match glob_match(pattern, text) {
        Some(b) => b,
        None => false,
    }
}

} // verus!
