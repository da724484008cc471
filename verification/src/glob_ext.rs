//! The pattern matching that member expansion leans on.
//!
//! Whether a member pattern is well formed, and which paths it matches, is
//! the glob crate's business; the two names below stand for its answers.

use vstd::prelude::*;

verus! {

/// Whether the glob crate accepts `pat` as a pattern.
pub uninterp spec fn glob_pattern_ok(pat: Seq<char>) -> bool;

/// Whether the glob pattern `pat` matches the rendered path `path`, with the
/// path separator kept literal.
pub uninterp spec fn glob_matches(pat: Seq<char>, path: Seq<char>) -> bool;

/// Relies on glob::Pattern::new and glob::Pattern::matches_with: whether the
/// pattern compiles, and whether it matches the path, depend on the two
/// strings alone. The separator is kept literal, as the crate's own
/// directory walk keeps it; `None` reports a pattern the crate rejects.
#[verifier::external_body]
pub(crate) fn glob_match(pat: &str, path: &str) -> (r: Option<bool>)
    ensures
        r is Some <==> glob_pattern_ok(pat@),
        r matches Some(b) ==> b == glob_matches(pat@, path@),
{
    let options = glob::MatchOptions {
        case_sensitive: true,
        require_literal_separator: true,
        require_literal_leading_dot: false,
    };
    match glob::Pattern::new(pat) {
        Ok(p) => Some(p.matches_with(path, options)),
        Err(_) => None,
    }
}

} // verus!
