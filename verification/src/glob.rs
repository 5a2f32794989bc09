//! Glob patterns, as the `glob_match` crate understands them.

use vstd::prelude::*;

verus! {

/// What `glob_match::glob_match` answers for a pattern and a path.
pub uninterp spec fn glob_match_result(glob: Seq<char>, path: Seq<char>) -> bool;

/// The longest pattern or path, in characters, that is handed to the matcher.
pub const MAX_GLOB_TEXT: usize = 0x0fff_ffff;

/// Whether `path` matches `glob`: the matcher's answer, and no match for a
/// text too long to hand to it.
pub open spec fn matches_pattern(glob: Seq<char>, path: Seq<char>) -> bool {
    glob.len() <= MAX_GLOB_TEXT && path.len() <= MAX_GLOB_TEXT && glob_match_result(glob, path)
}

/// Some pattern of the list matches `path`.
pub open spec fn matches_some(patterns: Seq<String>, path: Seq<char>) -> bool {
    exists|i: int| 0 <= i < patterns.len() && matches_pattern(#[trigger] patterns[i]@, path)
}

/// Calls `glob_match::glob_match`. Trusted: the answer depends on the two texts
/// alone. The matcher keeps positions in 32 bits, so texts that long are left
/// out.
#[verifier::external_body]
fn glob_match(glob: &str, path: &str) -> (r: bool)
    requires
        glob@.len() <= MAX_GLOB_TEXT,
        path@.len() <= MAX_GLOB_TEXT,
    ensures
        r == glob_match_result(glob@, path@),
{
    glob_match::glob_match(glob, path)
}

/// Whether `path` matches the pattern `glob`.
pub fn glob_matches(glob: &str, path: &str) -> (r: bool)
    ensures
        r == matches_pattern(glob@, path@),
{
    if glob.unicode_len() > MAX_GLOB_TEXT || path.unicode_len() > MAX_GLOB_TEXT {
        return false;
    }
    glob_match(glob, path)
}

/// Whether `path` matches at least one of `patterns`.
pub fn matches_any(patterns: &Vec<String>, path: &str) -> (r: bool)
    ensures
        r == matches_some(patterns@, path@),
{
    let mut i: usize = 0;
    while i < patterns.len()
        invariant
            i <= patterns.len(),
            forall|k: int| 0 <= k < i ==> !matches_pattern(#[trigger] patterns[k]@, path@),
        decreases patterns.len() - i,
    {
        if glob_matches(patterns[i].as_str(), path) {
            return true;
        }
        i += 1;
    }
    false
}

} // verus!
