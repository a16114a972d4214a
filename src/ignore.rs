//! Ignore patterns: shell-style globs tested against a path's text.
use vstd::prelude::*;

verus! {

/// Whether glob accepts `pattern` as a well-formed pattern.
pub uninterp spec fn glob_valid(pattern: Seq<char>) -> bool;

/// Whether the compiled `pattern` matches `path` under glob's default options.
pub uninterp spec fn glob_match(pattern: Seq<char>, path: Seq<char>) -> bool;

/// Relies on glob's `Pattern::new`, which refuses a malformed pattern, and on
/// `Pattern::matches`, which tests a string with the default match options.
#[verifier::external_body]
fn glob_outcome(pattern: &str, path: &str) -> (r: Option<bool>)
    ensures
        r is Some <==> glob_valid(pattern@),
        r matches Some(b) ==> b == glob_match(pattern@, path@),
{
    match glob::Pattern::new(pattern) {
        Ok(p) => Some(p.matches(path)),
        Err(_) => None,
    }
}

/// The texts of a list of strings.
pub open spec fn texts(v: Seq<String>) -> Seq<Seq<char>> {
    v.map_values(|s: String| s@)
}

/// Whether `pattern` excludes `path`: a malformed pattern excludes nothing.
pub open spec fn pattern_hits(pattern: Seq<char>, path: Seq<char>) -> bool {
    glob_valid(pattern) && glob_match(pattern, path)
}

/// Whether any of `patterns` excludes `path`.
pub open spec fn ignored(path: Seq<char>, patterns: Seq<Seq<char>>) -> bool {
    exists|i: int| 0 <= i < patterns.len() && #[trigger] pattern_hits(patterns[i], path)
}

/// Whether `path` matches any of `ignore_patterns`; a malformed pattern matches nothing.
pub fn is_ignored(path: &str, ignore_patterns: &Vec<String>) -> (r: bool)
    ensures
        r == ignored(path@, texts(ignore_patterns@)),
{
    let ghost pats = texts(ignore_patterns@);
    let mut i: usize = 0;
    while i < ignore_patterns.len()
        invariant
            i <= ignore_patterns.len(),
            pats == texts(ignore_patterns@),
            forall|j: int| 0 <= j < i ==> !#[trigger] pattern_hits(pats[j], path@),
        decreases ignore_patterns.len() - i,
    {
        let outcome = glob_outcome(ignore_patterns[i].as_str(), path);
        if outcome == Some(true) {
            assert(pattern_hits(pats[i as int], path@));
            return true;
        }
        i = i + 1;
    }
    false
}

/// A malformed pattern changes nothing: ignoring with it is ignoring without it.
pub proof fn lemma_malformed_pattern_matches_nothing(
    path: Seq<char>,
    patterns: Seq<Seq<char>>,
    k: int,
)
    requires
        0 <= k < patterns.len(),
        !glob_valid(patterns[k]),
    ensures
        ignored(path, patterns) == ignored(path, patterns.remove(k)),
{
    let rest = patterns.remove(k);
    if ignored(path, patterns) {
        let i = choose|i: int| 0 <= i < patterns.len() && #[trigger] pattern_hits(patterns[i], path);
        assert(i != k);
        if i < k {
            assert(rest[i] == patterns[i]);
            assert(pattern_hits(rest[i], path));
        } else {
            assert(rest[i - 1] == patterns[i]);
            assert(pattern_hits(rest[i - 1], path));
        }
    }
    if ignored(path, rest) {
        let i = choose|i: int| 0 <= i < rest.len() && #[trigger] pattern_hits(rest[i], path);
        if i < k {
            assert(pattern_hits(patterns[i], path));
        } else {
            assert(pattern_hits(patterns[i + 1], path));
        }
    }
}

} // verus!
