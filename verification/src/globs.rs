//! Shell-style glob patterns (`*`, `?`, `[..]`, `**`), matched by the `glob` crate.

use vstd::prelude::*;

verus! {

/// Names whether `glob::Pattern::new` accepts `pattern`.
pub uninterp spec fn glob_valid(pattern: Seq<char>) -> bool;

/// Names what matching `text` against `pattern` gives: `glob::Pattern::new`
/// on `pattern`, then `Pattern::matches` on `text`; `false` where the pattern
/// is not accepted.
pub uninterp spec fn glob_matches(pattern: Seq<char>, text: Seq<char>) -> bool;

/// Wraps `glob::Pattern::new`: whether `pattern` compiles.
#[verifier::external_body]
pub(crate) fn glob_compiles(pattern: &str) -> (r: bool)
    ensures
        r == glob_valid(pattern@),
{
    glob::Pattern::new(pattern).is_ok()
}

/// Wraps `glob::Pattern::new` and `glob::Pattern::matches`: whether `text`
/// matches `pattern`, `false` where the pattern does not compile.
#[verifier::external_body]
pub(crate) fn glob_match(pattern: &str, text: &str) -> (r: bool)
    ensures
        r == glob_matches(pattern@, text@),
        !glob_valid(pattern@) ==> !r,
{
    match glob::Pattern::new(pattern) {
        Ok(compiled) => compiled.matches(text),
        Err(_) => false,
    }
}

} // verus!
