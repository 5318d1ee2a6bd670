//! Regular expressions of the `regex` crate, as far as the report parser uses them.

use regex::Regex;
use vstd::prelude::*;

verus! {

#[verifier::external_type_specification]
#[verifier::external_body]
pub struct ExRegex(regex::Regex);

#[verifier::external_type_specification]
#[verifier::external_body]
pub struct ExRegexError(regex::Error);

/// Whether `regex::Regex::new` accepts `pattern`.
pub uninterp spec fn regex_accepts(pattern: Seq<char>) -> bool;

/// Whether `regex` is an expression that `regex::Regex::new` compiled from `pattern`.
pub uninterp spec fn compiled_from(regex: Regex, pattern: Seq<char>) -> bool;

/// What the leftmost match of `pattern` in `text` captures, as `regex::Regex::captures`
/// finds it: the text of each group in the order of the opening parentheses, the whole
/// match first, with `None` for a group that took no part. `None` where nothing matches.
pub uninterp spec fn pattern_captures(pattern: Seq<char>, text: Seq<char>) -> Option<
    Seq<Option<Seq<char>>>,
>;

/// Compiles `pattern` with `regex::Regex::new`, which succeeds on the patterns it accepts;
/// the expression it returns is one compiled from `pattern`.
#[verifier::external_body]
pub(crate) fn compile(pattern: &str) -> (compiled: Result<Regex, regex::Error>)
    ensures
        compiled is Ok <==> regex_accepts(pattern@),
        compiled matches Ok(regex) ==> compiled_from(regex, pattern@),
{
    Regex::new(pattern)
}

/// Searches `text` with `regex::Regex::captures` and hands out the text of each group.
/// Whatever pattern `regex` was compiled from, the result is what that pattern captures in
/// `text`.
#[verifier::external_body]
pub(crate) fn captures(regex: &Regex, text: &str) -> (groups: Option<Vec<Option<String>>>)
    ensures
        forall|pattern: Seq<char>| #[trigger]
            compiled_from(*regex, pattern) ==> groups.deep_view() == pattern_captures(
                pattern,
                text@,
            ),
{
    let found = regex.captures(text)?;
    Some(found.iter().map(|group| group.map(|part| part.as_str().to_string())).collect())
}

} // verus!
