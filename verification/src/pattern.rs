//! Regular expressions, as the `regex` crate compiles and matches them.
//!
//! Nothing here is proved. The two names stand for what the crate computes;
//! the rest of the library is proved against them.

use regex::Error as RegexError;
use regex::Regex;
use vstd::prelude::*;

verus! {

/// `regex::Regex`, a compiled regular expression. Nothing is known of what is
/// inside.
#[verifier::external_type_specification]
#[verifier::external_body]
pub struct ExRegex(Regex);

/// `regex::Error`, the reason why a pattern did not compile. Nothing is known
/// of what is inside.
#[verifier::external_type_specification]
#[verifier::external_body]
pub struct ExRegexError(RegexError);

/// What `Regex::new` returns for `pattern`: the compiled expression, or the
/// reason why the pattern is refused.
pub uninterp spec fn compiled(pattern: Seq<char>) -> Result<Regex, RegexError>;

/// What `Regex::is_match` returns for `re` and `haystack`: whether the
/// expression matches anywhere in the text.
pub uninterp spec fn is_match_of(re: Regex, haystack: Seq<char>) -> bool;

/// Calls `Regex::new`. The claim is only that the outcome depends on the
/// pattern and on nothing else, so that it can be named.
#[verifier::external_body]
pub(crate) fn compile(pattern: &str) -> (r: Result<Regex, RegexError>)
    ensures
        r == compiled(pattern@),
{
    Regex::new(pattern)
}

/// Calls `Regex::is_match`. The claim is only that the answer depends on the
/// expression and the text and on nothing else, so that it can be named.
#[verifier::external_body]
pub(crate) fn is_match(re: &Regex, haystack: &str) -> (b: bool)
    ensures
        b == is_match_of(*re, haystack@),
{
    re.is_match(haystack)
}

} // verus!
