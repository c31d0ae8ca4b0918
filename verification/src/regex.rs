//! Regular expressions, which are the work of the `fancy_regex` crate.

use vstd::prelude::*;

verus! {

/// A compiled regular expression of `fancy_regex`. Nothing is known here
/// of what it holds.
#[verifier::external_type_specification]
#[verifier::external_body]
pub struct ExRegex(fancy_regex::Regex);

/// The error of `fancy_regex` for a pattern that cannot be compiled or a
/// match that cannot be carried out.
#[verifier::external_type_specification]
#[verifier::external_body]
pub struct ExRegexError(fancy_regex::Error);

/// Whether `fancy_regex` compiles the given pattern as a case-insensitive
/// regular expression.
pub uninterp spec fn regex_compiles(pattern: Seq<char>) -> bool;

/// Compiles a case-insensitive regular expression with
/// `fancy_regex::RegexBuilder::build`.
///
/// Trusted: that the pattern alone decides whether the expression is
/// compiled. Nothing is claimed of the expression itself.
#[verifier::external_body]
pub(crate) fn regex(value: &str) -> (result: Result<fancy_regex::Regex, Box<fancy_regex::Error>>)
    ensures
        result is Ok <==> regex_compiles(value@),
{
    fancy_regex::RegexBuilder::new(value).case_insensitive(true).build().map_err(Box::new)
}

/// Asks `fancy_regex::Regex::is_match` whether the expression matches
/// somewhere in the text.
///
/// Trusted: nothing but that the call returns.
#[verifier::external_body]
pub(crate) fn regex_is_match(regex: &fancy_regex::Regex, text: &str) -> (result: Result<
    bool,
    Box<fancy_regex::Error>,
>) {
    regex.is_match(text).map_err(Box::new)
}

} // verus!
