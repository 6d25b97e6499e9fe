//! Trusted bindings: the few calls into outside crates that the core's
//! logic needs. Each binding's contract states only what the crate's own
//! source or documentation shows; everything built on top is verified.

use vstd::prelude::*;

use fuzzy_matcher::FuzzyMatcher;

verus! {

use crate::text::is_digit;
use crate::text::is_space;

/// ASCII alphanumerics and `-`, `_`, `.`, `~`: the characters that
/// percent-encoding leaves as they are.
pub open spec fn is_unreserved(c: char) -> bool {
    ('a' <= c && c <= 'z') || ('A' <= c && c <= 'Z') || is_digit(c) || c == '-' || c == '_'
        || c == '.' || c == '~'
}

/// What `urlencoding::encode` returns: a function of the input alone.
pub uninterp spec fn url_encoded_of(s: Seq<char>) -> Seq<char>;

/// Relies on `urlencoding::encode`: percent-encodes every byte except
/// ASCII alphanumerics and `-`, `_`, `.`, `~`, so a string of unreserved
/// characters comes back unchanged.
#[verifier::external_body]
pub(crate) fn url_encode(s: &str) -> (r: String)
    ensures
        r@ == url_encoded_of(s@),
        (forall|i: int| 0 <= i < s@.len() ==> is_unreserved(s@[i])) ==> r@ == s@,
{
    urlencoding::encode(s).into_owned()
}

/// What `SkimMatcherV2::fuzzy_match` returns under the default options: a
/// function of the candidate and the pattern alone. `None` means the
/// pattern's characters cannot be found in order in the candidate.
pub uninterp spec fn fuzzy_score_of(choice: Seq<char>, pattern: Seq<char>) -> Option<i64>;

/// Relies on `fuzzy_matcher::skim::SkimMatcherV2::fuzzy_match`, on a
/// matcher fresh from `SkimMatcherV2::default()`: a pure subsequence
/// match score, higher is better, `None` when the pattern does not match.
#[verifier::external_body]
pub(crate) fn fuzzy_score(choice: &str, pattern: &str) -> (r: Option<i64>)
    ensures
        r == fuzzy_score_of(choice@, pattern@),
{
    fuzzy_matcher::skim::SkimMatcherV2::default().fuzzy_match(choice, pattern)
}

/// What `meval::eval_str` returns, formatted with `{}`: a function of the
/// expression text alone. The default evaluation context holds no source
/// of randomness, time or environment; its transcendental builtins go
/// through the platform's math library, so the printed value is fixed
/// within any one build but could differ in the last digit across
/// platforms.
pub uninterp spec fn math_eval_of(s: Seq<char>) -> Option<Seq<char>>;

/// Relies on `meval::eval_str`: evaluates an arithmetic expression over
/// `+ - * / ^ ( )` and decimal literals; the numeric result is rendered
/// here with `format!`, so the text is a function of the expression alone.
/// The tokenizer panics on a non-empty input made only of whitespace (its
/// token parsers see an empty slice then), so such input is excluded: the
/// first character, if there is one, must not be whitespace.
#[verifier::external_body]
pub(crate) fn eval_math(expr: &str) -> (r: Option<String>)
    requires
        expr@.len() == 0 || !is_space(expr@[0]),
    ensures
        match r {
            Some(v) => math_eval_of(expr@) == Some(v@),
            None => math_eval_of(expr@) is None,
        },
{
    match meval::eval_str(expr) {
        Ok(v) => Some(format!("{}", v)),
        Err(_) => None,
    }
}

} // verus!
