//! Regular expressions, as the `regex` crate compiles and runs them.
//!
//! Nothing in this file is proved. It declares the crate's `Regex` to the
//! verifier, names the results of the calls the buffer makes, and states for
//! each call which name its result carries. The buffer's contracts are
//! written over those names.

use regex::Regex;
use vstd::prelude::*;

verus! {

/// `regex::Regex`, a compiled expression. The verifier sees nothing inside
/// it; what the library knows of one, it knows by `multi_line_source`.
#[verifier::external_type_specification]
#[verifier::external_body]
pub struct ExRegex(regex::Regex);

/// `regex::Error`, the reason why a pattern was not compiled. The library
/// reports every such reason as `InvalidRegex` and never looks inside.
#[verifier::external_type_specification]
#[verifier::external_body]
pub struct ExRegexError(regex::Error);

/// Whether `RegexBuilder::build` accepts `pattern` in multi-line mode, with
/// the builder's other settings left at their defaults.
pub uninterp spec fn pattern_compiles(pattern: Seq<char>) -> bool;

/// The pattern behind a compiled expression, which `Regex::as_str` hands
/// back, where the expression was built in multi-line mode with the
/// builder's other settings left at their defaults: `Some(p)` for one that
/// `compile` built from `p`. What it is for an expression built any other
/// way is left open, and the calls below are not made on such a one.
pub uninterp spec fn multi_line_source(re: Regex) -> Option<Seq<char>>;

/// Whether `Regex::is_match` finds `pattern`, compiled in multi-line mode,
/// anywhere in `text`.
pub uninterp spec fn pattern_matches(pattern: Seq<char>, text: Seq<char>) -> bool;

/// What `Regex::replace` makes of `text`: the leftmost match of `pattern`
/// (multi-line mode) is replaced by `replacement`, in which `$name` stands
/// for a capture group.
pub uninterp spec fn replaced_first(
    pattern: Seq<char>,
    text: Seq<char>,
    replacement: Seq<char>,
) -> Seq<char>;

/// What `Regex::replace_all` makes of `text`: every non-overlapping match
/// of `pattern` (multi-line mode) is replaced by `replacement`, in which
/// `$name` stands for a capture group.
pub uninterp spec fn replaced_all(
    pattern: Seq<char>,
    text: Seq<char>,
    replacement: Seq<char>,
) -> Seq<char>;

/// `RegexBuilder::new(pattern).multi_line(true).build()`.
///
/// Trusted: the outcome depends on `pattern` alone, and a successful build
/// yields an expression that remembers `pattern` as its source.
#[verifier::external_body]
pub(crate) fn compile(pattern: &str) -> (r: Result<Regex, regex::Error>)
    ensures
        r is Ok <==> pattern_compiles(pattern@),
        r is Ok ==> multi_line_source(r->Ok_0) == Some(pattern@),
{
    regex::RegexBuilder::new(pattern).multi_line(true).build()
}

/// `Regex::is_match`.
///
/// Trusted: whether a match exists depends only on the expression's source
/// and on `text`.
#[verifier::external_body]
pub(crate) fn is_match(re: &Regex, text: &str) -> (found: bool)
    requires
        multi_line_source(*re) is Some,
    ensures
        found == pattern_matches(multi_line_source(*re)->Some_0, text@),
{
    re.is_match(text)
}

/// `Regex::replace` with a string replacement, copied into a `String`.
///
/// Trusted: the result depends only on the expression's source, `text` and
/// `replacement`.
#[verifier::external_body]
pub(crate) fn replace_first(re: &Regex, text: &str, replacement: &str) -> (out: String)
    requires
        multi_line_source(*re) is Some,
    ensures
        out@ == replaced_first(multi_line_source(*re)->Some_0, text@, replacement@),
{
    re.replace(text, replacement).into_owned()
}

/// `Regex::replace_all` with a string replacement, copied into a `String`.
///
/// Trusted: the result depends only on the expression's source, `text` and
/// `replacement`.
#[verifier::external_body]
pub(crate) fn replace_every(re: &Regex, text: &str, replacement: &str) -> (out: String)
    requires
        multi_line_source(*re) is Some,
    ensures
        out@ == replaced_all(multi_line_source(*re)->Some_0, text@, replacement@),
{
    re.replace_all(text, replacement).into_owned()
}

} // verus!
