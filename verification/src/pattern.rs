use vstd::prelude::*;

verus! {

/// `regex::Regex`: a compiled regular expression. Nothing of its inside is
/// visible here but the pattern that it was made from.
#[verifier::external_type_specification]
#[verifier::external_body]
pub struct ExRegex(regex::Regex);

/// `regex::Error`: why a pattern did not compile. It is only passed on.
#[verifier::external_type_specification]
#[verifier::external_body]
pub struct ExRegexError(regex::Error);

/// The pattern text that a compiled regular expression was made from.
pub uninterp spec fn regex_pattern(re: regex::Regex) -> Seq<char>;

/// True when a pattern text compiles to a regular expression.
pub uninterp spec fn pattern_compiles(pattern: Seq<char>) -> bool;

/// True when the regular expression of a pattern matches somewhere in a text.
pub uninterp spec fn pattern_matches(pattern: Seq<char>, text: Seq<char>) -> bool;

/// A text with every match of the regular expression of a pattern replaced.
pub uninterp spec fn pattern_replaced(
    pattern: Seq<char>,
    text: Seq<char>,
    replacement: Seq<char>,
) -> Seq<char>;

/// `regex::Regex::new`: compiles a pattern. Whether it succeeds depends on
/// the pattern alone, and the compiled expression remembers its pattern.
#[verifier::external_body]
pub(crate) fn compile(pattern: &str) -> (r: Result<regex::Regex, regex::Error>)
    ensures
        match r {
            Ok(re) => pattern_compiles(pattern@) && regex_pattern(re) == pattern@,
            Err(_) => !pattern_compiles(pattern@),
        },
{
    regex::Regex::new(pattern)
}

/// `regex::Regex::is_match`: whether the expression matches somewhere in
/// the text, which depends on the pattern and the text alone.
#[verifier::external_body]
pub(crate) fn is_match(re: &regex::Regex, text: &str) -> (r: bool)
    ensures
        r == pattern_matches(regex_pattern(*re), text@),
{
    re.is_match(text)
}

/// `regex::Regex::replace_all` with a text as replacement: the result
/// depends on the pattern, the text and the replacement alone.
#[verifier::external_body]
pub(crate) fn replace_matches(re: &regex::Regex, text: &str, replacement: &str) -> (out: String)
    ensures
        out@ == pattern_replaced(regex_pattern(*re), text@, replacement@),
{
    re.replace_all(text, replacement).into_owned()
}

} // verus!
