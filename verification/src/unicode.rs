use vstd::prelude::*;

verus! {

/// The lowercase form of a text, as the standard library computes it.
pub uninterp spec fn lowercase_of(s: Seq<char>) -> Seq<char>;

/// The uppercase form of a text, as the standard library computes it.
pub uninterp spec fn uppercase_of(s: Seq<char>) -> Seq<char>;

/// True for the characters that Unicode lists as lowercase.
pub uninterp spec fn lowercase_char(c: char) -> bool;

/// True for the characters that Unicode lists as numeric.
pub uninterp spec fn numeric_char(c: char) -> bool;

/// `str::to_lowercase`: the result is the lowercase form of the argument,
/// a function of the argument's characters alone.
#[verifier::external_body]
pub(crate) fn to_lowercase(s: &str) -> (out: String)
    ensures
        out@ == lowercase_of(s@),
{
    s.to_lowercase()
}

/// `str::to_uppercase`: the result is the uppercase form of the argument,
/// a function of the argument's characters alone.
#[verifier::external_body]
pub(crate) fn to_uppercase(s: &str) -> (out: String)
    ensures
        out@ == uppercase_of(s@),
{
    s.to_uppercase()
}

/// `char::is_lowercase`: whether Unicode lists the character as lowercase.
#[verifier::external_body]
pub(crate) fn is_lowercase(c: char) -> (r: bool)
    ensures
        r == lowercase_char(c),
{
    c.is_lowercase()
}

/// `char::is_numeric`: whether Unicode lists the character as numeric.
#[verifier::external_body]
pub(crate) fn is_numeric(c: char) -> (r: bool)
    ensures
        r == numeric_char(c),
{
    c.is_numeric()
}

} // verus!
