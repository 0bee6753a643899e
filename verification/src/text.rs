//! Case conversion of strings, as the standard library performs it.

use vstd::prelude::*;

verus! {

/// The characters of `s` after `str::to_lowercase`.
pub uninterp spec fn lowercase_of(s: Seq<char>) -> Seq<char>;

/// The characters of `s` after `str::to_uppercase`.
pub uninterp spec fn uppercase_of(s: Seq<char>) -> Seq<char>;

/// Calls `str::to_lowercase`. The conversion follows the Unicode tables
/// alone, so the result is a function of the characters of `s`; the
/// contract gives that function its name and claims nothing more of it.
#[verifier::external_body]
pub(crate) fn to_lowercase(s: &str) -> (r: String)
    ensures
        r@ == lowercase_of(s@),
{
    s.to_lowercase()
}

/// Calls `str::to_uppercase`. As with lowercasing, the result depends on
/// the characters of `s` alone and the contract only names it.
#[verifier::external_body]
pub(crate) fn to_uppercase(s: &str) -> (r: String)
    ensures
        r@ == uppercase_of(s@),
{
    s.to_uppercase()
}

} // verus!
