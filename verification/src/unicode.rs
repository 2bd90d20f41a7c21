//! What the standard library knows of Unicode and this library does not
//! spell out: the lower and upper case of a text, and which characters are
//! numeric. Each is a name for what the standard function returns.

use vstd::prelude::*;

verus! {

/// The lower case of a text, as `str::to_lowercase` gives it.
pub uninterp spec fn lowercase(text: Seq<char>) -> Seq<char>;

/// The upper case of a text, as `str::to_uppercase` gives it.
pub uninterp spec fn uppercase(text: Seq<char>) -> Seq<char>;

/// Whether a character is numeric, as `char::is_numeric` tells it.
pub uninterp spec fn numeric(c: char) -> bool;

/// `str::to_lowercase`: the lower case of `text`, by the Unicode rules. The
/// result is a function of the text alone.
#[verifier::external_body]
pub(crate) fn to_lowercase(text: &str) -> (r: String)
    ensures
        r@ == lowercase(text@),
{
    text.to_lowercase()
}

/// `str::to_uppercase`: the upper case of `text`, by the Unicode rules. The
/// result is a function of the text alone.
#[verifier::external_body]
pub(crate) fn to_uppercase(text: &str) -> (r: String)
    ensures
        r@ == uppercase(text@),
{
    text.to_uppercase()
}

/// `char::is_numeric`: whether `c` is in one of Unicode's general
/// categories for numbers (`Nd`, `Nl`, `No`). The answer is a function of
/// the character alone.
#[verifier::external_body]
pub(crate) fn is_numeric(c: char) -> (r: bool)
    ensures
        r == numeric(c),
{
    c.is_numeric()
}

} // verus!
