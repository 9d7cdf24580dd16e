//! What the text of an error says about gas.
use vstd::prelude::*;
use vstd::utf8::is_ascii_chars;

verus! {

/// What `str::to_lowercase` of std makes of a text: the lowercase of it by the mapping of Unicode.
pub uninterp spec fn lowercase(text: Seq<char>) -> Seq<char>;

/// The lowercase of an ASCII character.
pub open spec fn ascii_lower(c: char) -> char {
    if 'A' <= c && c <= 'Z' {
        (c as u32 + 32) as char
    } else {
        c
    }
}

/// The text with each capital ASCII letter replaced by the small one.
pub open spec fn ascii_lowercase(text: Seq<char>) -> Seq<char> {
    text.map_values(|c: char| ascii_lower(c))
}

/// Some part of `text` is `pattern`.
pub open spec fn occurs_in(pattern: Seq<char>, text: Seq<char>) -> bool {
    exists|i: int|
        0 <= i <= text.len() - pattern.len() && #[trigger] text.subrange(i, i + pattern.len())
            == pattern
}

/// Calls `str::to_lowercase`. The result is a function of the text alone. Of a text of ASCII
/// characters it is the text with each capital letter replaced by the small one; of other texts
/// nothing more is claimed.
#[verifier::external_body]
pub(crate) fn to_lowercase(text: &str) -> (lower: String)
    ensures
        lower@ == lowercase(text@),
        is_ascii_chars(text@) ==> lower@ == ascii_lowercase(text@),
{
    text.to_lowercase()
}

/// Calls `str::contains` with a string pattern, which tells whether the pattern is a part of the
/// text.
#[verifier::external_body]
fn contains(text: &str, pattern: &str) -> (found: bool)
    ensures
        found == occurs_in(pattern@, text@),
{
    text.contains(pattern)
}

/// The lowercase text speaks of gas having run out.
pub open spec fn says_out_of_gas(lower: Seq<char>) -> bool {
    occurs_in("out of gas"@, lower) || occurs_in("insufficient gas"@, lower)
}

/// Whether a lowercase text speaks of gas having run out.
pub fn names_out_of_gas(lower: &str) -> (named: bool)
    ensures
        named == says_out_of_gas(lower@),
{
    contains(lower, "out of gas") || contains(lower, "insufficient gas")
}

} // verus!
