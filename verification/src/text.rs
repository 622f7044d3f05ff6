//! Case folding of text, as the standard library does it.
use vstd::prelude::*;

verus! {

/// What `str::to_lowercase` returns for a string, as a sequence of characters.
pub uninterp spec fn lowercase(s: Seq<char>) -> Seq<char>;

/// The ASCII lowercase of one character: `A`..`Z` become `a`..`z`, every
/// other character stays.
pub open spec fn ascii_lower(c: char) -> char {
    if 'A' <= c <= 'Z' {
        ((c as int) + 32) as char
    } else {
        c
    }
}

/// Every character is ASCII.
pub open spec fn all_ascii(s: Seq<char>) -> bool {
    forall|k: int| 0 <= k < s.len() ==> (#[trigger] s[k] as int) < 128
}

/// `str::to_lowercase`, returned as its characters. The result is named
/// `lowercase(s@)`; beyond that it is only stated that an all-ASCII string
/// is lowercased character by character, `A`..`Z` to `a`..`z`, as the
/// standard library documents for ASCII. What it does to other characters
/// (the Unicode lowercase mapping) is left unstated.
#[verifier::external_body]
pub(crate) fn to_lowercase_chars(s: &str) -> (r: Vec<char>)
    ensures
        r@ == lowercase(s@),
        all_ascii(s@) ==> r@ == s@.map_values(|c: char| ascii_lower(c)),
{
    s.to_lowercase().chars().collect()
}

} // verus!
