//! Text matching and number reading: the case-insensitive substring test
//! behind searching, and the decimal numbers that the user types.

use vstd::prelude::*;

verus! {

/// Whether `needle` occurs in `hay` as a contiguous run of characters.
pub open spec fn occurs_in(needle: Seq<char>, hay: Seq<char>) -> bool {
    exists|k: int|
        0 <= k && k + needle.len() <= hay.len() && #[trigger] hay.subrange(
            k,
            k + needle.len(),
        ) == needle
}

/// The Unicode lower-case form of a text, as `str::to_lowercase` computes it.
pub uninterp spec fn unicode_lower(s: Seq<char>) -> Seq<char>;

/// Whether an item matches a search term that has been lower-cased already:
/// the term occurs in the lower-case form of the item.
pub open spec fn matches_lowered(item: Seq<char>, lowered: Seq<char>) -> bool {
    occurs_in(lowered, unicode_lower(item))
}

/// Calls `str::to_lowercase`. Trusted: the result is the Unicode lower-case
/// form of the argument, which `unicode_lower` names.
#[verifier::external_body]
pub(crate) fn to_lowercase(s: &str) -> (r: String)
    ensures
        r@ == unicode_lower(s@),
{
    s.to_lowercase()
}

/// Calls `str::contains` with a string pattern. Trusted: the result says
/// whether the pattern occurs in the text as a contiguous run of characters.
#[verifier::external_body]
pub(crate) fn contains(hay: &str, needle: &str) -> (r: bool)
    ensures
        r == occurs_in(needle@, hay@),
{
    hay.contains(needle)
}

/// Tests an item against a search term, both in lower case already: whether
/// the term occurs anywhere in the item.
pub fn contains_lowered(lowered_item: &str, lowered_term: &str) -> (r: bool)
    ensures
        r == occurs_in(lowered_term@, lowered_item@),
{
    contains(lowered_item, lowered_term)
}

/// Tests one item against a lower-cased search term: the item is brought to
/// lower case too, so that the two differ in nothing but what they say.
pub fn item_matches(item: &str, lowered: &str) -> (r: bool)
    ensures
        r == matches_lowered(item@, lowered@),
{
    let folded = to_lowercase(item);
    contains_lowered(folded.as_str(), lowered)
}


/// The number that a run of decimal digits writes.
pub open spec fn decimal_value(s: Seq<char>) -> nat
    decreases s.len(),
{
    if s.len() == 0 {
        0
    } else {
        decimal_value(s.drop_last()) * 10 + ((s.last() as u32 - '0' as u32) as nat)
    }
}

/// Whether a text is one or more of the digits '0' to '9'.
pub open spec fn is_decimal(s: Seq<char>) -> bool {
    s.len() > 0 && forall|i: int| 0 <= i < s.len() ==> '0' <= #[trigger] s[i] <= '9'
}

/// A text without its leading plus sign, if it has one.
pub open spec fn unsigned_part(s: Seq<char>) -> Seq<char> {
    if s.len() > 0 && s[0] == '+' {
        s.skip(1)
    } else {
        s
    }
}

/// The number that a text writes in decimal: an optional plus sign, then
/// digits only, with a value that fits the machine's word.
pub open spec fn decimal_usize(s: Seq<char>) -> Option<usize> {
    let digits = unsigned_part(s);
    if is_decimal(digits) && decimal_value(digits) <= usize::MAX {
        Some(decimal_value(digits) as usize)
    } else {
        None
    }
}

/// Calls `str::parse::<usize>`. Trusted: the text is read as an optional
/// plus sign followed by decimal digits and nothing else; an empty text, any
/// other character, or a value beyond `usize::MAX` gives `None`.
#[verifier::external_body]
pub(crate) fn parse_usize(s: &str) -> (r: Option<usize>)
    ensures
        r == decimal_usize(s@),
{
    s.parse::<usize>().ok()
}

} // verus!
