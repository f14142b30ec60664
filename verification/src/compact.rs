//! Short names held in [`CompactString`], which keeps up to 24 bytes inline.

use compact_str::CompactString;
use vstd::prelude::*;

verus! {

/// The small-string type of the `compact_str` crate, opaque to the verifier.
#[verifier::external_type_specification]
#[verifier::external_body]
pub struct ExCompactString(compact_str::CompactString);

/// The characters that a [`CompactString`] holds.
pub uninterp spec fn compact_chars(s: CompactString) -> Seq<char>;

/// `CompactString::as_str`: the string slice with the characters of `s`.
pub assume_specification[ compact_str::CompactString::as_str ](s: &CompactString) -> (r: &str)
    ensures
        r@ == compact_chars(*s),
;

/// `CompactString::clone`: a string with the same characters.
pub assume_specification[ <compact_str::CompactString as Clone>::clone ](
    s: &CompactString,
) -> (r: CompactString)
    ensures
        compact_chars(r) == compact_chars(*s),
;

/// `CompactString::from(&str)`: a string with the characters of `s`.
#[verifier::external_body]
pub(crate) fn compact(s: &str) -> (r: CompactString)
    ensures
        compact_chars(r) == s@,
{
    CompactString::from(s)
}

/// The characters of each name of a list.
pub open spec fn names_of(list: Seq<CompactString>) -> Seq<Seq<char>> {
    list.map_values(|s: CompactString| compact_chars(s))
}

/// A list with the same names.
pub fn cloned_names(list: &Vec<CompactString>) -> (r: Vec<CompactString>)
    ensures
        names_of(r@) == names_of(list@),
{
    let mut r: Vec<CompactString> = Vec::new();
    let mut i: usize = 0;
    while i < list.len()
        invariant
            i <= list.len(),
            r.len() == i,
            forall|j: int|
                0 <= j < i ==> compact_chars(#[trigger] r@[j]) == compact_chars(list@[j]),
        decreases list.len() - i,
    {
        r.push(list[i].clone());
        i += 1;
    }
    assert(names_of(r@) == names_of(list@));
    r
}

} // verus!
