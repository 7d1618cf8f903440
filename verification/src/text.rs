//! Comparison of texts.

use vstd::prelude::*;

verus! {

/// `str::eq`, which stands behind `==` on texts, compares two texts
/// character by character: it holds exactly when both hold the same
/// characters in the same order.
pub assume_specification[ <str as PartialEq>::eq ](a: &str, b: &str) -> (r: bool)
    ensures
        r == (a@ == b@),
;

/// Whether two texts are the same.
pub fn same_text(a: &str, b: &str) -> (r: bool)
    ensures
        r == (a@ == b@),
{
    a.eq(b)
}

} // verus!
