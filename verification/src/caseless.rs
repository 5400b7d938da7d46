//! Case-insensitive identity for ingredient names.
//!
//! Ingredient names are compared caseless: `Egg` and `egg` are the same
//! entity. The comparison is Unicode case folding, performed by the
//! `unicase` crate; the folded form of a character sequence is only named
//! here, never spelled out.

use vstd::prelude::*;

verus! {

/// The case-folded form of a character sequence, as `unicase` computes it.
/// Two strings are caseless-equal exactly when their folded forms are equal.
pub uninterp spec fn fold_of(s: Seq<char>) -> Seq<char>;

/// Relies on unicase::eq, which compares the Unicode-case-folded forms of
/// its two arguments character for character (for two ASCII strings it
/// compares ASCII-caselessly, which agrees with case folding). The result
/// depends on the two character sequences alone.
#[verifier::external_body]
pub(crate) fn eq_fold(a: &str, b: &str) -> (r: bool)
    ensures
        r == (fold_of(a@) == fold_of(b@)),
{
    unicase::eq(a, b)
}

} // verus!
