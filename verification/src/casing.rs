//! Case folding of text, as the standard library defines it.

use vstd::prelude::*;

verus! {

/// The lower-case form of a text under Unicode's default case mapping.
pub uninterp spec fn spec_lowercase(text: Seq<char>) -> Seq<char>;

/// The upper-case form of a text under Unicode's default case mapping.
pub uninterp spec fn spec_uppercase(text: Seq<char>) -> Seq<char>;

/// Trusted: `str::to_lowercase` depends on its argument alone.
pub assume_specification[ str::to_lowercase ](text: &str) -> (folded: String)
    ensures
        folded@ == spec_lowercase(text@),
;

/// Trusted: `str::to_uppercase` depends on its argument alone.
pub assume_specification[ str::to_uppercase ](text: &str) -> (folded: String)
    ensures
        folded@ == spec_uppercase(text@),
;

} // verus!
