//! Name comparison under the session's case policy.
//!
//! Whether names compare case-sensitively is a property of the device, fixed
//! once when the session is opened.  Case-sensitive comparison is exact
//! code-point equality; case-insensitive comparison folds both sides to
//! lower case first.

use vstd::prelude::*;

verus! {

/// The lower-cased form of a text, as `str::to_lowercase` computes it.
pub uninterp spec fn lower_of(s: Seq<char>) -> Seq<char>;

/// Relies on `str::to_lowercase`: the lower-cased text is a function of the
/// characters alone, the same in every process and on every machine.
#[verifier::external_body]
fn to_lowercase(s: &str) -> (r: String)
    ensures
        r@ == lower_of(s@),
{
    s.to_lowercase()
}

/// What it means for a name to match a looked-up name under a case policy.
pub open spec fn spec_names_match(case_sensitive: bool, left: Seq<char>, right: Seq<char>) -> bool {
    if case_sensitive {
        left == right
    } else {
        lower_of(left) == lower_of(right)
    }
}

/// Compare two path components, with or without case folding.
pub fn are_path_eq(left: &str, right: &str, case_sensitive: bool) -> (r: bool)
    ensures
        r == spec_names_match(case_sensitive, left@, right@),
{
    if case_sensitive {
        let l = left.to_owned();
        let r = right.to_owned();
        l == r
    } else {
        let l = to_lowercase(left);
        let r = to_lowercase(right);
        l == r
    }
}

} // verus!
