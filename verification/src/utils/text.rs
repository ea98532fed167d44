use vstd::prelude::*;

verus! {

/// Compares two string slices with `str`'s own `==`, which holds exactly when
/// both are the same sequence of characters.
#[verifier::external_body]
pub(crate) fn str_equal(a: &str, b: &str) -> (equal: bool)
    ensures
        equal == (a@ == b@),
{
    a == b
}

} // verus!
