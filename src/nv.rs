//! Encoding of property values for name-value lists, where every value is an unsigned integer.
use vstd::prelude::*;

verus! {

/// A boolean as the name-value lists of the kernel module take it: 1 for true, 0 for false.
pub fn bool_to_u64(src: bool) -> (r: u64)
    ensures
        r == (if src {
            1u64
        } else {
            0u64
        }),
{
    if src {
        1
    } else {
        0
    }
}

} // verus!
