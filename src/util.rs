use vstd::prelude::*;

verus! {

/// Picks `if_true` when `condition` holds and `if_false` otherwise.
pub fn ternary<T>(condition: bool, if_true: T, if_false: T) -> (r: T)
    ensures
        r == (if condition { if_true } else { if_false }),
{
    if condition {
        if_true
    } else {
        if_false
    }
}

} // verus!
