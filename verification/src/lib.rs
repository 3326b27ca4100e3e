pub mod clock;
pub mod estimator;
pub mod laws;

use vstd::prelude::*;

verus! {

/// True when `a` lies within `tolerance` of `b` in either direction.
pub fn fuzzy_cmp(a: u64, b: u64, tolerance: u64) -> (r: bool)
    ensures
        r == (b - tolerance <= a as int && a as int <= b + tolerance),
{
    a as u128 + tolerance as u128 >= b as u128 && a as u128 <= b as u128 + tolerance as u128
}

} // verus!
