//! Small generic helpers.

use vstd::prelude::*;
use core::cmp::Ordering;
use vstd::std_specs::cmp::PartialOrdSpec;

verus! {

/// The value `x` limited to the closed range `[min, max]`, as ordered by `partial_cmp`.
pub open spec fn clamp_spec<T: PartialOrd>(x: T, min: T, max: T) -> T {
    if x.partial_cmp_spec(&min) == Some(Ordering::Less) {
        min
    } else if x.partial_cmp_spec(&max) == Some(Ordering::Greater) {
        max
    } else {
        x
    }
}

/// Limits `x` to the range `[min, max]`: `min` when `x < min`, `max` when `x > max`,
/// and `x` otherwise.
pub fn clamp<T: PartialOrd>(x: T, min: T, max: T) -> (r: T)
    ensures
        T::obeys_partial_cmp_spec() ==> r == clamp_spec(x, min, max),
{
    if x < min {
        min
    } else if x > max {
        max
    } else {
        x
    }
}

} // verus!
