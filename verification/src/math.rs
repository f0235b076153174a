//! Numeric helpers.

use vstd::prelude::*;
use core::cmp::Ordering;
use vstd::std_specs::cmp::PartialOrdSpec;

verus! {

/// `value` held between `min` and `max`: `min` where `value` is below it,
/// else `max` where `value` is above it, else `value` itself. Values that
/// cannot be compared count as neither below nor above.
pub open spec fn clamped<T: PartialOrd>(value: T, min: T, max: T) -> T {
    if value.partial_cmp_spec(&min) == Some(Ordering::Less) {
        min
    } else if value.partial_cmp_spec(&max) == Some(Ordering::Greater) {
        max
    } else {
        value
    }
}

pub struct MathUtils;

impl MathUtils {
    /// Holds `value` between `min` and `max`. The result is stated for types
    /// whose comparison operators follow their specification, as those of
    /// the integers do.
    pub fn clamp<T: PartialOrd>(value: T, min: T, max: T) -> (r: T)
        ensures
            T::obeys_partial_cmp_spec() ==> r == clamped(value, min, max),
    {
        if value < min {
            min
        } else if value > max {
            max
        } else {
            value
        }
    }
}

} // verus!
