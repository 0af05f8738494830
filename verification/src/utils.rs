//! Small helpers.
use vstd::prelude::*;

verus! {

/// The default value of a type.
pub fn default<T: Default>() -> (r: T)
    ensures
        call_ensures(T::default, (), r),
{
    T::default()
}

} // verus!
