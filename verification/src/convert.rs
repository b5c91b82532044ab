//! Adapters for the results of client calls.

use vstd::prelude::*;

verus! {

/// Discards a value, for `Result::map` on calls whose result is not needed.
pub fn unit<T>(_value: T) -> (r: ())
    ensures
        r == (),
{
    ()
}

} // verus!
