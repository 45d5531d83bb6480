//! Calls whose results are spoken of as what the called function can return.

use vstd::prelude::*;

verus! {

/// Calls a function, and tells that the result is one that the function returns
/// for these arguments.
pub(crate) fn called<A, B, R, F: Fn(A, B) -> R>(function: F, first: A, second: B) -> (result: R)
    requires
        call_requires(function, (first, second)),
    ensures
        call_ensures(function, (first, second), result),
{
    function(first, second)
}

} // verus!
