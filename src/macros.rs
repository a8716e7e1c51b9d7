use vstd::prelude::*;

verus! {

/// The length of an array of units: counts the tag keys of a metric declaration.
pub fn __count_helper<const N: usize>(_keys: [(); N]) -> (r: usize)
    ensures
        r == N,
{
    N
}

} // verus!
