//! Expected result sizes, used to set up and check benchmark bodies.
use vstd::prelude::*;

verus! {

/// The expected join size used to size join benchmarks: with `num_keys`
/// keys spread evenly, a key has `left_size / num_keys` elements on the left
/// and `right_size / num_keys` on the right, and the size is the product of
/// those two group sizes.
pub open spec fn join_size(left_size: nat, right_size: nat, num_keys: nat) -> nat
    recommends
        num_keys > 0,
{
    (left_size / num_keys) * (right_size / num_keys)
}

/// The expected output size of joining inputs keyed evenly over `num_keys` keys.
pub fn expected_join_size(left_size: usize, right_size: usize, num_keys: usize) -> (r: usize)
    requires
        num_keys > 0,
        join_size(left_size as nat, right_size as nat, num_keys as nat) <= usize::MAX,
    ensures
        r == join_size(left_size as nat, right_size as nat, num_keys as nat),
{
    let left_per_key = left_size / num_keys;
    let right_per_key = right_size / num_keys;
    left_per_key * right_per_key
}

/// The expected number of distinct keys among `total_size` items keyed over `num_keys` keys.
pub fn expected_distinct_count(total_size: usize, num_keys: usize) -> (r: usize)
    ensures
        r == if num_keys <= total_size {
            num_keys
        } else {
            total_size
        },
{
    if num_keys <= total_size {
        num_keys
    } else {
        total_size
    }
}

} // verus!
