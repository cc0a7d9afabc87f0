//! Data generators for the engine benchmarks: sequences, duplicated values,
//! keyed pairs and seeded random data.
use crate::random::{draw_updates, draw_words, seeded_updates, seeded_words};
use crate::utils::generate_ints;
use vstd::prelude::*;

verus! {

/// The keyed random pairs `(i mod num_keys, w_i)`, with `w` the first `size`
/// words seeded with `seed`.
pub open spec fn keyed_random_pairs(size: nat, num_keys: nat, seed: u64) -> Seq<(usize, usize)> {
    Seq::new(
        size,
        |i: int| ((i % num_keys as int) as usize, seeded_words(seed, size)[i] as usize),
    )
}

/// Keyed random data is reproducible: two generations from the same size,
/// key count and seed give the same pairs.
pub proof fn keyed_data_deterministic(
    size: usize,
    num_keys: usize,
    seed: u64,
    first: Seq<(usize, usize)>,
    second: Seq<(usize, usize)>,
)
    requires
        num_keys > 0 || size == 0,
        first == keyed_random_pairs(size as nat, num_keys as nat, seed),
        second == keyed_random_pairs(size as nat, num_keys as nat, seed),
    ensures
        first == second,
{
}

/// The integers `0, 1, ..., size - 1`.
pub fn generate_sequential_data(size: usize) -> (r: Vec<usize>)
    ensures
        r@.len() == size,
        forall|i: int| 0 <= i < size ==> r@[i] == i,
{
    generate_ints(size)
}

/// Each of `0, ..., unique_count - 1` repeated `duplicate_factor` times in a row.
pub fn generate_data_with_duplicates(unique_count: usize, duplicate_factor: usize) -> (r: Vec<
    usize,
>)
    requires
        unique_count * duplicate_factor <= usize::MAX,
    ensures
        r@.len() == unique_count * duplicate_factor,
        forall|j: int| 0 <= j < r@.len() ==> r@[j] == j / duplicate_factor as int,
{
    let mut v: Vec<usize> = Vec::new();
    let mut i: usize = 0;
    while i < unique_count
        invariant
            i <= unique_count,
            unique_count * duplicate_factor <= usize::MAX,
            v@.len() == i * duplicate_factor,
            forall|j: int| 0 <= j < v@.len() ==> v@[j] == j / duplicate_factor as int,
        decreases unique_count - i,
    {
        let mut k: usize = 0;
        while k < duplicate_factor
            invariant
                i < unique_count,
                k <= duplicate_factor,
                unique_count * duplicate_factor <= usize::MAX,
                v@.len() == i * duplicate_factor + k,
                forall|j: int| 0 <= j < v@.len() ==> v@[j] == j / duplicate_factor as int,
            decreases duplicate_factor - k,
        {
            proof {
                let d = duplicate_factor as int;
                let ii = i as int;
                let kk = k as int;
                assert((ii * d + kk) / d == ii) by (nonlinear_arith)
                    requires
                        0 <= kk < d,
                        0 <= ii,
                ;
                assert(ii * d + kk < unique_count * d) by (nonlinear_arith)
                    requires
                        0 <= kk < d,
                        0 <= ii < unique_count,
                ;
            }
            v.push(i);
            k = k + 1;
        }
        proof {
            assert((i + 1) * duplicate_factor == i * duplicate_factor + duplicate_factor)
                by (nonlinear_arith);
        }
        i = i + 1;
    }
    v
}

/// `size` seeded random words.
pub fn generate_random_data(size: usize, seed: u64) -> (r: Vec<usize>)
    ensures
        r@.len() == size,
        forall|i: int| 0 <= i < size ==> r@[i] == seeded_words(seed, size as nat)[i] as usize,
{
    let words = draw_words(seed, size);
    let mut v: Vec<usize> = Vec::new();
    let mut i: usize = 0;
    while i < size
        invariant
            i <= size,
            words@ == seeded_words(seed, size as nat),
            words@.len() == size,
            v@.len() == i,
            forall|j: int| 0 <= j < i ==> v@[j] == words@[j] as usize,
        decreases size - i,
    {
        v.push(words[i] as usize);
        i = i + 1;
    }
    v
}

/// `size` pairs `(i mod num_keys, w_i)` with `w_i` a seeded random word.
pub fn generate_join_data(size: usize, num_keys: usize, seed: u64) -> (r: Vec<(usize, usize)>)
    requires
        num_keys > 0 || size == 0,
    ensures
        r@ == keyed_random_pairs(size as nat, num_keys as nat, seed),
        r@.len() == size,
        forall|i: int|
            0 <= i < size ==> r@[i].0 == i % num_keys as int && r@[i].1 == seeded_words(
                seed,
                size as nat,
            )[i] as usize,
{
    if size == 0 {
        let v: Vec<(usize, usize)> = Vec::new();
        assert(v@ =~= keyed_random_pairs(size as nat, num_keys as nat, seed));
        return v;
    }
    let words = draw_words(seed, size);
    let mut v: Vec<(usize, usize)> = Vec::new();
    let mut i: usize = 0;
    while i < size
        invariant
            i <= size,
            num_keys > 0,
            words@ == seeded_words(seed, size as nat),
            words@.len() == size,
            v@.len() == i,
            forall|j: int|
                0 <= j < i ==> v@[j].0 == j % num_keys as int && v@[j].1 == words@[j] as usize,
        decreases size - i,
    {
        v.push((i % num_keys, words[i] as usize));
        i = i + 1;
    }
    assert(v@ =~= keyed_random_pairs(size as nat, num_keys as nat, seed));
    v
}

/// Keyed data with a controllable key cardinality: the same pairs as
/// `generate_join_data`.
pub fn generate_keyed_data(size: usize, num_keys: usize, seed: u64) -> (r: Vec<(usize, usize)>)
    requires
        num_keys > 0 || size == 0,
    ensures
        r@ == keyed_random_pairs(size as nat, num_keys as nat, seed),
        r@.len() == size,
        forall|i: int|
            0 <= i < size ==> r@[i].0 == i % num_keys as int && r@[i].1 == seeded_words(
                seed,
                size as nat,
            )[i] as usize,
{
    generate_join_data(size, num_keys, seed)
}

/// Incremental updates from one generator seeded with `seed`:
/// `update_size` random inserts, then `update_size` deletions drawn
/// uniformly from `[0, base_size)`. No updates are asked for when
/// `update_size` is zero, whatever `base_size` is.
pub fn generate_updates(base_size: usize, update_size: usize, seed: u64) -> (r: (
    Vec<usize>,
    Vec<usize>,
))
    requires
        base_size > 0 || update_size == 0,
    ensures
        r.0@.len() == update_size,
        r.1@.len() == update_size,
        forall|i: int|
            0 <= i < update_size ==> r.0@[i] == seeded_updates(
                seed,
                update_size as nat,
                base_size as u64,
            ).0[i] as usize,
        forall|i: int|
            0 <= i < update_size ==> r.1@[i] == seeded_updates(
                seed,
                update_size as nat,
                base_size as u64,
            ).1[i] && r.1@[i] < base_size,
{
    if update_size == 0 {
        return (Vec::new(), Vec::new());
    }
    let (words, draws) = draw_updates(seed, update_size, base_size as u64);
    let mut inserts: Vec<usize> = Vec::new();
    let mut deletes: Vec<usize> = Vec::new();
    let mut i: usize = 0;
    while i < update_size
        invariant
            i <= update_size,
            (words@, draws@) == seeded_updates(seed, update_size as nat, base_size as u64),
            words@.len() == update_size,
            draws@.len() == update_size,
            forall|j: int| 0 <= j < update_size ==> draws@[j] < base_size as u64,
            inserts@.len() == i,
            deletes@.len() == i,
            forall|j: int| 0 <= j < i ==> inserts@[j] == words@[j] as usize,
            forall|j: int| 0 <= j < i ==> deletes@[j] == draws@[j] && deletes@[j] < base_size,
        decreases update_size - i,
    {
        inserts.push(words[i] as usize);
        deletes.push(draws[i] as usize);
        i = i + 1;
    }
    (inserts, deletes)
}

} // verus!
