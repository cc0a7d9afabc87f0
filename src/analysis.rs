//! Summary statistics of one result store: how many trials succeeded, their
//! mean time, and the fastest and slowest among them.
use crate::store::TimingSample;
use vstd::prelude::*;

verus! {

/// The number of successful samples.
pub open spec fn succeeded_count(samples: Seq<TimingSample>) -> nat
    decreases samples.len(),
{
    if samples.len() == 0 {
        0
    } else {
        succeeded_count(samples.drop_last()) + if samples.last().failure is None {
            1nat
        } else {
            0nat
        }
    }
}

/// The total elapsed time of the successful samples.
pub open spec fn succeeded_elapsed(samples: Seq<TimingSample>) -> nat
    decreases samples.len(),
{
    if samples.len() == 0 {
        0
    } else {
        succeeded_elapsed(samples.drop_last()) + if samples.last().failure is None {
            samples.last().elapsed_nanos as nat
        } else {
            0nat
        }
    }
}

/// Among the first `k` samples, sample `f` is a successful one with the
/// least elapsed time, and no earlier successful sample has the same.
pub open spec fn quickest_among(samples: Seq<TimingSample>, f: int, k: int) -> bool {
    &&& 0 <= f < k <= samples.len()
    &&& samples[f].failure is None
    &&& forall|j: int|
        0 <= j < k && (#[trigger] samples[j]).failure is None ==> samples[f].elapsed_nanos
            <= samples[j].elapsed_nanos
    &&& forall|j: int|
        0 <= j < f && (#[trigger] samples[j]).failure is None ==> samples[f].elapsed_nanos
            < samples[j].elapsed_nanos
}

/// Among the first `k` samples, sample `s` is a successful one with the
/// greatest elapsed time, and no earlier successful sample has the same.
pub open spec fn slowest_sample_among(samples: Seq<TimingSample>, s: int, k: int) -> bool {
    &&& 0 <= s < k <= samples.len()
    &&& samples[s].failure is None
    &&& forall|j: int|
        0 <= j < k && (#[trigger] samples[j]).failure is None ==> samples[j].elapsed_nanos
            <= samples[s].elapsed_nanos
    &&& forall|j: int|
        0 <= j < s && (#[trigger] samples[j]).failure is None ==> samples[j].elapsed_nanos
            < samples[s].elapsed_nanos
}

/// The statistics of the successful samples of a store.
pub struct StoreSummary {
    /// The number of successful samples.
    pub analyzed: usize,
    /// Their mean elapsed time in nanoseconds, rounded down.
    pub mean_elapsed_nanos: u64,
    /// The index of the first fastest successful sample.
    pub fastest: usize,
    /// The index of the first slowest successful sample.
    pub slowest: usize,
}

proof fn lemma_elapsed_bound(samples: Seq<TimingSample>)
    ensures
        succeeded_elapsed(samples) <= succeeded_count(samples) * u64::MAX,
        succeeded_count(samples) <= samples.len(),
    decreases samples.len(),
{
    if samples.len() > 0 {
        lemma_elapsed_bound(samples.drop_last());
    }
}

/// The statistics of the successful samples; none where no sample succeeded.
pub fn analyze(samples: &Vec<TimingSample>) -> (r: Option<StoreSummary>)
    ensures
        r is None <==> succeeded_count(samples@) == 0,
        r matches Some(s) ==> {
            &&& s.analyzed == succeeded_count(samples@)
            &&& s.mean_elapsed_nanos == succeeded_elapsed(samples@) / succeeded_count(samples@)
            &&& quickest_among(samples@, s.fastest as int, samples@.len() as int)
            &&& slowest_sample_among(samples@, s.slowest as int, samples@.len() as int)
        },
{
    let ghost v = samples@;
    let mut count: usize = 0;
    let mut total: u128 = 0;
    let mut fastest: usize = 0;
    let mut slowest: usize = 0;
    let mut k: usize = 0;
    while k < samples.len()
        invariant
            v == samples@,
            k <= v.len(),
            count == succeeded_count(v.subrange(0, k as int)),
            total == succeeded_elapsed(v.subrange(0, k as int)),
            count > 0 ==> quickest_among(v, fastest as int, k as int) && slowest_sample_among(
                v,
                slowest as int,
                k as int,
            ),
            count == 0 ==> forall|j: int| 0 <= j < k ==> (#[trigger] v[j]).failure is Some,
        decreases v.len() - k,
    {
        let ghost pre = v.subrange(0, k as int);
        proof {
            assert(v.subrange(0, k + 1).drop_last() == pre);
            lemma_elapsed_bound(pre);
            assert(succeeded_count(pre) * u64::MAX + u64::MAX <= u128::MAX) by (nonlinear_arith)
                requires
                    succeeded_count(pre) <= k,
                    k < usize::MAX,
            ;
        }
        let s = &samples[k];
        if s.failure.is_none() {
            if count == 0 {
                fastest = k;
                slowest = k;
            } else {
                if s.elapsed_nanos < samples[fastest].elapsed_nanos {
                    fastest = k;
                }
                if s.elapsed_nanos > samples[slowest].elapsed_nanos {
                    slowest = k;
                }
            }
            count = count + 1;
            total = total + s.elapsed_nanos as u128;
        }
        k = k + 1;
    }
    proof {
        assert(v.subrange(0, v.len() as int) == v);
    }
    if count == 0 {
        return None;
    }
    let mean = total / (count as u128);
    proof {
        lemma_elapsed_bound(v);
        let t = total as int;
        let c = count as int;
        assert(t / c <= u64::MAX) by (nonlinear_arith)
            requires
                t <= c * u64::MAX,
                c > 0,
                t >= 0,
        ;
    }
    Some(StoreSummary { analyzed: count, mean_elapsed_nanos: mean as u64, fastest, slowest })
}

} // verus!
