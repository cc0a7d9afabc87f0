//! Per-framework benchmark measurements, with times in nanoseconds.
use crate::compare::Ratio;
use vstd::prelude::*;

verus! {

/// The mean time of one benchmark on one framework.
pub struct BenchmarkResult {
    pub framework: String,
    pub benchmark_name: String,
    /// The mean time of an iteration, in nanoseconds.
    pub mean_time_nanos: u64,
    pub elements_processed: usize,
}

/// Elements per second, rounded down, over a nonzero time.
pub open spec fn elements_per_sec(elements: nat, nanos: nat) -> nat
    recommends
        nanos > 0,
{
    elements * 1_000_000_000 / nanos
}

impl BenchmarkResult {
    pub fn new(
        framework: String,
        benchmark_name: String,
        mean_time_nanos: u64,
        elements_processed: usize,
    ) -> (r: BenchmarkResult)
        ensures
            r == (BenchmarkResult {
                framework,
                benchmark_name,
                mean_time_nanos,
                elements_processed,
            }),
    {
        BenchmarkResult { framework, benchmark_name, mean_time_nanos, elements_processed }
    }

    /// Elements per second, rounded down; none for a zero mean time.
    pub fn throughput_eps(&self) -> (r: Option<u128>)
        ensures
            self.mean_time_nanos == 0 <==> r is None,
            r matches Some(t) ==> t == elements_per_sec(
                self.elements_processed as nat,
                self.mean_time_nanos as nat,
            ),
    {
        if self.mean_time_nanos == 0 {
            return None;
        }
        proof {
            assert(self.elements_processed * 1_000_000_000 <= u128::MAX) by (nonlinear_arith)
                requires
                    self.elements_processed <= u64::MAX,
            ;
        }
        let scaled: u128 = (self.elements_processed as u128) * 1_000_000_000;
        Some(scaled / (self.mean_time_nanos as u128))
    }

    /// The speedup of this result, as candidate, over `baseline`: this
    /// result's mean time over the baseline's; none for a zero baseline time.
    pub fn speedup_over(&self, baseline: &BenchmarkResult) -> (r: Option<Ratio>)
        ensures
            baseline.mean_time_nanos == 0 <==> r is None,
            r matches Some(q) ==> q == (Ratio {
                num: self.mean_time_nanos,
                den: baseline.mean_time_nanos,
            }),
    {
        if baseline.mean_time_nanos == 0 {
            None
        } else {
            Some(Ratio { num: self.mean_time_nanos, den: baseline.mean_time_nanos })
        }
    }
}

} // verus!
