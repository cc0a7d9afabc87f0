//! Timing samples and the append-only store that holds one engine's samples.
use crate::engine::EngineError;
use crate::text::{has_prefix, starts_with};
use vstd::prelude::*;

verus! {

/// One measured trial.
pub struct TimingSample {
    /// The benchmark name, led by the engine label (`"timely/join/1000"`).
    pub name: String,
    /// The measured time, in nanoseconds.
    pub elapsed_nanos: u64,
    /// The number of items the trial processed.
    pub items_processed: u64,
    /// Why the trial failed, if it did; a failed sample carries no throughput.
    pub failure: Option<EngineError>,
}

/// Items per second, rounded down, of a sample that succeeded in a nonzero time.
pub open spec fn throughput(s: TimingSample) -> Option<nat> {
    if s.failure is Some || s.elapsed_nanos == 0 {
        None
    } else {
        Some((s.items_processed * 1_000_000_000) as nat / s.elapsed_nanos as nat)
    }
}

impl Clone for TimingSample {
    fn clone(&self) -> (r: Self)
        ensures
            r == *self,
    {
        TimingSample {
            name: self.name.clone(),
            elapsed_nanos: self.elapsed_nanos,
            items_processed: self.items_processed,
            failure: self.failure,
        }
    }
}

impl TimingSample {
    /// A sample of a trial that succeeded.
    pub fn new(name: String, elapsed_nanos: u64, items_processed: u64) -> (r: TimingSample)
        ensures
            r == (TimingSample { name, elapsed_nanos, items_processed, failure: None }),
    {
        TimingSample { name, elapsed_nanos, items_processed, failure: None }
    }

    /// A sample of a trial that failed with `failure`.
    pub fn failed(name: String, elapsed_nanos: u64, failure: EngineError) -> (r: TimingSample)
        ensures
            r == (TimingSample { name, elapsed_nanos, items_processed: 0, failure: Some(failure) }),
    {
        TimingSample { name, elapsed_nanos, items_processed: 0, failure: Some(failure) }
    }

    /// Items per second, rounded down; none for a failed sample or a zero time.
    pub fn throughput_per_sec(&self) -> (r: Option<u128>)
        ensures
            r matches Some(t) ==> throughput(*self) == Some(t as nat),
            r is None ==> throughput(*self) is None,
    {
        if self.failure.is_some() || self.elapsed_nanos == 0 {
            None
        } else {
            proof {
                assert(self.items_processed * 1_000_000_000 <= u128::MAX) by (nonlinear_arith)
                    requires
                        self.items_processed <= u64::MAX,
                ;
            }
            let scaled: u128 = (self.items_processed as u128) * 1_000_000_000;
            Some(scaled / (self.elapsed_nanos as u128))
        }
    }
}

/// The samples whose names begin with `prefix`, in order.
pub open spec fn with_prefix(samples: Seq<TimingSample>, prefix: Seq<char>) -> Seq<TimingSample>
    decreases samples.len(),
{
    if samples.len() == 0 {
        samples
    } else if has_prefix(samples.last().name@, prefix) {
        with_prefix(samples.drop_last(), prefix).push(samples.last())
    } else {
        with_prefix(samples.drop_last(), prefix)
    }
}

/// An append-only, ordered sequence of timing samples of one engine.
pub struct ResultStore {
    label: String,
    samples: Vec<TimingSample>,
}

impl View for ResultStore {
    type V = Seq<TimingSample>;

    closed spec fn view(&self) -> Seq<TimingSample> {
        self.samples@
    }
}

impl ResultStore {
    /// The engine label that the store groups its samples under.
    pub closed spec fn label_spec(&self) -> Seq<char> {
        self.label@
    }

    /// An empty store for the engine `label`.
    pub fn new(label: String) -> (r: ResultStore)
        ensures
            r@ == Seq::<TimingSample>::empty(),
            r.label_spec() == label@,
    {
        ResultStore { label, samples: Vec::new() }
    }

    /// The engine label.
    pub fn label(&self) -> (r: &String)
        ensures
            r@ == self.label_spec(),
    {
        &self.label
    }

    /// Appends a sample.
    pub fn record(&mut self, sample: TimingSample)
        ensures
            final(self)@ == old(self)@.push(sample),
            final(self).label_spec() == old(self).label_spec(),
    {
        self.samples.push(sample);
    }

    /// The number of samples.
    pub fn len(&self) -> (r: usize)
        ensures
            r == self@.len(),
    {
        self.samples.len()
    }

    /// All samples, in the order recorded.
    pub fn samples(&self) -> (r: &Vec<TimingSample>)
        ensures
            r@ == self@,
    {
        &self.samples
    }

    /// The samples whose names begin with `prefix`, in the order recorded.
    pub fn by_prefix(&self, prefix: &str) -> (r: Vec<TimingSample>)
        ensures
            r@ == with_prefix(self@, prefix@),
    {
        let mut out: Vec<TimingSample> = Vec::new();
        let mut i: usize = 0;
        while i < self.samples.len()
            invariant
                i <= self@.len(),
                out@ == with_prefix(self@.subrange(0, i as int), prefix@),
            decreases self@.len() - i,
        {
            proof {
                assert(self@.subrange(0, i + 1).drop_last() == self@.subrange(0, i as int));
            }
            let sample = &self.samples[i];
            if starts_with(sample.name.as_str(), prefix) {
                out.push(sample.clone());
            }
            i = i + 1;
        }
        assert(self@.subrange(0, self@.len() as int) == self@);
        out
    }
}

} // verus!
