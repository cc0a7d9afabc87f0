//! The epoch protocol that every engine under test follows, and a reference
//! in-memory engine that implements it.
//!
//! An engine accepts batches tagged with an epoch (`submit`), is told that no
//! input below an epoch will come any more (`advance`), and is waited on until
//! the output of an epoch and of all earlier ones is produced (`drain`).
use vstd::prelude::*;

verus! {

/// A failure reported by an engine.
#[derive(Debug, Clone, Copy, PartialEq, Eq, Structural)]
pub enum EngineError {
    /// The backend failed while running.
    BackendPanicked,
    /// An input or an advance arrived for an epoch below the engine's frontier.
    EpochOrderViolation,
    /// The engine did not settle within its bound.
    Timeout,
}

/// What a drain observed.
#[derive(Debug, Clone, Copy, PartialEq, Eq, Structural)]
pub struct DrainStats {
    /// The number of output items newly observed.
    pub items: u64,
}

/// The capability that each benchmarked backend offers to the driver.
///
/// `frontier` is the last epoch the engine was advanced to; `owed(e)` counts
/// the items submitted at epochs up to `e` that no drain has observed yet.
pub trait EngineAdapter {
    /// The type of the items fed to the engine.
    type Item;

    spec fn frontier(&self) -> u64;

    spec fn owed(&self, epoch: u64) -> nat;

    /// Hands over a batch whose items become visible at `epoch`.
    fn submit(&mut self, batch: &Vec<Self::Item>, epoch: u64) -> (r: Result<(), EngineError>)
        ensures
            epoch < old(self).frontier() <==> r == Err::<(), EngineError>(
                EngineError::EpochOrderViolation,
            ),
            r is Ok ==> final(self).frontier() == old(self).frontier() && forall|e: u64|
                #[trigger] final(self).owed(e) == old(self).owed(e) + if epoch <= e {
                    batch@.len() as int
                } else {
                    0
                },
    ;

    /// Declares that no further input arrives below `epoch`.
    fn advance(&mut self, epoch: u64) -> (r: Result<(), EngineError>)
        ensures
            epoch < old(self).frontier() <==> r == Err::<(), EngineError>(
                EngineError::EpochOrderViolation,
            ),
            r is Ok ==> final(self).frontier() == epoch && forall|e: u64|
                #[trigger] final(self).owed(e) == old(self).owed(e),
    ;

    /// Waits until the output of `epoch` and of all earlier epochs is
    /// produced, and returns how many items were newly observed.
    fn drain(&mut self, epoch: u64) -> (r: Result<DrainStats, EngineError>)
        ensures
            r != Err::<DrainStats, EngineError>(EngineError::EpochOrderViolation),
            r matches Ok(s) ==> s.items == old(self).owed(epoch) && final(self).frontier()
                == old(self).frontier() && forall|e: u64|
                #[trigger] final(self).owed(e) == old(self).owed(e) - old(self).owed(
                    if e <= epoch {
                        e
                    } else {
                        epoch
                    },
                ),
    ;
}

/// The items in `pending` (pairs of epoch and item count) at epochs up to `epoch`.
pub open spec fn owed_in(pending: Seq<(u64, u64)>, epoch: u64) -> nat
    decreases pending.len(),
{
    if pending.len() == 0 {
        0
    } else {
        owed_in(pending.drop_last(), epoch) + if pending.last().0 <= epoch {
            pending.last().1 as nat
        } else {
            0
        }
    }
}

/// The entries of `pending` at epochs above `epoch`, in order.
pub open spec fn retained(pending: Seq<(u64, u64)>, epoch: u64) -> Seq<(u64, u64)>
    decreases pending.len(),
{
    if pending.len() == 0 {
        pending
    } else if pending.last().0 <= epoch {
        retained(pending.drop_last(), epoch)
    } else {
        retained(pending.drop_last(), epoch).push(pending.last())
    }
}

/// The state of the reference engine.
pub struct MockState {
    /// Work units charged per drained item.
    pub cost_factor: u64,
    /// The last epoch advanced to.
    pub frontier: u64,
    /// Submitted batches not yet drained, as (epoch, item count).
    pub pending: Seq<(u64, u64)>,
    /// The work units spent so far.
    pub work: u64,
}

/// The reference engine's answer to `submit` of `count` items at `epoch`.
pub open spec fn submit_step(s: MockState, count: nat, epoch: u64) -> (MockState, Result<
    (),
    EngineError,
>) {
    if epoch < s.frontier {
        (s, Err(EngineError::EpochOrderViolation))
    } else {
        (MockState { pending: s.pending.push((epoch, count as u64)), ..s }, Ok(()))
    }
}

/// The reference engine's answer to `advance(epoch)`.
pub open spec fn advance_step(s: MockState, epoch: u64) -> (MockState, Result<(), EngineError>) {
    if epoch < s.frontier {
        (s, Err(EngineError::EpochOrderViolation))
    } else {
        (MockState { frontier: epoch, ..s }, Ok(()))
    }
}

/// `a`, or `u64::MAX` where `a` is larger.
pub open spec fn saturating(a: int) -> u64 {
    if a > u64::MAX {
        u64::MAX
    } else {
        a as u64
    }
}

/// The reference engine's answer to `drain(epoch)`: an epoch above the
/// frontier never settles, so the wait ends in a timeout; a count of items
/// that does not fit in a `u64` is a backend failure; otherwise every
/// pending item up to `epoch` is observed, at `cost_factor` work units each.
pub open spec fn drain_step(s: MockState, epoch: u64) -> (MockState, Result<
    DrainStats,
    EngineError,
>) {
    if epoch > s.frontier {
        (s, Err(EngineError::Timeout))
    } else if owed_in(s.pending, epoch) > u64::MAX {
        (s, Err(EngineError::BackendPanicked))
    } else {
        let items = owed_in(s.pending, epoch);
        (
            MockState {
                pending: retained(s.pending, epoch),
                work: saturating(s.work + saturating(s.cost_factor * items)),
                ..s
            },
            Ok(DrainStats { items: items as u64 }),
        )
    }
}

proof fn lemma_owed_monotone(pending: Seq<(u64, u64)>, e1: u64, e2: u64)
    requires
        e1 <= e2,
    ensures
        owed_in(pending, e1) <= owed_in(pending, e2),
    decreases pending.len(),
{
    if pending.len() > 0 {
        lemma_owed_monotone(pending.drop_last(), e1, e2);
    }
}

proof fn lemma_retained_owed(pending: Seq<(u64, u64)>, epoch: u64, e: u64)
    ensures
        owed_in(retained(pending, epoch), e) == owed_in(pending, e) - owed_in(
            pending,
            if e <= epoch {
                e
            } else {
                epoch
            },
        ),
    decreases pending.len(),
{
    if pending.len() > 0 {
        lemma_retained_owed(pending.drop_last(), epoch, e);
        let m = if e <= epoch {
            e
        } else {
            epoch
        };
        lemma_owed_monotone(pending.drop_last(), m, e);
        let r = retained(pending.drop_last(), epoch);
        if pending.last().0 > epoch {
            assert(retained(pending, epoch).drop_last() == r);
        }
    }
}

/// A drain of an epoch at which nothing that is still owed was ever
/// submitted observes no item: it times out or reports zero items.
pub proof fn drain_without_input(s: MockState, epoch: u64)
    requires
        owed_in(s.pending, epoch) == 0,
    ensures
        drain_step(s, epoch).1 == Err::<DrainStats, EngineError>(EngineError::Timeout)
            || drain_step(s, epoch).1 == Ok::<DrainStats, EngineError>(DrainStats { items: 0 }),
{
}

/// A call on the reference engine.
pub enum Call {
    /// A batch of `count` items at `epoch`.
    Submit { count: nat, epoch: u64 },
    /// An advance to `epoch`.
    Advance { epoch: u64 },
    /// A drain of `epoch`.
    Drain { epoch: u64 },
}

/// The state after `call`.
pub open spec fn after(s: MockState, call: Call) -> MockState {
    match call {
        Call::Submit { count, epoch } => submit_step(s, count, epoch).0,
        Call::Advance { epoch } => advance_step(s, epoch).0,
        Call::Drain { epoch } => drain_step(s, epoch).0,
    }
}

/// The state after `calls`, in order.
pub open spec fn run(s: MockState, calls: Seq<Call>) -> MockState
    decreases calls.len(),
{
    if calls.len() == 0 {
        s
    } else {
        after(run(s, calls.drop_last()), calls.last())
    }
}

/// The items that the drains among `calls` observe.
pub open spec fn drained(s: MockState, calls: Seq<Call>) -> nat
    decreases calls.len(),
{
    if calls.len() == 0 {
        0
    } else {
        let before = run(s, calls.drop_last());
        drained(s, calls.drop_last()) + match calls.last() {
            Call::Drain { epoch } => match drain_step(before, epoch).1 {
                Ok(d) => d.items as nat,
                Err(_) => 0,
            },
            _ => 0,
        }
    }
}

/// The items handed to the submits among `calls`.
pub open spec fn submitted(calls: Seq<Call>) -> nat
    decreases calls.len(),
{
    if calls.len() == 0 {
        0
    } else {
        submitted(calls.drop_last()) + match calls.last() {
            Call::Submit { count, epoch } => count,
            _ => 0,
        }
    }
}

proof fn lemma_drained_balance(s: MockState, calls: Seq<Call>)
    ensures
        drained(s, calls) + owed_in(run(s, calls).pending, u64::MAX) <= owed_in(
            s.pending,
            u64::MAX,
        ) + submitted(calls),
    decreases calls.len(),
{
    if calls.len() > 0 {
        let rest = calls.drop_last();
        lemma_drained_balance(s, rest);
        let before = run(s, rest);
        match calls.last() {
            Call::Submit { count, epoch } => {
                if epoch >= before.frontier {
                    assert(before.pending.push((epoch, count as u64)).drop_last() == before.pending);
                }
            },
            Call::Advance { epoch } => {},
            Call::Drain { epoch } => {
                lemma_retained_owed(before.pending, epoch, u64::MAX);
                lemma_owed_monotone(before.pending, epoch, u64::MAX);
            },
        }
    }
}

/// Over any sequence of calls on a fresh engine, the drains observe no more
/// items than the submits handed over: no drain reports an item that the
/// engine was never given.
pub proof fn drains_observe_only_submitted_items(cost_factor: u64, calls: Seq<Call>)
    ensures
        drained(fresh(cost_factor), calls) <= submitted(calls),
{
    lemma_drained_balance(fresh(cost_factor), calls);
}

/// A fresh reference engine with the given cost factor.
pub open spec fn fresh(cost_factor: u64) -> MockState {
    MockState { cost_factor, frontier: 0, pending: Seq::empty(), work: 0 }
}

/// A single-phase trial of `count` items on a fresh engine (submit at epoch
/// 1, advance to 1, drain 1) observes exactly those items and spends
/// `cost_factor` work units on each, so engines that differ only in their
/// cost factor report times in the ratio of their factors.
pub proof fn single_phase_on_fresh_engine(cost_factor: u64, count: nat)
    requires
        count <= u64::MAX,
    ensures
        ({
            let submitted = submit_step(fresh(cost_factor), count, 1);
            let advanced = advance_step(submitted.0, 1);
            let drained = drain_step(advanced.0, 1);
            &&& submitted.1 is Ok
            &&& advanced.1 is Ok
            &&& drained.1 == Ok::<DrainStats, EngineError>(DrainStats { items: count as u64 })
            &&& drained.0.work == saturating(cost_factor * count)
            &&& drained.0.pending.len() == 0
        }),
{
    let p = Seq::<(u64, u64)>::empty().push((1u64, count as u64));
    let e = Seq::<(u64, u64)>::empty();
    assert(p.drop_last() == e);
    assert(p.last() == (1u64, count as u64));
    assert(retained(e, 1) == e);
    assert(owed_in(e, 1) == 0);
    assert(retained(p, 1) == retained(e, 1));
    assert(owed_in(p, 1) == count);
}

/// Draining an epoch that a drain has just settled observes zero items and
/// leaves the pending input as it is.
pub proof fn drain_idempotent(s: MockState, epoch: u64)
    requires
        drain_step(s, epoch).1 is Ok,
    ensures
        drain_step(drain_step(s, epoch).0, epoch).1 == Ok::<DrainStats, EngineError>(
            DrainStats { items: 0 },
        ),
        drain_step(drain_step(s, epoch).0, epoch).0.pending == drain_step(s, epoch).0.pending,
{
    lemma_retained_owed(s.pending, epoch, epoch);
    lemma_retained_twice(s.pending, epoch);
}

proof fn lemma_retained_twice(pending: Seq<(u64, u64)>, epoch: u64)
    ensures
        retained(retained(pending, epoch), epoch) == retained(pending, epoch),
    decreases pending.len(),
{
    if pending.len() > 0 {
        lemma_retained_twice(pending.drop_last(), epoch);
        let r = retained(pending.drop_last(), epoch);
        if pending.last().0 > epoch {
            assert(r.push(pending.last()).drop_last() == r);
        }
    }
}

/// A reference engine that passes its input through unchanged and charges a
/// fixed number of work units per drained item, which stands for the time a
/// backend of that relative cost would spend.
pub struct MockEngine {
    cost_factor: u64,
    frontier: u64,
    pending: Vec<(u64, u64)>,
    work: u64,
}

impl MockEngine {
    /// The engine's state.
    pub closed spec fn state(&self) -> MockState {
        MockState {
            cost_factor: self.cost_factor,
            frontier: self.frontier,
            pending: self.pending@,
            work: self.work,
        }
    }

    /// A fresh engine at epoch 0 with nothing pending and no work done.
    pub fn new(cost_factor: u64) -> (r: MockEngine)
        ensures
            r.state() == fresh(cost_factor),
    {
        MockEngine { cost_factor, frontier: 0, pending: Vec::new(), work: 0 }
    }

    /// The work units spent so far.
    pub fn work(&self) -> (r: u64)
        ensures
            r == self.state().work,
    {
        self.work
    }

    /// The last epoch advanced to.
    pub fn current_epoch(&self) -> (r: u64)
        ensures
            r == self.state().frontier,
    {
        self.frontier
    }

    fn submit_count(&mut self, count: usize, epoch: u64) -> (r: Result<(), EngineError>)
        ensures
            (final(self).state(), r) == submit_step(old(self).state(), count as nat, epoch),
    {
        if epoch < self.frontier {
            return Err(EngineError::EpochOrderViolation);
        }
        self.pending.push((epoch, count as u64));
        Ok(())
    }

    fn advance_epoch(&mut self, epoch: u64) -> (r: Result<(), EngineError>)
        ensures
            (final(self).state(), r) == advance_step(old(self).state(), epoch),
    {
        if epoch < self.frontier {
            return Err(EngineError::EpochOrderViolation);
        }
        self.frontier = epoch;
        Ok(())
    }

    fn drain_epoch(&mut self, epoch: u64) -> (r: Result<DrainStats, EngineError>)
        ensures
            (final(self).state(), r) == drain_step(old(self).state(), epoch),
    {
        if epoch > self.frontier {
            return Err(EngineError::Timeout);
        }
        let ghost p = self.pending@;
        let mut kept: Vec<(u64, u64)> = Vec::new();
        let mut total: u128 = 0;
        let mut i: usize = 0;
        while i < self.pending.len()
            invariant
                p == self.pending@,
                i <= p.len(),
                total == owed_in(p.subrange(0, i as int), epoch),
                total <= i * u64::MAX,
                kept@ == retained(p.subrange(0, i as int), epoch),
            decreases p.len() - i,
        {
            let entry = self.pending[i];
            proof {
                assert(p.subrange(0, i + 1).drop_last() == p.subrange(0, i as int));
                assert((i + 1) * u64::MAX <= u128::MAX) by (nonlinear_arith)
                    requires
                        i < usize::MAX,
                ;
            }
            if entry.0 <= epoch {
                total = total + entry.1 as u128;
            } else {
                kept.push(entry);
            }
            i = i + 1;
        }
        proof {
            assert(p.subrange(0, p.len() as int) == p);
        }
        if total > u64::MAX as u128 {
            return Err(EngineError::BackendPanicked);
        }
        let items = total as u64;
        proof {
            assert(self.cost_factor * items <= u128::MAX) by (nonlinear_arith)
                requires
                    self.cost_factor <= u64::MAX,
                    items <= u64::MAX,
            ;
        }
        let product: u128 = (self.cost_factor as u128) * (items as u128);
        let cost: u64 = if product > u64::MAX as u128 {
            u64::MAX
        } else {
            product as u64
        };
        self.pending = kept;
        self.work = self.work.saturating_add(cost);
        Ok(DrainStats { items })
    }
}

impl EngineAdapter for MockEngine {
    type Item = usize;

    open spec fn frontier(&self) -> u64 {
        self.state().frontier
    }

    open spec fn owed(&self, epoch: u64) -> nat {
        owed_in(self.state().pending, epoch)
    }

    fn submit(&mut self, batch: &Vec<usize>, epoch: u64) -> (r: Result<(), EngineError>)
        ensures
            (final(self).state(), r) == submit_step(old(self).state(), batch@.len(), epoch),
    {
        let r = self.submit_count(batch.len(), epoch);
        proof {
            if r is Ok {
                assert(self.pending@.drop_last() == old(self).pending@);
            }
        }
        r
    }

    fn advance(&mut self, epoch: u64) -> (r: Result<(), EngineError>)
        ensures
            (final(self).state(), r) == advance_step(old(self).state(), epoch),
    {
        self.advance_epoch(epoch)
    }

    fn drain(&mut self, epoch: u64) -> (r: Result<DrainStats, EngineError>)
        ensures
            (final(self).state(), r) == drain_step(old(self).state(), epoch),
    {
        let r = self.drain_epoch(epoch);
        proof {
            if r is Ok {
                assert forall|e: u64|
                    #[trigger] owed_in(self.pending@, e) == owed_in(old(self).pending@, e)
                        - owed_in(
                        old(self).pending@,
                        if e <= epoch {
                            e
                        } else {
                            epoch
                        },
                    ) by {
                    lemma_retained_owed(old(self).pending@, epoch, e);
                }
            }
        }
        r
    }
}

} // verus!
