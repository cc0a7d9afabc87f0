//! The benchmark driver: one trial body per (workload, engine, phase), and
//! the policy that turns each phase's outcome into a timing sample.
use crate::engine::{DrainStats, EngineAdapter, EngineError};
use crate::store::{ResultStore, TimingSample};
use vstd::prelude::*;

verus! {

/// The epoch at which a trial's bulk load is fed.
pub const INITIAL_EPOCH: u64 = 1;

/// The epoch at which a multi-phase trial feeds its delta batch.
pub const INCREMENTAL_EPOCH: u64 = 2;

/// The phase of a trial that a sample measures.
#[derive(Debug, Clone, Copy, PartialEq, Eq, Structural)]
pub enum Phase {
    /// The bulk load of a workload.
    Initial,
    /// The delta batch applied after the bulk load.
    Incremental,
}

/// The suffix that names a phase's sample.
pub open spec fn phase_suffix(phase: Phase) -> Seq<char> {
    match phase {
        Phase::Initial => seq!['/', 'i', 'n', 'i', 't', 'i', 'a', 'l'],
        Phase::Incremental => seq!['/', 'i', 'n', 'c', 'r', 'e', 'm', 'e', 'n', 't', 'a', 'l'],
    }
}

/// The name of a phase's sample: `"<name>/initial"` or `"<name>/incremental"`.
pub fn phase_name(name: &str, phase: Phase) -> (r: String)
    ensures
        r@ == name@ + phase_suffix(phase),
{
    let mut s = String::from_str(name);
    match phase {
        Phase::Initial => {
            proof {
                reveal_strlit("/initial");
            }
            s.append("/initial");
        },
        Phase::Incremental => {
            proof {
                reveal_strlit("/incremental");
            }
            s.append("/incremental");
        },
    }
    assert(s@ =~= name@ + phase_suffix(phase));
    s
}

/// One phase of a trial: feeds `batch` at `epoch`, advances to `epoch` and
/// waits until the epoch has settled. It fails with an epoch-order
/// violation exactly when `epoch` lies below the engine's frontier; a
/// successful phase observes the new batch together with whatever was still
/// owed up to `epoch`.
pub fn run_phase<A: EngineAdapter>(engine: &mut A, batch: &Vec<A::Item>, epoch: u64) -> (r: Result<
    DrainStats,
    EngineError,
>)
    ensures
        r == Err::<DrainStats, EngineError>(EngineError::EpochOrderViolation) <==> epoch < old(
            engine,
        ).frontier(),
        r matches Ok(s) ==> s.items == old(engine).owed(epoch) + batch@.len() && final(engine).frontier() == epoch && final(engine).owed(epoch) == 0,
{
    match engine.submit(batch, epoch) {
        Ok(()) => {},
        Err(e) => {
            return Err(e);
        },
    }
    match engine.advance(epoch) {
        Ok(()) => {},
        Err(e) => {
            return Err(e);
        },
    }
    engine.drain(epoch)
}

/// The bulk-load phase of a trial, at the initial epoch.
pub fn run_single_phase<A: EngineAdapter>(engine: &mut A, batch: &Vec<A::Item>) -> (r: Result<
    DrainStats,
    EngineError,
>)
    ensures
        r == Err::<DrainStats, EngineError>(EngineError::EpochOrderViolation) <==> INITIAL_EPOCH < old(
            engine,
        ).frontier(),
        r matches Ok(s) ==> s.items == old(engine).owed(INITIAL_EPOCH) + batch@.len() && final(engine).frontier() == INITIAL_EPOCH && final(engine).owed(INITIAL_EPOCH) == 0,
{
    run_phase(engine, batch, INITIAL_EPOCH)
}

/// The delta phase of a multi-phase trial, at the incremental epoch.
pub fn run_incremental_phase<A: EngineAdapter>(engine: &mut A, delta: &Vec<A::Item>) -> (r: Result<
    DrainStats,
    EngineError,
>)
    ensures
        r == Err::<DrainStats, EngineError>(EngineError::EpochOrderViolation) <==> INCREMENTAL_EPOCH < old(
            engine,
        ).frontier(),
        r matches Ok(s) ==> s.items == old(engine).owed(INCREMENTAL_EPOCH) + delta@.len()
            && final(engine).frontier() == INCREMENTAL_EPOCH && final(engine).owed(
            INCREMENTAL_EPOCH,
        ) == 0,
{
    run_phase(engine, delta, INCREMENTAL_EPOCH)
}

/// Records a phase's outcome under `name`. A success becomes a sample of the
/// observed items; a timeout or a backend failure becomes a failed sample and
/// the run goes on; an epoch-order violation is a defect of the harness: it
/// is handed back and nothing is recorded.
pub fn record_outcome(
    store: &mut ResultStore,
    name: String,
    outcome: Result<DrainStats, EngineError>,
    elapsed_nanos: u64,
) -> (r: Result<(), EngineError>)
    ensures
        final(store).label_spec() == old(store).label_spec(),
        outcome == Err::<DrainStats, EngineError>(EngineError::EpochOrderViolation) ==> r == Err::<
            (),
            EngineError,
        >(EngineError::EpochOrderViolation) && final(store)@ == old(store)@,
        outcome matches Ok(s) ==> r is Ok && final(store)@ == old(store)@.push(
            TimingSample { name, elapsed_nanos, items_processed: s.items, failure: None },
        ),
        outcome matches Err(e) ==> (e != EngineError::EpochOrderViolation ==> r is Ok && final(store)@ == old(store)@.push(
            TimingSample { name, elapsed_nanos, items_processed: 0, failure: Some(e) },
        )),
{
    match outcome {
        Ok(s) => {
            store.record(TimingSample::new(name, elapsed_nanos, s.items));
            Ok(())
        },
        Err(EngineError::EpochOrderViolation) => Err(EngineError::EpochOrderViolation),
        Err(e) => {
            store.record(TimingSample::failed(name, elapsed_nanos, e));
            Ok(())
        },
    }
}

} // verus!
