use dataflow_benchmarks::driver::{
    phase_name, record_outcome, run_incremental_phase, run_phase, run_single_phase, Phase,
};
use dataflow_benchmarks::engine::{DrainStats, EngineAdapter, EngineError, MockEngine};
use dataflow_benchmarks::store::{ResultStore, TimingSample};
use dataflow_benchmarks::workload::sequence;

fn submit(e: &mut MockEngine, batch: &Vec<usize>, epoch: u64) -> Result<(), EngineError> {
    <MockEngine as EngineAdapter>::submit(e, batch, epoch)
}

fn advance(e: &mut MockEngine, epoch: u64) -> Result<(), EngineError> {
    <MockEngine as EngineAdapter>::advance(e, epoch)
}

fn drain(e: &mut MockEngine, epoch: u64) -> Result<DrainStats, EngineError> {
    <MockEngine as EngineAdapter>::drain(e, epoch)
}

#[test]
fn drain_before_any_input_observes_nothing() {
    let mut e = MockEngine::new(1);
    assert_eq!(drain(&mut e, 3), Err(EngineError::Timeout));
    assert_eq!(drain(&mut e, 0), Ok(DrainStats { items: 0 }));
    assert_eq!(e.work(), 0);
}

#[test]
fn drain_of_an_unadvanced_epoch_times_out() {
    let mut e = MockEngine::new(1);
    submit(&mut e, &vec![1, 2, 3], 2).unwrap();
    advance(&mut e, 1).unwrap();
    assert_eq!(drain(&mut e, 2), Err(EngineError::Timeout));
    assert_eq!(drain(&mut e, 1), Ok(DrainStats { items: 0 }));
    advance(&mut e, 2).unwrap();
    assert_eq!(drain(&mut e, 2), Ok(DrainStats { items: 3 }));
}

#[test]
fn second_drain_of_a_settled_epoch_is_empty() {
    let mut e = MockEngine::new(3);
    submit(&mut e, &vec![7; 10], 1).unwrap();
    advance(&mut e, 1).unwrap();
    assert_eq!(drain(&mut e, 1), Ok(DrainStats { items: 10 }));
    assert_eq!(drain(&mut e, 1), Ok(DrainStats { items: 0 }));
    assert_eq!(e.work(), 30);
}

#[test]
fn going_back_in_epochs_is_a_violation() {
    let mut e = MockEngine::new(1);
    advance(&mut e, 5).unwrap();
    assert_eq!(e.current_epoch(), 5);
    assert_eq!(submit(&mut e, &vec![1], 4), Err(EngineError::EpochOrderViolation));
    assert_eq!(advance(&mut e, 4), Err(EngineError::EpochOrderViolation));
    assert_eq!(submit(&mut e, &vec![1], 5), Ok(()));
    assert_eq!(advance(&mut e, 5), Ok(()));
}

#[test]
fn single_and_incremental_phases() {
    let mut e = MockEngine::new(2);
    let batch = sequence(1000);
    assert_eq!(run_single_phase(&mut e, &batch), Ok(DrainStats { items: 1000 }));
    assert_eq!(e.work(), 2000);
    let delta = sequence(10);
    assert_eq!(run_incremental_phase(&mut e, &delta), Ok(DrainStats { items: 10 }));
    assert_eq!(e.work(), 2020);
    assert_eq!(run_single_phase(&mut e, &batch), Err(EngineError::EpochOrderViolation));
    assert_eq!(run_phase(&mut e, &delta, 7), Ok(DrainStats { items: 10 }));
}

#[test]
fn phase_names() {
    assert_eq!(phase_name("timely/join", Phase::Initial), "timely/join/initial");
    assert_eq!(phase_name("timely/join", Phase::Incremental), "timely/join/incremental");
}

#[test]
fn outcomes_become_samples() {
    let mut store = ResultStore::new("timely".to_string());
    assert_eq!(
        record_outcome(&mut store, "timely/a".to_string(), Ok(DrainStats { items: 5 }), 100),
        Ok(())
    );
    assert_eq!(
        record_outcome(&mut store, "timely/b".to_string(), Err(EngineError::Timeout), 900),
        Ok(())
    );
    assert_eq!(
        record_outcome(&mut store, "timely/c".to_string(), Err(EngineError::BackendPanicked), 1),
        Ok(())
    );
    assert_eq!(
        record_outcome(&mut store, "timely/d".to_string(), Err(EngineError::EpochOrderViolation), 1),
        Err(EngineError::EpochOrderViolation)
    );
    let samples = store.samples();
    assert_eq!(samples.len(), 3);
    assert_eq!(samples[0].items_processed, 5);
    assert_eq!(samples[0].failure, None);
    assert_eq!(samples[1].failure, Some(EngineError::Timeout));
    assert_eq!(samples[1].throughput_per_sec(), None);
    assert_eq!(samples[2].failure, Some(EngineError::BackendPanicked));
    assert_eq!(store.label(), "timely");
}

#[test]
fn throughput_of_a_sample() {
    let s = TimingSample::new("x".to_string(), 2_000_000_000, 1000);
    assert_eq!(s.throughput_per_sec(), Some(500));
    let z = TimingSample::new("x".to_string(), 0, 1000);
    assert_eq!(z.throughput_per_sec(), None);
}

#[test]
fn store_filters_by_prefix_in_order() {
    let mut store = ResultStore::new("timely".to_string());
    store.record(TimingSample::new("timely/join/1000".to_string(), 10, 1));
    store.record(TimingSample::new("timely/count/1000".to_string(), 20, 2));
    store.record(TimingSample::new("timely/join/5000".to_string(), 30, 3));
    let joins = store.by_prefix("timely/join");
    assert_eq!(joins.len(), 2);
    assert_eq!(joins[0].name, "timely/join/1000");
    assert_eq!(joins[1].name, "timely/join/5000");
    let again = store.by_prefix("timely/join");
    assert_eq!(again.len(), 2);
    assert_eq!(again[1].elapsed_nanos, 30);
    assert_eq!(store.by_prefix("").len(), 3);
    assert_eq!(store.by_prefix("differential").len(), 0);
    assert_eq!(store.len(), 3);
}

#[test]
fn a_fresh_engine_reports_no_order_violation_for_a_trial() {
    let mut e = MockEngine::new(4);
    assert_eq!(run_single_phase(&mut e, &vec![1, 2]), Ok(DrainStats { items: 2 }));
    assert_eq!(e.work(), 8);
}
