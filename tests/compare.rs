use dataflow_benchmarks::compare::{compare, CompareConfig, Note, Ratio};
use dataflow_benchmarks::driver::{phase_name, record_outcome, run_single_phase, Phase};
use dataflow_benchmarks::engine::MockEngine;
use dataflow_benchmarks::metrics::BenchmarkResult;
use dataflow_benchmarks::store::{ResultStore, TimingSample};
use dataflow_benchmarks::workload::{Workload, WorkloadData};

fn store(label: &str, samples: &[(&str, u64)]) -> ResultStore {
    let mut s = ResultStore::new(label.to_string());
    for (name, value) in samples {
        s.record(TimingSample::new(name.to_string(), *value, 1));
    }
    s
}

fn as_f64(r: Ratio) -> f64 {
    r.num as f64 / r.den as f64
}

#[test]
fn twenty_percent_slower_is_flagged() {
    let baseline = store("timely", &[("timely/a", 100)]);
    let candidate = store("differential", &[("differential/a", 120)]);
    let report = compare(&baseline, &candidate, &CompareConfig::default());
    assert_eq!(report.rows.len(), 1);
    let row = &report.rows[0];
    assert_eq!(row.benchmark, "a");
    assert_eq!(row.speedup, Some(Ratio { num: 120, den: 100 }));
    assert_eq!(as_f64(row.speedup.unwrap()), 1.2);
    assert_eq!(row.notes, vec![Note::CandidateSlower]);
    assert_eq!(row.notes[0].text(), "candidate significantly slower");
}

#[test]
fn slower_band_includes_its_edge_and_faster_band_does_not() {
    let baseline = store("t", &[("t/edge", 100), ("t/faster", 100), ("t/ok", 100), ("t/near", 100)]);
    let candidate = store("d", &[("d/edge", 80), ("d/faster", 79), ("d/ok", 100), ("d/near", 119)]);
    let report = compare(&baseline, &candidate, &CompareConfig::default());
    let names: Vec<&str> = report.rows.iter().map(|r| r.benchmark.as_str()).collect();
    assert_eq!(names, vec!["edge", "faster", "near", "ok"]);
    assert!(report.rows[0].notes.is_empty());
    assert_eq!(report.rows[1].notes, vec![Note::CandidateFaster]);
    assert!(report.rows[2].notes.is_empty());
    assert!(report.rows[3].notes.is_empty());
    assert_eq!(as_f64(report.rows[3].speedup.unwrap()), 1.0);
    let summary = report.summary.unwrap();
    assert_eq!(summary.compared, vec![0, 1, 2, 3]);
    assert_eq!(summary.fastest, 1);
    assert_eq!(summary.slowest, 2);
}

#[test]
fn custom_threshold() {
    let cfg = CompareConfig::with_threshold(3, 2);
    assert_eq!(cfg.faster_at, Ratio { num: 2, den: 3 });
    let baseline = store("t", &[("t/a", 100)]);
    let candidate = store("d", &[("d/a", 140)]);
    let report = compare(&baseline, &candidate, &cfg);
    assert!(report.rows[0].notes.is_empty());
}

#[test]
fn disjoint_stores_have_one_sided_rows_and_no_summary() {
    let baseline = store("timely", &[("timely/join/1000", 1234), ("timely/join/5000", 6789)]);
    let candidate = store("differential", &[("differential/count/1000", 500)]);
    let report = compare(&baseline, &candidate, &CompareConfig::default());
    assert_eq!(report.rows.len(), 3);
    for row in &report.rows {
        assert!(row.baseline_value.is_some() != row.candidate_value.is_some());
        assert!(row.speedup.is_none());
        if row.baseline_value.is_none() {
            assert_eq!(row.notes, vec![Note::MissingBaseline]);
        } else {
            assert_eq!(row.notes, vec![Note::MissingCandidate]);
        }
    }
    assert_eq!(report.rows[0].benchmark, "count/1000");
    assert!(report.summary.is_none());
}

#[test]
fn average_covers_only_rows_with_both_values() {
    let baseline = store("t", &[("t/a", 100), ("t/b", 100), ("t/only", 5)]);
    let candidate = store("d", &[("d/a", 200), ("d/b", 100), ("d/other", 7)]);
    let report = compare(&baseline, &candidate, &CompareConfig::default());
    let summary = report.summary.unwrap();
    assert_eq!(summary.compared, vec![0, 1]);
    let mean: f64 = summary
        .compared
        .iter()
        .map(|&k| as_f64(report.rows[k].speedup.unwrap()))
        .sum::<f64>()
        / summary.compared.len() as f64;
    assert_eq!(mean, 1.5);
    assert_eq!(summary.fastest, 1);
    assert_eq!(summary.slowest, 0);
}

#[test]
fn empty_stores_give_an_empty_report() {
    let report = compare(&store("t", &[]), &store("d", &[]), &CompareConfig::default());
    assert!(report.rows.is_empty());
    assert!(report.summary.is_none());
}

#[test]
fn failed_and_zero_samples_are_annotated() {
    let mut baseline = store("t", &[("t/zero", 0)]);
    baseline.record(TimingSample::failed(
        "t/broken".to_string(),
        5,
        dataflow_benchmarks::engine::EngineError::Timeout,
    ));
    let candidate = store("d", &[("d/zero", 10), ("d/broken", 10)]);
    let report = compare(&baseline, &candidate, &CompareConfig::default());
    assert_eq!(report.rows.len(), 2);
    assert_eq!(report.rows[0].benchmark, "broken");
    assert_eq!(report.rows[0].baseline_value, None);
    assert_eq!(report.rows[0].notes, vec![Note::MissingBaseline]);
    assert_eq!(report.rows[1].notes, vec![Note::ZeroBaseline]);
    assert_eq!(report.rows[1].speedup, None);
    assert!(report.summary.is_none());
    assert_eq!(Note::MissingCandidate.text(), "missing candidate result");
}

#[test]
fn first_sample_of_a_name_wins_and_unlabelled_names_stay_whole() {
    let baseline = store("t", &[("t/a", 10), ("t/a", 99), ("plain", 4)]);
    let candidate = store("d", &[("d/a", 10), ("plain", 8)]);
    let report = compare(&baseline, &candidate, &CompareConfig::default());
    assert_eq!(report.rows.len(), 2);
    assert_eq!(report.rows[0].benchmark, "a");
    assert_eq!(report.rows[0].baseline_value, Some(10));
    assert_eq!(report.rows[1].benchmark, "plain");
    assert_eq!(report.rows[1].speedup, Some(Ratio { num: 8, den: 4 }));
}

#[test]
fn end_to_end_two_mock_engines() {
    let workload = match (Workload::Sequence { count: 1000 }).generate() {
        Ok(WorkloadData::Items(v)) => v,
        _ => panic!("a sequence workload yields items"),
    };
    let mut stores = Vec::new();
    for (label, factor) in [("a", 1u64), ("b", 2u64)] {
        let mut engine = MockEngine::new(factor);
        let outcome = run_single_phase(&mut engine, &workload);
        let mut s = ResultStore::new(label.to_string());
        let name = phase_name(&format!("{}/sequence/1000", label), Phase::Initial);
        record_outcome(&mut s, name, outcome, engine.work()).unwrap();
        stores.push(s);
    }
    let report = compare(&stores[0], &stores[1], &CompareConfig::default());
    assert_eq!(report.rows.len(), 1);
    assert_eq!(report.rows[0].benchmark, "sequence/1000/initial");
    let speedup = as_f64(report.rows[0].speedup.unwrap());
    assert!((speedup - 2.0).abs() < 1e-9);
    assert_eq!(report.rows[0].notes, vec![Note::CandidateSlower]);
}

#[test]
fn benchmark_result_throughput_and_speedup() {
    let base = BenchmarkResult::new("timely".to_string(), "join".to_string(), 4_000, 1000);
    let fast = BenchmarkResult::new("hydro".to_string(), "join".to_string(), 1_000, 1000);
    assert_eq!(fast.throughput_eps(), Some(1_000_000_000));
    assert_eq!(fast.speedup_over(&base), Some(Ratio { num: 1000, den: 4000 }));
    assert_eq!(base.speedup_over(&fast), Some(Ratio { num: 4000, den: 1000 }));
    let zero = BenchmarkResult::new("x".to_string(), "y".to_string(), 0, 1);
    assert_eq!(zero.throughput_eps(), None);
    assert_eq!(zero.speedup_over(&base), Some(Ratio { num: 0, den: 4000 }));
    assert_eq!(base.speedup_over(&zero), None);
}
