use dataflow_benchmarks::analysis::analyze;
use dataflow_benchmarks::engine::EngineError;
use dataflow_benchmarks::store::TimingSample;
use dataflow_benchmarks::workload::{Topology, Workload, WorkloadData, WorkloadError};

fn edges(w: Workload) -> Vec<(u32, u32)> {
    match w.generate() {
        Ok(WorkloadData::Edges(v)) => v,
        _ => panic!("expected edges"),
    }
}

#[test]
fn sequence_workload() {
    match (Workload::Sequence { count: 4 }).generate() {
        Ok(WorkloadData::Items(v)) => assert_eq!(v, vec![0, 1, 2, 3]),
        _ => panic!("expected items"),
    }
}

#[test]
fn keyed_workload_and_its_error() {
    match (Workload::KeyedPairs { count: 5, key_cardinality: 2 }).generate() {
        Ok(WorkloadData::Pairs(v)) => assert_eq!(v, vec![(0, 0), (1, 1), (0, 2), (1, 3), (0, 4)]),
        _ => panic!("expected pairs"),
    }
    assert!(matches!(
        (Workload::KeyedPairs { count: 5, key_cardinality: 0 }).generate(),
        Err(WorkloadError::InvalidArgument)
    ));
}

#[test]
fn graph_workloads() {
    assert_eq!(edges(Workload::Graph { topology: Topology::Chain, node_count: 3 }), vec![(0, 1), (1, 2)]);
    assert_eq!(edges(Workload::Graph { topology: Topology::Complete, node_count: 3 }).len(), 6);
    assert_eq!(
        edges(Workload::Graph { topology: Topology::Tree { depth: 1, branching: 3 }, node_count: 0 }),
        vec![(0, 1), (0, 2), (0, 3)]
    );
    let random = Workload::Graph { topology: Topology::Random { edge_count: 20, seed: 3 }, node_count: 9 };
    assert_eq!(edges(random), edges(random));
    assert!(matches!(
        (Workload::Graph { topology: Topology::Chain, node_count: 0 }).generate(),
        Err(WorkloadError::InvalidArgument)
    ));
    assert!(matches!(
        (Workload::Graph { topology: Topology::Random { edge_count: 2, seed: 1 }, node_count: 0 }).generate(),
        Err(WorkloadError::InvalidArgument)
    ));
}

#[test]
fn analysis_of_a_store() {
    let samples = vec![
        TimingSample::new("t/a".to_string(), 30, 1),
        TimingSample::failed("t/x".to_string(), 1, EngineError::Timeout),
        TimingSample::new("t/b".to_string(), 10, 1),
        TimingSample::new("t/c".to_string(), 30, 1),
        TimingSample::new("t/d".to_string(), 11, 1),
    ];
    let s = analyze(&samples).unwrap();
    assert_eq!(s.analyzed, 4);
    assert_eq!(s.mean_elapsed_nanos, 20);
    assert_eq!(s.fastest, 2);
    assert_eq!(s.slowest, 0);
}

#[test]
fn analysis_without_successful_samples() {
    assert!(analyze(&vec![]).is_none());
    let failed = vec![TimingSample::failed("t/x".to_string(), 5, EngineError::BackendPanicked)];
    assert!(analyze(&failed).is_none());
}
