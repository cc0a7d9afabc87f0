use dataflow_benchmarks::graph::{chain_graph, complete_graph, random_graph, tree_graph};
use dataflow_benchmarks::workload::WorkloadError;

#[test]
fn chain_of_five_nodes() {
    let edges = chain_graph(5).unwrap();
    assert_eq!(edges, vec![(0, 1), (1, 2), (2, 3), (3, 4)]);
}

#[test]
fn chain_of_one_node_has_no_edges() {
    assert_eq!(chain_graph(1), Ok(vec![]));
}

#[test]
fn empty_chain_is_refused() {
    assert_eq!(chain_graph(0), Err(WorkloadError::InvalidArgument));
}

#[test]
fn complete_graph_on_four_nodes() {
    let edges = complete_graph(4);
    assert_eq!(edges.len(), 12);
    assert!(edges.iter().all(|(a, b)| a != b));
    assert_eq!(&edges[0..3], &[(0, 1), (0, 2), (0, 3)]);
    assert_eq!(&edges[3..6], &[(1, 0), (1, 2), (1, 3)]);
    for i in 0..4u32 {
        for j in 0..4u32 {
            if i != j {
                assert!(edges.contains(&(i, j)));
            }
        }
    }
}

#[test]
fn complete_graph_edge_cases() {
    assert!(complete_graph(0).is_empty());
    assert!(complete_graph(1).is_empty());
    assert_eq!(complete_graph(2), vec![(0, 1), (1, 0)]);
}

#[test]
fn random_graph_is_reproducible() {
    let first = random_graph(50, 200, 7);
    let second = random_graph(50, 200, 7);
    assert_eq!(first, second);
    assert_eq!(first.len(), 200);
    assert!(first.iter().all(|&(a, b)| a < 50 && b < 50));
}

#[test]
fn random_graph_depends_on_the_seed() {
    assert_ne!(random_graph(1000, 50, 1), random_graph(1000, 50, 2));
    let edges = random_graph(1000, 50, 1);
    assert!(edges.iter().any(|&(a, b)| a != b));
}

#[test]
fn random_graph_on_one_node_is_all_self_loops() {
    assert_eq!(random_graph(1, 3, 5), vec![(0, 0), (0, 0), (0, 0)]);
    assert!(random_graph(10, 0, 5).is_empty());
}

#[test]
fn binary_tree_of_depth_two() {
    let edges = tree_graph(2, 2);
    assert_eq!(edges, vec![(0, 1), (1, 2), (1, 3), (0, 4), (4, 5), (4, 6)]);
}

#[test]
fn tree_edge_count_follows_the_geometric_sum() {
    for depth in 0..5usize {
        for b in 2..5usize {
            let edges = tree_graph(depth, b);
            let expected = (b.pow(depth as u32 + 1) - b) / (b - 1);
            assert_eq!(edges.len(), expected);
            for (i, e) in edges.iter().enumerate() {
                assert_eq!(e.1 as usize, i + 1);
                assert!(e.0 < e.1);
            }
        }
    }
}

#[test]
fn degenerate_trees() {
    assert!(tree_graph(0, 3).is_empty());
    assert!(tree_graph(3, 0).is_empty());
    assert_eq!(tree_graph(3, 1), vec![(0, 1), (1, 2), (2, 3)]);
}

#[test]
fn random_graph_without_edges_needs_no_nodes() {
    assert!(random_graph(0, 0, 1).is_empty());
}
