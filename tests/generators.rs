use dataflow_benchmarks::generators::{
    generate_data_with_duplicates, generate_join_data, generate_keyed_data, generate_random_data,
    generate_sequential_data, generate_updates,
};
use dataflow_benchmarks::helpers::{expected_distinct_count, expected_join_size};
use dataflow_benchmarks::utils::{consume, generate_ints, generate_join_pairs, NUM_INTS, NUM_JOIN_ELEMENTS, NUM_OPS};
use dataflow_benchmarks::workload::{keyed_pairs, sequence, WorkloadError};

#[test]
fn test_generate_ints() {
    let ints = generate_ints(100);
    assert_eq!(ints.len(), 100);
    assert_eq!(ints[0], 0);
    assert_eq!(ints[99], 99);
}

#[test]
fn test_generate_join_pairs() {
    let (lhs, rhs) = generate_join_pairs(100);
    assert_eq!(lhs.len(), 100);
    assert_eq!(rhs.len(), 100);
}

#[test]
fn join_pairs_hold_keys_labels_and_doubles() {
    let (lhs, rhs) = generate_join_pairs(100);
    assert_eq!(lhs[0], (0, "left_0".to_string()));
    assert_eq!(lhs[13], (3, "left_13".to_string()));
    assert_eq!(lhs[99], (9, "left_99".to_string()));
    assert_eq!(rhs[13], (3, 26));
    assert_eq!(rhs[99], (9, 198));
}

#[test]
fn test_generate_random_data() {
    let data = generate_random_data(100, 42);
    assert_eq!(data.len(), 100);
}

#[test]
fn lib_test_generate_random_data() {
    let data = generate_random_data(100, 42);
    assert_eq!(data.len(), 100);
    // Same seed should produce same data
    let data2 = generate_random_data(100, 42);
    assert_eq!(data, data2);
}

#[test]
fn random_data_is_drawn_not_copied() {
    let data = generate_random_data(100, 42);
    assert!(data.iter().any(|&x| x != 42 && x != 100 && x != 0));
    let other = generate_random_data(100, 43);
    assert_ne!(data, other);
}

#[test]
fn test_generate_join_data() {
    let data = generate_join_data(100, 10, 42);
    assert_eq!(data.len(), 100);
    assert!(data.iter().all(|(k, _)| *k < 10));
}

#[test]
fn test_generate_data_with_duplicates() {
    let data = generate_data_with_duplicates(10, 5);
    assert_eq!(data.len(), 50);
    // Check each value appears exactly 5 times
    for i in 0..10 {
        assert_eq!(data.iter().filter(|&&x| x == i).count(), 5);
    }
}

#[test]
fn duplicates_with_zero_factor_are_empty() {
    assert!(generate_data_with_duplicates(10, 0).is_empty());
    assert_eq!(generate_data_with_duplicates(2, 3), vec![0, 0, 0, 1, 1, 1]);
}

#[test]
fn test_generate_updates() {
    let (inserts, deletes) = generate_updates(100, 20, 42);
    assert_eq!(inserts.len(), 20);
    assert_eq!(deletes.len(), 20);
    assert!(deletes.iter().all(|&x| x < 100));
}

#[test]
fn updates_are_reproducible() {
    assert_eq!(generate_updates(100, 20, 42), generate_updates(100, 20, 42));
    let (inserts, _) = generate_updates(100, 20, 42);
    assert_eq!(inserts, generate_random_data(20, 42));
}

#[test]
fn test_expected_join_size() {
    assert_eq!(expected_join_size(1000, 1000, 10), 10000);
    assert_eq!(expected_join_size(100, 100, 10), 100);
}

#[test]
fn expected_join_size_rounds_per_key_counts_down() {
    assert_eq!(expected_join_size(15, 25, 10), 2);
    assert_eq!(expected_join_size(5, 100, 10), 0);
}

#[test]
fn test_expected_distinct_count() {
    assert_eq!(expected_distinct_count(100, 10), 10);
    assert_eq!(expected_distinct_count(100, 200), 100);
}

#[test]
fn test_generate_sequential_data() {
    let data = generate_sequential_data(10);
    assert_eq!(data, vec![0, 1, 2, 3, 4, 5, 6, 7, 8, 9]);
}

#[test]
fn test_generate_keyed_data() {
    let data = generate_keyed_data(100, 10, 42);
    assert_eq!(data.len(), 100);
    // Check all keys are within range
    assert!(data.iter().all(|(k, _)| *k < 10));
}

#[test]
fn keyed_data_matches_join_data() {
    assert_eq!(generate_keyed_data(50, 7, 9), generate_join_data(50, 7, 9));
    let data = generate_keyed_data(50, 7, 9);
    assert_eq!(data[15].0, 1);
}

#[test]
fn sequence_of_zero_is_empty() {
    assert!(sequence(0).is_empty());
    assert_eq!(sequence(3), vec![0, 1, 2]);
}

#[test]
fn keyed_pairs_hundred_over_ten_keys() {
    let pairs = keyed_pairs(100, 10).unwrap();
    assert_eq!(pairs.len(), 100);
    assert!(pairs.iter().all(|(k, _)| *k < 10));
    let mut distinct: Vec<usize> = pairs.iter().map(|(k, _)| *k).collect();
    distinct.sort();
    distinct.dedup();
    assert_eq!(distinct.len(), 10);
    for key in 0..10 {
        assert_eq!(pairs.iter().filter(|(k, _)| *k == key).count(), 10);
    }
    assert_eq!(pairs[37], (7, 37));
}

#[test]
fn keyed_pairs_refuse_zero_keys() {
    assert_eq!(keyed_pairs(10, 0), Err(WorkloadError::InvalidArgument));
    assert_eq!(keyed_pairs(0, 3), Ok(vec![]));
}

#[test]
fn consume_hands_the_value_back() {
    assert_eq!(consume(17u64), 17);
    assert_eq!(consume(NUM_OPS), 20);
    assert_eq!(NUM_INTS, 1_000_000);
    assert_eq!(NUM_JOIN_ELEMENTS, 100_000);
}

#[test]
fn zero_counts_give_empty_workloads() {
    let (lhs, rhs) = generate_join_pairs(0);
    assert!(lhs.is_empty() && rhs.is_empty());
    assert_eq!(generate_updates(0, 0, 42), (vec![], vec![]));
    assert!(generate_join_data(0, 0, 42).is_empty());
    assert!(generate_keyed_data(0, 0, 42).is_empty());
}

#[test]
fn updates_continue_one_generator() {
    let (inserts, deletes) = generate_updates(1000, 30, 5);
    assert_ne!(inserts.iter().map(|&x| x % 1000).collect::<Vec<_>>(), deletes);
    assert_eq!(generate_updates(1000, 30, 5).1, deletes);
}
