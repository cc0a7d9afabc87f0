//! Orchestration layer of a cross-engine dataflow benchmarking harness.
//!
//! - workload generation: `utils`, `generators`, `workload`, `graph`, with
//!   seeded draws in `random` and expected result sizes in `helpers`;
//! - the epoch-driven submit / advance / drain protocol that every engine
//!   follows, with a reference engine: `engine`;
//! - running trials and recording their outcomes: `driver`, `store`,
//!   `metrics`, `analysis`;
//! - comparing a candidate store with a baseline store: `compare`, on names
//!   handled by `text`.
pub mod analysis;
pub mod compare;
pub mod driver;
pub mod engine;
pub mod generators;
pub mod graph;
pub mod helpers;
pub mod metrics;
pub mod random;
pub mod store;
pub mod text;
pub mod utils;
pub mod workload;
