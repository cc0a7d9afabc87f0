//! The workload shapes that every engine is fed: sequences and keyed pairs.
use crate::graph::{
    chain_graph,
    complete_edge,
    complete_graph,
    random_edges,
    random_graph,
    subtree_edges,
    tree_branch,
    tree_graph,
    Edge,
};
use crate::utils::generate_ints;
use vstd::prelude::*;

verus! {

/// A workload parameter that the generators refuse.
#[derive(Debug, Clone, Copy, PartialEq, Eq, Structural)]
pub enum WorkloadError {
    /// The parameters describe no workload (a zero key cardinality, an empty chain).
    InvalidArgument,
}

/// The `i`-th pair of a keyed workload over `num_keys` keys: `(i mod num_keys, i)`.
pub open spec fn keyed_pair(i: int, num_keys: int) -> (usize, usize) {
    ((i % num_keys) as usize, i as usize)
}

/// The sequence `0, 1, ..., count - 1`.
pub fn sequence(count: usize) -> (r: Vec<usize>)
    ensures
        r@.len() == count,
        forall|i: int| 0 <= i < count ==> r@[i] == i,
{
    generate_ints(count)
}

/// The pairs `(i mod num_keys, i)` for `i` in `[0, count)`; a zero key
/// cardinality is refused.
pub fn keyed_pairs(count: usize, num_keys: usize) -> (r: Result<Vec<(usize, usize)>, WorkloadError>)
    ensures
        num_keys == 0 <==> r == Err::<Vec<(usize, usize)>, WorkloadError>(
            WorkloadError::InvalidArgument,
        ),
        r matches Ok(v) ==> v@.len() == count && forall|i: int|
            0 <= i < count ==> #[trigger] v@[i] == keyed_pair(i, num_keys as int),
{
    if num_keys == 0 {
        return Err(WorkloadError::InvalidArgument);
    }
    let mut v: Vec<(usize, usize)> = Vec::new();
    let mut i: usize = 0;
    while i < count
        invariant
            i <= count,
            num_keys > 0,
            v@.len() == i,
            forall|j: int| 0 <= j < i ==> #[trigger] v@[j] == keyed_pair(j, num_keys as int),
        decreases count - i,
    {
        v.push((i % num_keys, i));
        i = i + 1;
    }
    Ok(v)
}

/// Every key of `keyed_pairs(count, num_keys)` lies in `[0, num_keys)`, and
/// each key below `num_keys` appears at every position `q * num_keys + key`
/// below `count`, so at least `count / num_keys` times.
pub proof fn keyed_pairs_cover_keys(count: usize, num_keys: usize, pairs: Seq<(usize, usize)>)
    requires
        num_keys > 0,
        pairs.len() == count,
        forall|i: int| 0 <= i < count ==> #[trigger] pairs[i] == keyed_pair(i, num_keys as int),
    ensures
        forall|i: int| 0 <= i < count ==> #[trigger] pairs[i].0 < num_keys,
        forall|key: int, q: int|
            0 <= key < num_keys && 0 <= q < count / num_keys ==> pairs[#[trigger] (q * num_keys
                + key)].0 == key,
{
    assert forall|i: int| 0 <= i < count implies #[trigger] pairs[i].0 < num_keys by {
        assert(pairs[i] == keyed_pair(i, num_keys as int));
    }
    assert forall|key: int, q: int|
        0 <= key < num_keys && 0 <= q < count / num_keys implies pairs[#[trigger] (q * num_keys
            + key)].0 == key by {
        let n = num_keys as int;
        let c = count as int;
        assert(q * n + key < c) by (nonlinear_arith)
            requires
                0 <= key < n,
                0 <= q < c / n,
                n > 0,
                c >= 0,
        ;
        assert((q * n + key) % n == key) by (nonlinear_arith)
            requires
                0 <= key < n,
                0 <= q,
        ;
        assert(pairs[q * n + key] == keyed_pair(q * n + key, n));
        assert(key < c);
    }
}

/// The shape of a graph workload.
#[derive(Debug, Clone, Copy, PartialEq, Eq, Structural)]
pub enum Topology {
    /// `0 -> 1 -> ... -> n - 1`.
    Chain,
    /// Seeded random edges, duplicates kept.
    Random { edge_count: usize, seed: u64 },
    /// Every ordered pair of distinct nodes.
    Complete,
    /// A full tree; its size follows from depth and branching alone.
    Tree { depth: usize, branching: usize },
}

/// An immutable description of a synthetic input; generating it twice gives
/// the same data.
#[derive(Debug, Clone, Copy, PartialEq, Eq, Structural)]
pub enum Workload {
    /// The integers `[0, count)`.
    Sequence { count: usize },
    /// The pairs `(i mod key_cardinality, i)` for `i` in `[0, count)`.
    KeyedPairs { count: usize, key_cardinality: usize },
    /// A graph of the given shape over `node_count` nodes.
    Graph { topology: Topology, node_count: u32 },
}

/// The data that a workload generates.
pub enum WorkloadData {
    /// The items of a sequence.
    Items(Vec<usize>),
    /// The keyed pairs.
    Pairs(Vec<(usize, usize)>),
    /// The edges of a graph.
    Edges(Vec<Edge>),
}

/// The machine limits under which a workload can be generated: the edges of
/// a complete graph fit in memory, the draws of a random graph can be
/// counted, and the ids of a tree fit in a node id.
pub open spec fn fits_machine(w: Workload) -> bool {
    match w {
        Workload::Graph { topology, node_count } => match topology {
            Topology::Complete => node_count * (node_count - 1) <= usize::MAX,
            Topology::Random { edge_count, seed } => 2 * edge_count <= usize::MAX,
            Topology::Tree { depth, branching } => subtree_edges(depth as nat, branching as nat)
                <= u32::MAX,
            Topology::Chain => true,
        },
        _ => true,
    }
}

/// What generating `w` gives.
pub open spec fn generated(w: Workload, r: Result<WorkloadData, WorkloadError>) -> bool {
    match w {
        Workload::Sequence { count } => r matches Ok(WorkloadData::Items(v)) && v@ == Seq::new(
            count as nat,
            |i: int| i as usize,
        ),
        Workload::KeyedPairs { count, key_cardinality } => if key_cardinality == 0 {
            r == Err::<WorkloadData, WorkloadError>(WorkloadError::InvalidArgument)
        } else {
            r matches Ok(WorkloadData::Pairs(v)) && v@ == Seq::new(
                count as nat,
                |i: int| keyed_pair(i, key_cardinality as int),
            )
        },
        Workload::Graph { topology, node_count: n } => match topology {
            Topology::Chain => if n < 1 {
                r == Err::<WorkloadData, WorkloadError>(WorkloadError::InvalidArgument)
            } else {
                r matches Ok(WorkloadData::Edges(v)) && v@ == Seq::new(
                    (n - 1) as nat,
                    |i: int| (i as u32, (i + 1) as u32),
                )
            },
            Topology::Random { edge_count, seed } => if n == 0 && edge_count > 0 {
                r == Err::<WorkloadData, WorkloadError>(WorkloadError::InvalidArgument)
            } else {
                r matches Ok(WorkloadData::Edges(v)) && v@ == random_edges(
                    n,
                    edge_count as nat,
                    seed,
                )
            },
            Topology::Complete => r matches Ok(WorkloadData::Edges(v)) && v@ == Seq::new(
                (n * (n - 1)) as nat,
                |k: int| complete_edge(n as int, k),
            ),
            Topology::Tree { depth, branching } => r matches Ok(WorkloadData::Edges(v)) && v@
                == tree_branch(0, 0, depth as nat, branching as nat, branching as nat),
        },
    }
}

impl Workload {
    /// Generates the workload's data; parameters that describe no workload
    /// (no keys, an empty chain, random edges without nodes) are refused.
    pub fn generate(&self) -> (r: Result<WorkloadData, WorkloadError>)
        requires
            fits_machine(*self),
        ensures
            generated(*self, r),
    {
        match *self {
            Workload::Sequence { count } => {
                let v = sequence(count);
                assert(v@ =~= Seq::new(count as nat, |i: int| i as usize));
                Ok(WorkloadData::Items(v))
            },
            Workload::KeyedPairs { count, key_cardinality } => match keyed_pairs(
                count,
                key_cardinality,
            ) {
                Ok(v) => {
                    assert(v@ =~= Seq::new(
                        count as nat,
                        |i: int| keyed_pair(i, key_cardinality as int),
                    ));
                    Ok(WorkloadData::Pairs(v))
                },
                Err(e) => Err(e),
            },
            Workload::Graph { topology, node_count } => match topology {
                Topology::Chain => match chain_graph(node_count) {
                    Ok(v) => {
                        assert(v@ =~= Seq::new(
                            (node_count - 1) as nat,
                            |i: int| (i as u32, (i + 1) as u32),
                        ));
                        Ok(WorkloadData::Edges(v))
                    },
                    Err(e) => Err(e),
                },
                Topology::Random { edge_count, seed } => {
                    if node_count == 0 && edge_count > 0 {
                        return Err(WorkloadError::InvalidArgument);
                    }
                    Ok(WorkloadData::Edges(random_graph(node_count, edge_count, seed)))
                },
                Topology::Complete => {
                    let v = complete_graph(node_count);
                    assert(v@ =~= Seq::new(
                        (node_count * (node_count - 1)) as nat,
                        |k: int| complete_edge(node_count as int, k),
                    ));
                    Ok(WorkloadData::Edges(v))
                },
                Topology::Tree { depth, branching } => Ok(
                    WorkloadData::Edges(tree_graph(depth, branching)),
                ),
            },
        }
    }
}

} // verus!
