//! Graph workloads: chains, complete graphs, seeded random graphs and trees.
use crate::random::{draw_below, seeded_below};
use crate::workload::WorkloadError;
use vstd::arithmetic::power::pow;
use vstd::prelude::*;

verus! {

/// A directed edge `(source, destination)` between node ids.
pub type Edge = (u32, u32);

/// The `k`-th edge of the complete graph on `n` nodes: the edges leave node
/// `0` first, then node `1`, and so on, each row in increasing destination
/// order with the self-loop left out.
pub open spec fn complete_edge(n: int, k: int) -> Edge {
    let i = k / (n - 1);
    let r = k % (n - 1);
    (i as u32, if r < i {
        r as u32
    } else {
        (r + 1) as u32
    })
}

/// The position of edge `(i, j)`, `i != j`, in the complete graph on `n` nodes.
pub open spec fn complete_index(n: int, i: int, j: int) -> int {
    i * (n - 1) + if j < i {
        j
    } else {
        j - 1
    }
}

/// The edges of a random graph: the draws `d` out of the stream seeded with
/// `seed`, uniform over `[0, n)`, taken two at a time as `(d[2k], d[2k + 1])`.
pub open spec fn random_edges(n: u32, edge_count: nat, seed: u64) -> Seq<Edge> {
    let d = seeded_below(seed, n as u64, 2 * edge_count);
    Seq::new(edge_count, |k: int| (d[2 * k] as u32, d[2 * k + 1] as u32))
}

/// The number of edges below a node with `depth` levels of descendants, each
/// node having `branching` children.
pub open spec fn subtree_edges(depth: nat, branching: nat) -> nat
    decreases depth,
{
    if depth == 0 {
        0
    } else {
        branching * (1 + subtree_edges((depth - 1) as nat, branching))
    }
}

/// The edges that a depth-first walk emits for the first `j` children of
/// `parent`, which has `depth` levels below it; the walk hands out node ids
/// in increasing order after `next`.
pub open spec fn tree_branch(parent: int, next: int, depth: nat, branching: nat, j: nat) -> Seq<
    Edge,
>
    decreases depth, j,
{
    if depth == 0 || j == 0 {
        Seq::empty()
    } else {
        let child = next + (j - 1) * (1 + subtree_edges((depth - 1) as nat, branching)) + 1;
        tree_branch(parent, next, depth, branching, (j - 1) as nat).push(
            (parent as u32, child as u32),
        ) + tree_branch(child, child, (depth - 1) as nat, branching, branching)
    }
}

/// The chain `0 -> 1 -> ... -> n - 1`; an empty chain is refused.
pub fn chain_graph(n: u32) -> (r: Result<Vec<Edge>, WorkloadError>)
    ensures
        n < 1 <==> r == Err::<Vec<Edge>, WorkloadError>(WorkloadError::InvalidArgument),
        r matches Ok(v) ==> v@.len() == n - 1 && forall|i: int|
            0 <= i < n - 1 ==> #[trigger] v@[i] == (i as u32, (i + 1) as u32),
{
    if n < 1 {
        return Err(WorkloadError::InvalidArgument);
    }
    let mut v: Vec<Edge> = Vec::new();
    let mut i: u32 = 0;
    while i < n - 1
        invariant
            n >= 1,
            i <= n - 1,
            v@.len() == i,
            forall|j: int| 0 <= j < i ==> #[trigger] v@[j] == (j as u32, (j + 1) as u32),
        decreases n - 1 - i,
    {
        v.push((i, i + 1));
        i = i + 1;
    }
    Ok(v)
}

proof fn lemma_row_position(i: int, r: int, m: int)
    requires
        0 <= i,
        0 <= r < m,
    ensures
        (i * m + r) / m == i,
        (i * m + r) % m == r,
{
    assert((i * m + r) / m == i) by (nonlinear_arith)
        requires
            0 <= i,
            0 <= r < m,
    ;
    assert((i * m + r) % m == r) by (nonlinear_arith)
        requires
            0 <= i,
            0 <= r < m,
    ;
}

/// Every ordered pair `(i, j)` of distinct nodes below `n`, each once.
pub fn complete_graph(n: u32) -> (r: Vec<Edge>)
    requires
        n * (n - 1) <= usize::MAX,
    ensures
        r@.len() == n * (n - 1),
        forall|k: int| 0 <= k < r@.len() ==> #[trigger] r@[k] == complete_edge(n as int, k),
        forall|k: int| 0 <= k < r@.len() ==> #[trigger] r@[k].0 != r@[k].1,
        forall|i: int, j: int|
            0 <= i < n && 0 <= j < n && i != j ==> r@[complete_index(n as int, i, j)] == (
                i as u32,
                j as u32,
            ),
{
    let mut v: Vec<Edge> = Vec::new();
    let mut i: u32 = 0;
    while i < n
        invariant
            i <= n,
            n * (n - 1) <= usize::MAX,
            v@.len() == i * (n - 1),
            forall|k: int| 0 <= k < v@.len() ==> #[trigger] v@[k] == complete_edge(n as int, k),
        decreases n - i,
    {
        let mut j: u32 = 0;
        while j < n
            invariant
                i < n,
                j <= n,
                n * (n - 1) <= usize::MAX,
                v@.len() == i * (n - 1) + if j <= i {
                    j as int
                } else {
                    j - 1
                },
                forall|k: int|
                    0 <= k < v@.len() ==> #[trigger] v@[k] == complete_edge(n as int, k),
            decreases n - j,
        {
            if i != j {
                let ghost r = if j < i {
                    j as int
                } else {
                    j - 1
                };
                proof {
                    lemma_row_position(i as int, r, n - 1);
                    assert(i * (n - 1) + r < n * (n - 1)) by (nonlinear_arith)
                        requires
                            0 <= r < n - 1,
                            0 <= i < n,
                    ;
                }
                v.push((i, j));
            }
            j = j + 1;
        }
        proof {
            assert((i + 1) * (n - 1) == i * (n - 1) + (n - 1)) by (nonlinear_arith);
        }
        i = i + 1;
    }
    proof {
        assert forall|k: int| 0 <= k < v@.len() implies #[trigger] v@[k].0 != v@[k].1 by {
            let m = n - 1;
            assert(v@[k] == complete_edge(n as int, k));
            assert(k / m < n) by (nonlinear_arith)
                requires
                    0 <= k < n * m,
                    m == n - 1,
                    n >= 1,
            ;
            assert(k % m < m) by (nonlinear_arith)
                requires
                    m > 0,
            ;
        }
        assert forall|a: int, b: int|
            0 <= a < n && 0 <= b < n && a != b implies v@[complete_index(n as int, a, b)] == (
            a as u32,
            b as u32,
        ) by {
            let r = if b < a {
                b
            } else {
                b - 1
            };
            lemma_row_position(a, r, n - 1);
            assert(a * (n - 1) + r < n * (n - 1)) by (nonlinear_arith)
                requires
                    0 <= r < n - 1,
                    0 <= a < n,
            ;
        }
    }
    v
}

/// `edge_count` edges with both endpoints drawn uniformly from `[0, n)` out
/// of a generator seeded with `seed`; duplicate edges are kept. Without
/// edges no node is needed.
pub fn random_graph(n: u32, edge_count: usize, seed: u64) -> (r: Vec<Edge>)
    requires
        n > 0 || edge_count == 0,
        2 * edge_count <= usize::MAX,
    ensures
        r@ == random_edges(n, edge_count as nat, seed),
        forall|k: int| 0 <= k < edge_count ==> #[trigger] r@[k].0 < n && r@[k].1 < n,
{
    if edge_count == 0 {
        let v: Vec<Edge> = Vec::new();
        assert(v@ =~= random_edges(n, edge_count as nat, seed));
        return v;
    }
    let d = draw_below(seed, n as u64, 2 * edge_count);
    let mut v: Vec<Edge> = Vec::new();
    let mut k: usize = 0;
    while k < edge_count
        invariant
            k <= edge_count,
            2 * edge_count <= usize::MAX,
            d@ == seeded_below(seed, n as u64, 2 * edge_count as nat),
            d@.len() == 2 * edge_count,
            forall|i: int| 0 <= i < 2 * edge_count ==> d@[i] < n as u64,
            v@.len() == k,
            forall|i: int|
                0 <= i < k ==> #[trigger] v@[i] == (d@[2 * i] as u32, d@[2 * i + 1] as u32),
        decreases edge_count - k,
    {
        v.push((d[2 * k] as u32, d[2 * k + 1] as u32));
        k = k + 1;
    }
    assert(v@ =~= random_edges(n, edge_count as nat, seed));
    v
}

/// Two random graphs built from the same node count, edge count and seed are
/// the same graph: generation keeps no hidden state between calls.
pub proof fn random_graph_deterministic(
    n: u32,
    edge_count: usize,
    seed: u64,
    first: Seq<Edge>,
    second: Seq<Edge>,
)
    requires
        first == random_edges(n, edge_count as nat, seed),
        second == random_edges(n, edge_count as nat, seed),
    ensures
        first == second,
{
}

/// A full tree of the given depth with `branching > 1` children per inner
/// node has `(branching^(depth + 1) - branching) / (branching - 1)` edges.
pub proof fn tree_edge_count(depth: nat, branching: nat)
    requires
        branching > 1,
    ensures
        subtree_edges(depth, branching) == (pow(branching as int, depth + 1) - branching) / (
        branching - 1),
    decreases depth,
{
    let b = branching as int;
    lemma_tree_edges_times(depth, branching);
    let e = subtree_edges(depth, branching) as int;
    let p = pow(b, depth + 1);
    assert(e * (b - 1) == p - b);
    assert((p - b) / (b - 1) == e) by (nonlinear_arith)
        requires
            e * (b - 1) == p - b,
            b > 1,
    ;
}

proof fn lemma_tree_edges_times(depth: nat, branching: nat)
    requires
        branching > 1,
    ensures
        subtree_edges(depth, branching) * (branching - 1) == pow(branching as int, depth + 1)
            - branching,
    decreases depth,
{
    let b = branching as int;
    reveal(pow);
    if depth == 0 {
        assert(pow(b, 0) == 1);
        assert(pow(b, 1) == b * pow(b, 0));
        assert(subtree_edges(depth, branching) == 0);
    } else {
        lemma_tree_edges_times((depth - 1) as nat, branching);
        let s = subtree_edges((depth - 1) as nat, branching) as int;
        let q = pow(b, depth as nat);
        assert(pow(b, depth + 1) == b * q);
        assert(s * (b - 1) == q - b);
        assert(subtree_edges(depth, branching) == b * (1 + s));
        assert(b * (1 + s) * (b - 1) == b * q - b) by (nonlinear_arith)
            requires
                s * (b - 1) == q - b,
        ;
    }
}

fn generate_level(
    edges: &mut Vec<Edge>,
    parent: u32,
    node_id: &mut u32,
    depth: usize,
    branching: usize,
)
    requires
        *old(node_id) + subtree_edges(depth as nat, branching as nat) <= u32::MAX,
    ensures
        final(edges)@ == old(edges)@ + tree_branch(
            parent as int,
            *old(node_id) as int,
            depth as nat,
            branching as nat,
            branching as nat,
        ),
        *final(node_id) == *old(node_id) + subtree_edges(depth as nat, branching as nat),
        final(edges)@.len() == old(edges)@.len() + subtree_edges(depth as nat, branching as nat),
        forall|m: int|
            0 <= m < subtree_edges(depth as nat, branching as nat) ==> #[trigger] final(edges)@[old(edges)@.len() + m].1 == *old(node_id) + m + 1,
    decreases depth,
{
    if depth == 0 {
        assert(edges@ =~= old(edges)@ + tree_branch(
            parent as int,
            *old(node_id) as int,
            depth as nat,
            branching as nat,
            branching as nat,
        ));
        return ;
    }
    let ghost start = *old(node_id) as int;
    let ghost s = subtree_edges((depth - 1) as nat, branching as nat) as int;
    let ghost b = branching as int;
    assert(subtree_edges(depth as nat, branching as nat) == b * (1 + s));
    let mut k: usize = 0;
    while k < branching
        invariant
            k <= branching,
            depth > 0,
            s == subtree_edges((depth - 1) as nat, branching as nat),
            b == branching,
            start + b * (1 + s) <= u32::MAX,
            *node_id == start + k * (1 + s),
            edges@.len() == old(edges)@.len() + k * (1 + s),
            forall|m: int|
                0 <= m < k * (1 + s) ==> #[trigger] edges@[old(edges)@.len() + m].1 == start + m
                    + 1,
            edges@ == old(edges)@ + tree_branch(
                parent as int,
                start,
                depth as nat,
                branching as nat,
                k as nat,
            ),
        decreases branching - k,
    {
        proof {
            let kk = k as int;
            assert((kk + 1) * (1 + s) <= b * (1 + s)) by (nonlinear_arith)
                requires
                    kk < b,
                    s >= 0,
            ;
            assert(kk * (1 + s) + 1 + s == (kk + 1) * (1 + s)) by (nonlinear_arith);
        }
        *node_id = *node_id + 1;
        let child = *node_id;
        let ghost before = edges@;
        edges.push((parent, child));
        let ghost mid = edges@;
        generate_level(edges, child, node_id, depth - 1, branching);
        proof {
            let base = old(edges)@.len() as int;
            let kk = k as int;
            assert forall|m: int| 0 <= m < (kk + 1) * (1 + s) implies #[trigger] edges@[base
                + m].1 == start + m + 1 by {
                if m < kk * (1 + s) {
                    assert(edges@[base + m] == before[base + m]);
                } else if m == kk * (1 + s) {
                    assert(edges@[base + m] == mid[base + m]);
                } else {
                    let m2 = m - kk * (1 + s) - 1;
                    assert(edges@[mid.len() + m2].1 == child + m2 + 1);
                }
            }
            assert(edges@ =~= old(edges)@ + tree_branch(
                parent as int,
                start,
                depth as nat,
                branching as nat,
                (k + 1) as nat,
            ));
        }
        k = k + 1;
    }
}

/// The full tree of the given depth in which every inner node has
/// `branching` children; the root is node `0` and a depth-first walk hands
/// out the ids `1, 2, ...`, so the `i`-th edge leads to node `i + 1`.
pub fn tree_graph(depth: usize, branching: usize) -> (r: Vec<Edge>)
    requires
        subtree_edges(depth as nat, branching as nat) <= u32::MAX,
    ensures
        r@ == tree_branch(0, 0, depth as nat, branching as nat, branching as nat),
        r@.len() == subtree_edges(depth as nat, branching as nat),
        forall|i: int| 0 <= i < r@.len() ==> #[trigger] r@[i].1 == i + 1,
{
    let mut edges: Vec<Edge> = Vec::new();
    let mut node_id: u32 = 0;
    generate_level(&mut edges, 0, &mut node_id, depth, branching);
    assert forall|i: int| 0 <= i < edges@.len() implies #[trigger] edges@[i].1 == i + 1 by {
        assert(edges@[0 + i].1 == 0 + i + 1);
    }
    assert(edges@ =~= tree_branch(0, 0, depth as nat, branching as nat, branching as nat));
    edges
}

} // verus!
