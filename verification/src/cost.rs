use vstd::prelude::*;

verus! {

use crate::graph::{lemma_graph_view, path_in_range, valid_graph};
use crate::types::{GraphType, PathType, ValueType};

/// The cost of walking `p` through `g`: the sum of `g[p[i]][p[i+1]]` over
/// every consecutive pair of entries, an empty sum when `p` has fewer than
/// two entries.
pub open spec fn path_cost(g: Seq<Seq<i32>>, p: Seq<usize>) -> int
    decreases p.len(),
{
    if p.len() < 2 {
        0
    } else {
        path_cost(g, p.drop_last()) + g[p[p.len() - 2] as int][p[p.len() - 1] as int]
    }
}

/// Every edge cost of `g` lies within `[-w, w]`.
pub open spec fn edges_within(g: Seq<Seq<i32>>, w: int) -> bool {
    forall|i: int, j: int|
        0 <= i < g.len() && 0 <= j < g.len() ==> -w <= #[trigger] g[i][j] <= w
}

/// Some bound on the edge costs keeps every path cost within `i32`: a path
/// visiting each node once takes at most `g.len()` edges.
pub open spec fn graph_cost_safe(g: Seq<Seq<i32>>) -> bool {
    exists|w: int| 0 <= w && #[trigger] edges_within(g, w) && g.len() * w <= i32::MAX as int
}

/// A path of `k+1` nodes sums `k` edges, so its cost lies within `k` times
/// any bound on the edges.
pub proof fn lemma_path_cost_bounded(g: Seq<Seq<i32>>, p: Seq<usize>, w: int)
    requires
        valid_graph(g),
        path_in_range(p, g.len() as int),
        0 <= w,
        edges_within(g, w),
        1 <= p.len(),
    ensures
        -((p.len() - 1) as int * w) <= path_cost(g, p) <= (p.len() - 1) as int * w,
    decreases p.len(),
{
    if p.len() >= 2 {
        assert(path_in_range(p.drop_last(), g.len() as int)) by {
            assert(forall|i: int|
                0 <= i < p.drop_last().len() ==> p.drop_last()[i] == p[i]);
        }
        lemma_path_cost_bounded(g, p.drop_last(), w);
        let a = (p.len() - 2) as int;
        assert((a + 1) * w == a * w + w) by (nonlinear_arith);
    }
}

/// For a cost-safe graph, the cost of every prefix of an in-range path of
/// at most `g.len() + 1` nodes fits in an `i32`.
pub proof fn lemma_prefix_costs_fit(g: Seq<Seq<i32>>, p: Seq<usize>)
    requires
        valid_graph(g),
        graph_cost_safe(g),
        path_in_range(p, g.len() as int),
        p.len() <= g.len() + 1,
    ensures
        forall|k: int|
            1 <= k <= p.len() ==> i32::MIN <= path_cost(g, #[trigger] p.take(k)) <= i32::MAX,
{
    let w = choose|w: int| 0 <= w && #[trigger] edges_within(g, w) && g.len() * w <= i32::MAX as int;
    assert forall|k: int|
        1 <= k <= p.len() implies i32::MIN <= path_cost(g, #[trigger] p.take(k)) <= i32::MAX by {
        assert(path_in_range(p.take(k), g.len() as int)) by {
            assert(forall|i: int| 0 <= i < k ==> p.take(k)[i] == p[i]);
        }
        lemma_path_cost_bounded(g, p.take(k), w);
        assert((k - 1) * w <= g.len() * w) by (nonlinear_arith)
            requires
                0 <= w,
                k - 1 <= g.len(),
        ;
    }
}

/// Sums the cost of every consecutive edge of `path` in `graph`.
pub fn calculate_cost(graph: &GraphType, path: &PathType) -> (cost: ValueType)
    requires
        valid_graph(graph.deep_view()),
        path_in_range(path@, graph@.len() as int),
        1 <= path@.len(),
        forall|k: int|
            1 <= k <= path@.len()
                ==> i32::MIN <= path_cost(graph.deep_view(), #[trigger] path@.take(k))
                <= i32::MAX,
    ensures
        cost as int == path_cost(graph.deep_view(), path@),
{
    proof {
        lemma_graph_view(graph);
    }
    let ghost g = graph.deep_view();
    let mut cost: ValueType = 0;
    let mut i: usize = 0;
    while i < path.len() - 1
        invariant
            g == graph.deep_view(),
            valid_graph(g),
            g.len() == graph@.len(),
            forall|k: int| 0 <= k < g.len() ==> g[k] == graph@[k]@,
            path_in_range(path@, g.len() as int),
            1 <= path@.len(),
            i + 1 <= path@.len(),
            cost as int == path_cost(g, path@.take(i as int + 1)),
            forall|k: int|
                1 <= k <= path@.len()
                    ==> i32::MIN <= path_cost(g, #[trigger] path@.take(k)) <= i32::MAX,
        decreases path@.len() - i,
    {
        let current_node: usize = path[i];
        let next_node: usize = path[i + 1];
        proof {
            assert((current_node as int) < g.len());
            assert((next_node as int) < g.len());
            assert(g[current_node as int].len() == g.len());
            assert(graph@[current_node as int]@ == g[current_node as int]);
        }
        let edge: ValueType = graph[current_node][next_node];
        proof {
            let pre = path@.take(i as int + 1);
            let post = path@.take(i as int + 2);
            assert(post.drop_last() =~= pre);
            assert(post[i as int] == path@[i as int]);
            assert(post[i as int + 1] == path@[i as int + 1]);
            assert(edge == g[current_node as int][next_node as int]);
            assert(cost + edge == path_cost(g, post));
        }
        cost = cost + edge;
        i = i + 1;
    }
    proof {
        assert(path@.take(path@.len() as int) =~= path@);
    }
    cost
}

} // verus!
