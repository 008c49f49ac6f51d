use vstd::prelude::*;

verus! {

use crate::cost::{calculate_cost, lemma_prefix_costs_fit, path_cost};
use crate::graph::{
    copy_path, lemma_finished_tour, lemma_graph_view, lemma_remove_in_range,
    lemma_start_keeps_contents, lemma_step_keeps_contents, nodes_upto, nodes_vec, path_in_range,
    valid_graph,
};
use crate::solvers::Solver;
use crate::types::{GraphType, IndexType, PathType, ValueType};

/// Builds a tour by always stepping to the cheapest unvisited neighbor,
/// breaking ties in favor of the node scanned first.
pub struct GreedySolver {
    optimal_cost: Option<ValueType>,
    optimal_path: Option<PathType>,
}

/// The index of the first entry of `u` whose edge cost from `from` is
/// minimal; 0 when `u` is empty or a single entry.
pub open spec fn first_nearest_index(g: Seq<Seq<i32>>, from: IndexType, u: Seq<IndexType>) -> int
    decreases u.len(),
{
    if u.len() <= 1 {
        0
    } else {
        let r = first_nearest_index(g, from, u.drop_last());
        if g[from as int][u.last() as int] < g[from as int][u[r] as int] {
            u.len() - 1
        } else {
            r
        }
    }
}

/// `first_nearest_index` names an entry of least edge cost, and every
/// earlier entry costs strictly more.
pub proof fn lemma_first_nearest_index(g: Seq<Seq<i32>>, from: IndexType, u: Seq<IndexType>)
    requires
        1 <= u.len(),
    ensures
        0 <= first_nearest_index(g, from, u) < u.len(),
        forall|k: int|
            0 <= k < u.len()
                ==> g[from as int][u[first_nearest_index(g, from, u)] as int]
                <= g[from as int][#[trigger] u[k] as int],
        forall|k: int|
            0 <= k < first_nearest_index(g, from, u)
                ==> g[from as int][u[first_nearest_index(g, from, u)] as int]
                < g[from as int][#[trigger] u[k] as int],
    decreases u.len(),
{
    if u.len() > 1 {
        lemma_first_nearest_index(g, from, u.drop_last());
        assert(forall|k: int| 0 <= k < u.len() - 1 ==> u.drop_last()[k] == #[trigger] u[k]);
    }
}

/// The order in which a nearest-neighbor walk starting at `from` visits the
/// pool `u`.
pub open spec fn greedy_order(g: Seq<Seq<i32>>, from: IndexType, u: Seq<IndexType>) -> Seq<
    IndexType,
>
    decreases u.len(),
    via greedy_order_decreases
{
    if u.len() == 0 {
        Seq::empty()
    } else {
        let r = first_nearest_index(g, from, u);
        Seq::empty().push(u[r]) + greedy_order(g, u[r], u.remove(r))
    }
}

#[via_fn]
proof fn greedy_order_decreases(g: Seq<Seq<i32>>, from: IndexType, u: Seq<IndexType>) {
    if u.len() != 0 {
        lemma_first_nearest_index(g, from, u);
    }
}

/// The tour the nearest-neighbor heuristic builds on `g` from `start`.
pub open spec fn greedy_tour(g: Seq<Seq<i32>>, start: IndexType) -> Seq<IndexType> {
    let u0 = nodes_upto(g.len() as int).remove(start as int);
    (Seq::empty().push(start) + greedy_order(g, start, u0)).push(start)
}

/// The nearest-neighbor strategy is deterministic: two solves on the same
/// graph and starting node return the same cost and the same path.
pub proof fn lemma_greedy_deterministic(
    g: Seq<Seq<i32>>,
    start: IndexType,
    c1: ValueType,
    p1: Seq<IndexType>,
    c2: ValueType,
    p2: Seq<IndexType>,
)
    requires
        GreedySolver::strategy_ensures(g, start, c1, p1),
        c1 as int == path_cost(g, p1),
        GreedySolver::strategy_ensures(g, start, c2, p2),
        c2 as int == path_cost(g, p2),
    ensures
        c1 == c2,
        p1 == p2,
{
}

impl GreedySolver {
    /// Creates a solver with no recorded result.
    pub fn new() -> (s: Self)
        ensures
            s.stored_cost() is None,
            s.stored_path() is None,
    {
        Self { optimal_path: None, optimal_cost: None }
    }

    /// The index into `unvisited` of the first node reachable from
    /// `current_node` at minimal cost.
    pub fn find_nearest_node(
        &self,
        graph: &GraphType,
        current_node: IndexType,
        unvisited: &Vec<IndexType>,
    ) -> (r: IndexType)
        requires
            valid_graph(graph.deep_view()),
            (current_node as int) < graph@.len(),
            path_in_range(unvisited@, graph@.len() as int),
            1 <= unvisited@.len(),
        ensures
            r < unvisited@.len(),
            r as int == first_nearest_index(graph.deep_view(), current_node, unvisited@),
    {
        let ghost g = graph.deep_view();
        proof {
            lemma_graph_view(graph);
        }
        let mut min_cost: ValueType = ValueType::MAX;
        let mut nearest_node_index: IndexType = 0;
        let mut i: usize = 0;
        while i < unvisited.len()
            invariant
                g == graph.deep_view(),
                valid_graph(g),
                g.len() == graph@.len(),
                forall|k: int| 0 <= k < g.len() ==> g[k] == graph@[k]@,
                (current_node as int) < g.len(),
                path_in_range(unvisited@, g.len() as int),
                1 <= unvisited@.len(),
                i <= unvisited@.len(),
                i == 0 ==> nearest_node_index == 0 && min_cost == ValueType::MAX,
                1 <= i ==> {
                    &&& (nearest_node_index as int) == first_nearest_index(
                        g,
                        current_node,
                        unvisited@.take(i as int),
                    )
                    &&& nearest_node_index < i
                    &&& min_cost == g[current_node as int][unvisited@[nearest_node_index as int] as int]
                },
            decreases unvisited@.len() - i,
        {
            let next_node: IndexType = unvisited[i];
            proof {
                assert((next_node as int) < g.len());
                assert(g[current_node as int].len() == g.len());
                assert(graph@[current_node as int]@ == g[current_node as int]);
            }
            let cost: ValueType = graph[current_node][next_node];
            proof {
                let pre = unvisited@.take(i as int);
                let post = unvisited@.take(i as int + 1);
                assert(post.drop_last() =~= pre);
                assert(post.last() == unvisited@[i as int]);
                if i >= 1 {
                    lemma_first_nearest_index(g, current_node, pre);
                    assert(post[nearest_node_index as int] == unvisited@[nearest_node_index as int]);
                }
            }
            if cost < min_cost {
                min_cost = cost;
                nearest_node_index = i;
            }
            i = i + 1;
        }
        proof {
            assert(unvisited@.take(unvisited@.len() as int) =~= unvisited@);
            lemma_first_nearest_index(g, current_node, unvisited@);
        }
        nearest_node_index
    }
}

impl Solver for GreedySolver {
    closed spec fn stored_cost(&self) -> Option<ValueType> {
        self.optimal_cost
    }

    closed spec fn stored_path(&self) -> Option<Seq<IndexType>> {
        match self.optimal_path {
            Some(p) => Some(p@),
            None => None,
        }
    }

    open spec fn strategy_requires(g: Seq<Seq<i32>>) -> bool {
        true
    }

    open spec fn strategy_ensures(
        g: Seq<Seq<i32>>,
        start: IndexType,
        cost: ValueType,
        path: Seq<IndexType>,
    ) -> bool {
        path == greedy_tour(g, start)
    }

    fn solve_from_node(&mut self, graph: &GraphType, starting_node: IndexType) -> Option<
        (ValueType, PathType),
    > {
        let ghost g = graph.deep_view();
        proof {
            lemma_graph_view(graph);
        }
        if starting_node >= graph.len() {
            return None;
        }

        let problem_size = graph.len();
        let ghost n = problem_size as int;
        let mut path: PathType = Vec::new();
        let mut unvisited: Vec<IndexType> = nodes_vec(problem_size);
        let mut current_node: IndexType = starting_node;

        path.push(starting_node);
        unvisited.remove(starting_node);

        let ghost u0 = nodes_upto(n).remove(starting_node as int);
        let ghost target = Seq::empty().push(starting_node) + greedy_order(g, starting_node, u0);

        proof {
            lemma_start_keeps_contents(nodes_upto(n), starting_node as int);
            lemma_remove_in_range(nodes_upto(n), starting_node as int, n);
        }

        while unvisited.len() != 0
            invariant
                g == graph.deep_view(),
                valid_graph(g),
                g.len() == n,
                0 < n,
                (starting_node as int) < n,
                1 <= path@.len(),
                path@[0] == starting_node,
                path@.last() == current_node,
                path_in_range(path@, n),
                path_in_range(unvisited@, n),
                path@.to_multiset().add(unvisited@.to_multiset()) == nodes_upto(n).to_multiset(),
                path@ + greedy_order(g, current_node, unvisited@) == target,
            decreases unvisited@.len(),
        {
            let nearest: IndexType = self.find_nearest_node(graph, current_node, &unvisited);
            let ghost old_path = path@;
            let ghost old_u = unvisited@;
            let next_node: IndexType = unvisited.remove(nearest);
            path.push(next_node);
            proof {
                lemma_step_keeps_contents(old_path, old_u, nodes_upto(n), nearest as int);
                lemma_remove_in_range(old_u, nearest as int, n);
                assert(path_in_range(path@, n)) by {
                    assert(forall|i: int| 0 <= i < old_path.len() ==> path@[i] == old_path[i]);
                }
                assert(greedy_order(g, current_node, old_u) == Seq::empty().push(next_node)
                    + greedy_order(g, next_node, unvisited@));
                assert(path@ + greedy_order(g, next_node, unvisited@) =~= old_path
                    + greedy_order(g, current_node, old_u));
            }
            current_node = next_node;
        }

        proof {
            lemma_finished_tour(path@, unvisited@, n, starting_node);
            assert(greedy_order(g, current_node, unvisited@) == Seq::<IndexType>::empty());
            assert(path@ =~= target);
        }
        path.push(starting_node);
        proof {
            assert(path@ == greedy_tour(g, starting_node));
        }

        self.optimal_path = Some(copy_path(&path));

        proof {
            lemma_prefix_costs_fit(g, path@);
        }
        let cost: ValueType = calculate_cost(graph, &path);
        self.optimal_cost = Some(cost);

        Some((cost, path))
    }

    fn solve(&mut self, graph: &GraphType) -> Option<(ValueType, PathType)> {
        self.solve_from_node(graph, 0)
    }

    fn get_cost(&self) -> Option<ValueType> {
        self.optimal_cost
    }

    fn get_path(&self) -> Option<PathType> {
        match &self.optimal_path {
            Some(p) => Some(copy_path(p)),
            None => None,
        }
    }
}

} // verus!
