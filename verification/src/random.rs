use rand::Rng;
use vstd::prelude::*;

verus! {

use crate::cost::{calculate_cost, lemma_prefix_costs_fit};
use crate::graph::{
    copy_path, lemma_finished_tour, lemma_graph_view, lemma_remove_in_range,
    lemma_start_keeps_contents, lemma_step_keeps_contents, nodes_upto, nodes_vec, path_in_range,
};
use crate::solvers::Solver;
use crate::types::{GraphType, IndexType, PathType, ValueType};

/// Builds a tour by repeatedly appending a uniformly random unvisited node.
pub struct RandomSolver {
    optimal_cost: Option<ValueType>,
    optimal_path: Option<PathType>,
}

/// Relies on `rand::thread_rng` and `rand::Rng::gen_range`: returns a value
/// drawn from `0..n`; `gen_range` panics only on an empty range, which
/// `1 <= n` rules out.
#[verifier::external_body]
fn random_below(n: usize) -> (r: usize)
    requires
        1 <= n,
    ensures
        r < n,
{
    rand::thread_rng().gen_range(0..n)
}

impl RandomSolver {
    /// Creates a solver with no recorded result.
    pub fn new() -> (s: Self)
        ensures
            s.stored_cost() is None,
            s.stored_path() is None,
    {
        Self { optimal_path: None, optimal_cost: None }
    }
}

impl Solver for RandomSolver {
    closed spec fn stored_cost(&self) -> Option<ValueType> {
        self.optimal_cost
    }

    closed spec fn stored_path(&self) -> Option<Seq<IndexType>> {
        match self.optimal_path {
            Some(p) => Some(p@),
            None => None,
        }
    }

    open spec fn strategy_requires(g: Seq<Seq<i32>>) -> bool {
        true
    }

    open spec fn strategy_ensures(
        g: Seq<Seq<i32>>,
        start: IndexType,
        cost: ValueType,
        path: Seq<IndexType>,
    ) -> bool {
        true
    }

    fn solve_from_node(&mut self, graph: &GraphType, starting_node: IndexType) -> Option<
        (ValueType, PathType),
    > {
        let ghost g = graph.deep_view();
        proof {
            lemma_graph_view(graph);
        }
        if starting_node >= graph.len() {
            return None;
        }

        let problem_size = graph.len();
        let ghost n = problem_size as int;
        let mut path: PathType = Vec::new();
        let mut unvisited: Vec<IndexType> = nodes_vec(problem_size);

        path.push(starting_node);
        unvisited.remove(starting_node);

        proof {
            lemma_start_keeps_contents(nodes_upto(n), starting_node as int);
            lemma_remove_in_range(nodes_upto(n), starting_node as int, n);
        }

        while unvisited.len() != 0
            invariant
                0 < n,
                (starting_node as int) < n,
                1 <= path@.len(),
                path@[0] == starting_node,
                path_in_range(path@, n),
                path_in_range(unvisited@, n),
                path@.to_multiset().add(unvisited@.to_multiset()) == nodes_upto(n).to_multiset(),
            decreases unvisited@.len(),
        {
            let unvisited_nodes = unvisited.len();
            let chosen_index: usize = random_below(unvisited_nodes);
            let ghost old_path = path@;
            let ghost old_u = unvisited@;
            let next_node: IndexType = unvisited.remove(chosen_index);
            path.push(next_node);
            proof {
                lemma_step_keeps_contents(old_path, old_u, nodes_upto(n), chosen_index as int);
                lemma_remove_in_range(old_u, chosen_index as int, n);
                assert(path_in_range(path@, n)) by {
                    assert(forall|i: int| 0 <= i < old_path.len() ==> path@[i] == old_path[i]);
                }
            }
        }

        proof {
            lemma_finished_tour(path@, unvisited@, n, starting_node);
        }
        path.push(starting_node);

        self.optimal_path = Some(copy_path(&path));

        proof {
            lemma_prefix_costs_fit(g, path@);
        }
        let cost: ValueType = calculate_cost(graph, &path);
        self.optimal_cost = Some(cost);

        Some((cost, path))
    }

    fn solve(&mut self, graph: &GraphType) -> Option<(ValueType, PathType)> {
        self.solve_from_node(graph, 0)
    }

    fn get_cost(&self) -> Option<ValueType> {
        self.optimal_cost
    }

    fn get_path(&self) -> Option<PathType> {
        match &self.optimal_path {
            Some(p) => Some(copy_path(p)),
            None => None,
        }
    }
}

} // verus!
