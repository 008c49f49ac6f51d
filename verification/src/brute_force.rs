use vstd::prelude::*;

verus! {

use crate::cost::{calculate_cost, graph_cost_safe, lemma_prefix_costs_fit, path_cost};
use crate::graph::{
    copy_path, lemma_graph_view, lemma_remove_in_range, lemma_same_contents_in_range,
    lemma_start_keeps_contents, nodes_upto, nodes_vec, path_in_range, valid_graph, valid_tour,
};
use crate::solvers::Solver;
use crate::types::{GraphType, IndexType, PathType, ValueType};
use vstd::seq_lib::lemma_multiset_commutative;

/// Finds the globally cheapest closed tour by trying every permutation of
/// the non-start nodes.
pub struct BruteForceSolver {
    optimal_cost: Option<ValueType>,
    optimal_path: Option<PathType>,
}

/// The closed tour formed by wrapping a permutation of the remaining nodes
/// between two copies of the start node.
pub open spec fn tour_of(start: IndexType, mid: Seq<IndexType>) -> Seq<IndexType> {
    (Seq::empty().push(start) + mid).push(start)
}

/// Relies on `permutohedron::Heap`: its iterator yields every permutation
/// of the data exactly once (`n!` in all, the given order among them), each
/// as a fresh vector. `Heap::new` panics above 16 elements, which the bound
/// on `v` rules out.
#[verifier::external_body]
fn all_permutations(v: &Vec<IndexType>) -> (r: Vec<Vec<IndexType>>)
    requires
        v@.len() <= 16,
    ensures
        forall|i: int|
            0 <= i < r.deep_view().len()
                ==> (#[trigger] r.deep_view()[i]).to_multiset() == v@.to_multiset(),
        forall|p: Seq<IndexType>|
            #[trigger] p.to_multiset() == v@.to_multiset()
                ==> exists|i: int| 0 <= i < r.deep_view().len() && r.deep_view()[i] == p,
{
    let mut data = v.clone();
    permutohedron::Heap::new(&mut data).collect()
}

/// The deep view of a permutation list is its entries' views, one by one.
proof fn lemma_perms_view(v: &Vec<Vec<IndexType>>)
    ensures
        v.deep_view().len() == v@.len(),
        forall|i: int| 0 <= i < v@.len() ==> v.deep_view()[i] == v@[i]@,
{
    assert forall|i: int| 0 <= i < v@.len() implies v.deep_view()[i] == v@[i]@ by {
        assert(v@[i].deep_view() =~= v@[i]@);
    }
}

/// A permutation of the non-start nodes, wrapped between two copies of the
/// start node, is a valid tour.
pub proof fn lemma_tour_of_valid(mid: Seq<IndexType>, n: int, start: IndexType)
    requires
        0 < n,
        (start as int) < n,
        mid.to_multiset() == nodes_upto(n).remove(start as int).to_multiset(),
    ensures
        mid.len() == n - 1,
        valid_tour(tour_of(start, mid), n, start),
{
    let u0 = nodes_upto(n).remove(start as int);
    lemma_remove_in_range(nodes_upto(n), start as int, n);
    lemma_same_contents_in_range(mid, u0, n);
    let head = Seq::<IndexType>::empty().push(start);
    let t = tour_of(start, mid);
    lemma_start_keeps_contents(nodes_upto(n), start as int);
    lemma_multiset_commutative(head, mid);
    assert(t.take(n) =~= head + mid);
    assert(t.take(n).to_multiset() == head.to_multiset().add(mid.to_multiset()));
    assert(head.to_multiset().add(mid.to_multiset())
        =~= head.to_multiset().add(u0.to_multiset()));
    assert(path_in_range(t, n)) by {
        assert(forall|i: int| 1 <= i < n ==> t[i] == mid[i - 1]);
        assert(t[0] == start);
        assert(t[n] == start);
    }
}

/// Every valid tour is its start node wrapped around a permutation of the
/// remaining nodes.
pub proof fn lemma_tour_decomposition(q: Seq<IndexType>, n: int, start: IndexType)
    requires
        valid_tour(q, n, start),
    ensures
        q.subrange(1, n).to_multiset() == nodes_upto(n).remove(start as int).to_multiset(),
        q == tour_of(start, q.subrange(1, n)),
{
    broadcast use vstd::multiset::group_multiset_axioms;

    let mid = q.subrange(1, n);
    let u0 = nodes_upto(n).remove(start as int);
    let head = Seq::<IndexType>::empty().push(start);
    assert(q.take(n) =~= head + mid);
    lemma_multiset_commutative(head, mid);
    lemma_start_keeps_contents(nodes_upto(n), start as int);
    assert(nodes_upto(n)[start as int] == start);
    let hm = head.to_multiset();
    let m1 = mid.to_multiset();
    let m2 = u0.to_multiset();
    assert(hm.add(m1) == nodes_upto(n).to_multiset());
    assert(hm.add(m2) == nodes_upto(n).to_multiset());
    assert forall|x: IndexType| m1.count(x) == m2.count(x) by {
        assert(hm.add(m1).count(x) == hm.count(x) + m1.count(x));
        assert(hm.add(m2).count(x) == hm.count(x) + m2.count(x));
    }
    assert(m1 =~= m2);
    assert(q =~= tour_of(start, mid));
}

/// Builds the tour `[start] + mid + [start]`.
fn make_tour(start: IndexType, mid: &Vec<IndexType>) -> (t: PathType)
    ensures
        t@ == tour_of(start, mid@),
{
    let mut t: PathType = Vec::new();
    t.push(start);
    proof {
        assert(t@ =~= Seq::<IndexType>::empty().push(start) + mid@.take(0));
    }
    let mut i: usize = 0;
    while i < mid.len()
        invariant
            i <= mid@.len(),
            t@ == Seq::<IndexType>::empty().push(start) + mid@.take(i as int),
        decreases mid@.len() - i,
    {
        t.push(mid[i]);
        proof {
            assert(t@ =~= Seq::<IndexType>::empty().push(start) + mid@.take(i as int + 1));
        }
        i = i + 1;
    }
    proof {
        assert(mid@.take(mid@.len() as int) =~= mid@);
    }
    t.push(start);
    t
}

impl BruteForceSolver {
    /// Creates a solver with no recorded result.
    pub fn new() -> (s: Self)
        ensures
            s.stored_cost() is None,
            s.stored_path() is None,
    {
        Self { optimal_path: None, optimal_cost: None }
    }
}

impl Solver for BruteForceSolver {
    closed spec fn stored_cost(&self) -> Option<ValueType> {
        self.optimal_cost
    }

    closed spec fn stored_path(&self) -> Option<Seq<IndexType>> {
        match self.optimal_path {
            Some(p) => Some(p@),
            None => None,
        }
    }

    /// Exhaustive search walks the permutations of the non-start nodes, and
    /// the permutation enumerator takes at most 16 elements.
    open spec fn strategy_requires(g: Seq<Seq<i32>>) -> bool {
        g.len() <= 17
    }

    /// The returned tour is globally optimal: no valid tour from the same
    /// starting node costs less.
    open spec fn strategy_ensures(
        g: Seq<Seq<i32>>,
        start: IndexType,
        cost: ValueType,
        path: Seq<IndexType>,
    ) -> bool {
        forall|q: Seq<IndexType>|
            #[trigger] valid_tour(q, g.len() as int, start) ==> cost as int <= path_cost(g, q)
    }

    fn solve_from_node(&mut self, graph: &GraphType, starting_node: IndexType) -> Option<
        (ValueType, PathType),
    > {
        let ghost g = graph.deep_view();
        proof {
            lemma_graph_view(graph);
        }
        if starting_node >= graph.len() {
            return None;
        }

        let problem_size = graph.len();
        let ghost n = problem_size as int;
        let mut unvisited: Vec<IndexType> = nodes_vec(problem_size);
        unvisited.remove(starting_node);
        let ghost u0 = unvisited@;

        proof {
            lemma_remove_in_range(nodes_upto(n), starting_node as int, n);
        }

        let perms: Vec<Vec<IndexType>> = all_permutations(&unvisited);
        proof {
            lemma_perms_view(&perms);
            assert(u0.to_multiset() == unvisited@.to_multiset());
            assert(exists|i: int|
                0 <= i < perms.deep_view().len() && perms.deep_view()[i] == u0);
        }

        let mut path: PathType = make_tour(starting_node, &perms[0]);
        proof {
            lemma_tour_of_valid(perms.deep_view()[0], n, starting_node);
            lemma_prefix_costs_fit(g, path@);
        }
        let mut min_cost: ValueType = calculate_cost(graph, &path);

        let mut idx: usize = 1;
        while idx < perms.len()
            invariant
                g == graph.deep_view(),
                valid_graph(g),
                graph_cost_safe(g),
                g.len() == n,
                g.len() == graph@.len(),
                0 < n,
                (starting_node as int) < n,
                1 <= idx <= perms@.len(),
                perms.deep_view().len() == perms@.len(),
                forall|i: int| 0 <= i < perms@.len() ==> perms.deep_view()[i] == perms@[i]@,
                forall|i: int|
                    0 <= i < perms@.len() ==> (#[trigger] perms.deep_view()[i]).to_multiset()
                        == u0.to_multiset(),
                u0 == nodes_upto(n).remove(starting_node as int),
                valid_tour(path@, n, starting_node),
                min_cost as int == path_cost(g, path@),
                forall|i: int|
                    0 <= i < idx ==> min_cost as int <= path_cost(
                        g,
                        tour_of(starting_node, #[trigger] perms.deep_view()[i]),
                    ),
            decreases perms@.len() - idx,
        {
            let considered_path: PathType = make_tour(starting_node, &perms[idx]);
            proof {
                lemma_tour_of_valid(perms.deep_view()[idx as int], n, starting_node);
                lemma_prefix_costs_fit(g, considered_path@);
            }
            let considered_cost: ValueType = calculate_cost(graph, &considered_path);
            if considered_cost < min_cost {
                min_cost = considered_cost;
                path = considered_path;
            }
            idx = idx + 1;
        }

        proof {
            assert forall|q: Seq<IndexType>|
                #[trigger] valid_tour(q, n, starting_node) implies min_cost as int <= path_cost(
                g,
                q,
            ) by {
                lemma_tour_decomposition(q, n, starting_node);
                let mid = q.subrange(1, n);
                let i = choose|i: int|
                    0 <= i < perms.deep_view().len() && perms.deep_view()[i] == mid;
                assert(min_cost as int <= path_cost(g, tour_of(starting_node, mid)));
            }
        }

        self.optimal_path = Some(copy_path(&path));

        proof {
            lemma_prefix_costs_fit(g, path@);
        }
        let cost: ValueType = calculate_cost(graph, &path);
        self.optimal_cost = Some(cost);

        Some((cost, path))
    }

    fn solve(&mut self, graph: &GraphType) -> Option<(ValueType, PathType)> {
        self.solve_from_node(graph, 0)
    }

    fn get_cost(&self) -> Option<ValueType> {
        self.optimal_cost
    }

    fn get_path(&self) -> Option<PathType> {
        match &self.optimal_path {
            Some(p) => Some(copy_path(p)),
            None => None,
        }
    }
}

} // verus!
