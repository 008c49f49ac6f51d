use vstd::prelude::*;

verus! {

use crate::cost::{graph_cost_safe, path_cost};
use crate::graph::{valid_graph, valid_tour};
use crate::types::{GraphType, IndexType, PathType, ValueType};

/// The capability shared by the tour-building strategies.
///
/// A solver turns a valid graph and a starting node into a closed tour and
/// its cost, records that pair, and hands back copies of the recorded pair
/// on request. The only failure is a starting node that is not an index
/// into the graph, answered with `None` and untouched recorded state.
pub trait Solver: Sized {
    /// The cost recorded by the most recent successful solve, if any.
    spec fn stored_cost(&self) -> Option<ValueType>;

    /// The path recorded by the most recent successful solve, if any.
    spec fn stored_path(&self) -> Option<Seq<IndexType>>;

    /// Any bound the strategy puts on the graphs it accepts, beyond the
    /// graph being valid and cost-safe.
    spec fn strategy_requires(g: Seq<Seq<i32>>) -> bool;

    /// What the strategy promises of a returned pair, beyond the path being
    /// a valid tour whose cost is the returned cost.
    spec fn strategy_ensures(
        g: Seq<Seq<i32>>,
        start: IndexType,
        cost: ValueType,
        path: Seq<IndexType>,
    ) -> bool;

    /// Builds a tour starting and ending at `starting_node`, records the
    /// (cost, path) pair, and returns it; returns `None`, recording
    /// nothing, iff `starting_node` is out of range.
    fn solve_from_node(&mut self, graph: &GraphType, starting_node: IndexType) -> (r: Option<
        (ValueType, PathType),
    >)
        requires
            valid_graph(graph.deep_view()),
            graph_cost_safe(graph.deep_view()),
            Self::strategy_requires(graph.deep_view()),
        ensures
            r is Some <==> (starting_node as int) < graph@.len(),
            r is None ==> final(self).stored_cost() == old(self).stored_cost()
                && final(self).stored_path() == old(self).stored_path(),
            r matches Some(cp) ==> {
                &&& valid_tour(cp.1@, graph@.len() as int, starting_node)
                &&& cp.0 as int == path_cost(graph.deep_view(), cp.1@)
                &&& Self::strategy_ensures(graph.deep_view(), starting_node, cp.0, cp.1@)
                &&& final(self).stored_cost() == Some(cp.0)
                &&& final(self).stored_path() == Some(cp.1@)
            },
    ;

    /// Builds a tour from node 0: `solve_from_node(graph, 0)`.
    fn solve(&mut self, graph: &GraphType) -> (r: Option<(ValueType, PathType)>)
        requires
            valid_graph(graph.deep_view()),
            graph_cost_safe(graph.deep_view()),
            Self::strategy_requires(graph.deep_view()),
        ensures
            r is Some <==> 0 < graph@.len(),
            r is None ==> final(self).stored_cost() == old(self).stored_cost()
                && final(self).stored_path() == old(self).stored_path(),
            r matches Some(cp) ==> {
                &&& valid_tour(cp.1@, graph@.len() as int, 0)
                &&& cp.0 as int == path_cost(graph.deep_view(), cp.1@)
                &&& Self::strategy_ensures(graph.deep_view(), 0, cp.0, cp.1@)
                &&& final(self).stored_cost() == Some(cp.0)
                &&& final(self).stored_path() == Some(cp.1@)
            },
    ;

    /// The cost of the most recent successful solve, or `None` if none yet.
    fn get_cost(&self) -> (r: Option<ValueType>)
        ensures
            r == self.stored_cost(),
    ;

    /// A copy of the path of the most recent successful solve, or `None`.
    fn get_path(&self) -> (r: Option<PathType>)
        ensures
            r is Some <==> self.stored_path() is Some,
            r matches Some(p) ==> self.stored_path() == Some(p@),
    ;
}

} // verus!
