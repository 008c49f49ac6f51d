use vstd::prelude::*;

verus! {

/// The cost of a single edge, and of a whole tour.
pub type ValueType = i32;

/// A node index into the graph.
pub type IndexType = usize;

/// One row of the cost matrix: the costs of the edges leaving one node.
pub type RowType = Vec<ValueType>;

/// The cost matrix: entry `[i][j]` is the cost of the directed edge from
/// node `i` to node `j`.
pub type GraphType = Vec<RowType>;

/// An ordered sequence of node indices describing a (partial or closed) tour.
pub type PathType = Vec<IndexType>;

} // verus!
