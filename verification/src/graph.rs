use vstd::prelude::*;

verus! {

use crate::types::{GraphType, IndexType, PathType};
use vstd::multiset::Multiset;

/// A graph is a square matrix of edge costs: every row has as many entries
/// as there are rows, and node indices are `0..n-1` where `n` is the row
/// count.
pub open spec fn valid_graph(g: Seq<Seq<i32>>) -> bool {
    forall|i: int| 0 <= i < g.len() ==> (#[trigger] g[i]).len() == g.len()
}

/// Every node named by `p` is an index into a graph of `n` nodes.
pub open spec fn path_in_range(p: Seq<usize>, n: int) -> bool {
    forall|i: int| 0 <= i < p.len() ==> (#[trigger] p[i]) < n
}

/// The nodes of an `n`-node graph, in index order.
pub open spec fn nodes_upto(n: int) -> Seq<usize> {
    Seq::new(n as nat, |i: int| i as usize)
}

/// A completed tour of an `n`-node graph starting at `start`: `n+1`
/// entries, the first and last equal to `start`, every entry a node of the
/// graph, and the first `n` entries visiting every node exactly once.
pub open spec fn valid_tour(p: Seq<usize>, n: int, start: usize) -> bool {
    &&& 0 < n
    &&& (start as int) < n
    &&& p.len() == n + 1
    &&& p[0] == start
    &&& p[n] == start
    &&& path_in_range(p, n)
    &&& p.take(n).to_multiset() == nodes_upto(n).to_multiset()
}

/// The deep view of a cost matrix is its rows' views, row by row.
pub proof fn lemma_graph_view(g: &GraphType)
    ensures
        g.deep_view().len() == g@.len(),
        forall|i: int| 0 <= i < g@.len() ==> g.deep_view()[i] == g@[i]@,
{
    assert forall|i: int| 0 <= i < g@.len() implies g.deep_view()[i] == g@[i]@ by {
        assert(g@[i].deep_view() =~= g@[i]@);
    }
}

/// Starting a path with node `all[s]` and the unvisited pool with the rest
/// covers exactly the contents of `all`.
pub proof fn lemma_start_keeps_contents(all: Seq<usize>, s: int)
    requires
        0 <= s < all.len(),
    ensures
        Seq::empty().push(all[s]).to_multiset().add(all.remove(s).to_multiset())
            == all.to_multiset(),
{
    broadcast use vstd::seq_lib::group_to_multiset_ensures;
    broadcast use vstd::multiset::group_multiset_axioms;

    assert(all.contains(all[s]));
    assert(Seq::<usize>::empty().to_multiset() =~= Multiset::<usize>::empty()) by {
        assert(forall|a: usize| !Seq::<usize>::empty().contains(a));
    }
    assert(Seq::empty().push(all[s]).to_multiset().add(all.remove(s).to_multiset())
        =~= all.to_multiset());
}

/// Moving one node from the unvisited pool to the end of the path keeps the
/// combined contents unchanged.
pub proof fn lemma_step_keeps_contents(path: Seq<usize>, u: Seq<usize>, all: Seq<usize>, i: int)
    requires
        0 <= i < u.len(),
        path.to_multiset().add(u.to_multiset()) == all.to_multiset(),
    ensures
        path.push(u[i]).to_multiset().add(u.remove(i).to_multiset()) == all.to_multiset(),
{
    broadcast use vstd::seq_lib::group_to_multiset_ensures;
    broadcast use vstd::multiset::group_multiset_axioms;

    assert(u.contains(u[i]));
    assert(path.push(u[i]).to_multiset().add(u.remove(i).to_multiset()) =~= all.to_multiset());
}

/// Two sequences with the same contents have the same length and draw their
/// entries from the same values.
pub proof fn lemma_same_contents_same_values(a: Seq<usize>, b: Seq<usize>)
    requires
        a.to_multiset() == b.to_multiset(),
    ensures
        a.len() == b.len(),
        forall|i: int| 0 <= i < a.len() ==> b.contains(#[trigger] a[i]),
{
    a.to_multiset_ensures();
    b.to_multiset_ensures();
    assert forall|i: int| 0 <= i < a.len() implies b.contains(a[i]) by {
        assert(a.contains(a[i]));
        assert(a.to_multiset().count(a[i]) > 0);
        assert(b.to_multiset().count(a[i]) > 0);
    }
}

/// A sequence whose contents equal those of an in-range sequence is itself
/// in range.
pub proof fn lemma_same_contents_in_range(a: Seq<usize>, b: Seq<usize>, n: int)
    requires
        a.to_multiset() == b.to_multiset(),
        path_in_range(b, n),
    ensures
        a.len() == b.len(),
        path_in_range(a, n),
{
    lemma_same_contents_same_values(a, b);
    assert forall|i: int| 0 <= i < a.len() implies (a[i] as int) < n by {
        let j = choose|j: int| 0 <= j < b.len() && b[j] == a[i];
        assert((b[j] as int) < n);
    }
}

/// An empty sequence has empty contents.
pub proof fn lemma_empty_to_multiset(u: Seq<usize>)
    requires
        u.len() == 0,
    ensures
        u.to_multiset() == Multiset::<usize>::empty(),
{
    broadcast use vstd::seq_lib::group_to_multiset_ensures;

    assert(forall|a: usize| !u.contains(a));
    assert(u.to_multiset() =~= Multiset::<usize>::empty());
}

/// Removing an entry keeps a sequence in range.
pub proof fn lemma_remove_in_range(u: Seq<usize>, i: int, n: int)
    requires
        0 <= i < u.len(),
        path_in_range(u, n),
    ensures
        path_in_range(u.remove(i), n),
{
    assert forall|j: int| 0 <= j < u.remove(i).len() implies (u.remove(i)[j] as int) < n by {
        if j < i {
            assert(u.remove(i)[j] == u[j]);
        } else {
            assert(u.remove(i)[j] == u[j + 1]);
        }
    }
}

/// A path that has exhausted the unvisited pool and returns to its start is
/// a valid tour once the start is appended.
pub proof fn lemma_finished_tour(path: Seq<usize>, u: Seq<usize>, n: int, start: usize)
    requires
        0 < n,
        (start as int) < n,
        u.len() == 0,
        1 <= path.len(),
        path[0] == start,
        path_in_range(path, n),
        path.to_multiset().add(u.to_multiset()) == nodes_upto(n).to_multiset(),
    ensures
        path.len() == n,
        valid_tour(path.push(start), n, start),
{
    broadcast use vstd::multiset::group_multiset_axioms;

    lemma_empty_to_multiset(u);
    assert(path.to_multiset() =~= nodes_upto(n).to_multiset());
    lemma_same_contents_same_values(path, nodes_upto(n));
    let t = path.push(start);
    assert(t.take(n) =~= path);
    assert(path_in_range(t, n)) by {
        assert(forall|i: int| 0 <= i < path.len() ==> t[i] == path[i]);
        assert(t[n] == start);
    }
}

/// All node indices of an `n`-node graph, in increasing order.
pub fn nodes_vec(n: usize) -> (v: Vec<IndexType>)
    ensures
        v@ == nodes_upto(n as int),
{
    let mut v: Vec<usize> = Vec::new();
    let mut k: usize = 0;
    while k < n
        invariant
            k <= n,
            v@ == nodes_upto(k as int),
        decreases n - k,
    {
        v.push(k);
        proof {
            assert(v@ =~= nodes_upto(k as int + 1));
        }
        k = k + 1;
    }
    v
}

/// An element-for-element copy of a path.
pub fn copy_path(p: &PathType) -> (r: PathType)
    ensures
        r@ == p@,
{
    let mut r: Vec<usize> = Vec::new();
    let mut i: usize = 0;
    while i < p.len()
        invariant
            i <= p@.len(),
            r@ == p@.take(i as int),
        decreases p@.len() - i,
    {
        r.push(p[i]);
        proof {
            assert(r@ =~= p@.take(i as int + 1));
        }
        i = i + 1;
    }
    proof {
        assert(p@.take(p@.len() as int) =~= p@);
    }
    r
}

} // verus!
