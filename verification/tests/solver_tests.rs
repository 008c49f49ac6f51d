use atsp_solvers::{BruteForceSolver, GreedySolver, RandomSolver, Solver};

fn is_valid_tour(path: &Vec<usize>, n: usize, start: usize) -> bool {
    if path.len() != n + 1 {
        return false;
    }
    if path[0] != start || path[n] != start {
        return false;
    }
    let mut seen = vec![false; n];
    for &node in path[..n].iter() {
        if node >= n || seen[node] {
            return false;
        }
        seen[node] = true;
    }
    seen.iter().all(|&s| s)
}

fn square(rows: Vec<Vec<i32>>) -> Vec<Vec<i32>> {
    let n = rows.len();
    for row in rows.iter() {
        assert_eq!(row.len(), n);
    }
    rows
}

fn example_graph() -> Vec<Vec<i32>> {
    square(vec![vec![0, 1, 2], vec![1, 0, 3], vec![2, 3, 0]])
}

#[test]
fn brute_force_three_nodes_is_optimal() {
    let graph = example_graph();
    let mut solver = BruteForceSolver::new();
    let (cost, path) = solver.solve_from_node(&graph, 0).unwrap();
    assert_eq!(cost, 6);
    assert!(path == vec![0, 1, 2, 0] || path == vec![0, 2, 1, 0]);
}

#[test]
fn brute_force_prefers_cheap_cycle() {
    let graph = square(vec![vec![0, 9, 1], vec![1, 0, 9], vec![9, 1, 0]]);
    let mut solver = BruteForceSolver::new();
    let (cost, path) = solver.solve_from_node(&graph, 0).unwrap();
    assert_eq!(cost, 3);
    assert_eq!(path, vec![0, 2, 1, 0]);
}

#[test]
fn brute_force_not_worse_than_any_permutation() {
    let graph = square(vec![
        vec![0, 3, 7, 2],
        vec![8, 0, 5, 4],
        vec![6, 1, 0, 9],
        vec![3, 2, 8, 0],
    ]);
    let mut solver = BruteForceSolver::new();
    let (cost, _) = solver.solve_from_node(&graph, 0).unwrap();
    let perms: [[usize; 3]; 6] =
        [[1, 2, 3], [1, 3, 2], [2, 1, 3], [2, 3, 1], [3, 1, 2], [3, 2, 1]];
    for perm in perms.iter() {
        let tour = vec![0, perm[0], perm[1], perm[2], 0];
        let mut tour_cost = 0i32;
        for pair in tour.windows(2) {
            tour_cost += graph[pair[0]][pair[1]];
        }
        assert!(cost <= tour_cost);
    }
}

#[test]
fn greedy_follows_nearest_neighbor() {
    let graph = example_graph();
    let mut solver = GreedySolver::new();
    let (cost, path) = solver.solve_from_node(&graph, 0).unwrap();
    // From 0 the cheapest neighbor is 1 (cost 1), then 2 (cost 3), then home.
    assert_eq!(path, vec![0, 1, 2, 0]);
    assert_eq!(cost, 1 + 3 + 2);
}

#[test]
fn greedy_breaks_ties_toward_first_scanned() {
    let graph = square(vec![vec![0, 5, 5], vec![5, 0, 5], vec![5, 5, 0]]);
    let mut solver = GreedySolver::new();
    let (cost, path) = solver.solve_from_node(&graph, 0).unwrap();
    assert_eq!(path, vec![0, 1, 2, 0]);
    assert_eq!(cost, 15);
}

#[test]
fn greedy_is_deterministic() {
    let graph = square(vec![
        vec![0, 3, 7, 2],
        vec![8, 0, 5, 4],
        vec![6, 1, 0, 9],
        vec![3, 2, 8, 0],
    ]);
    let mut first = GreedySolver::new();
    let mut second = GreedySolver::new();
    let a = first.solve_from_node(&graph, 1).unwrap();
    let b = second.solve_from_node(&graph, 1).unwrap();
    assert_eq!(a, b);
    let again = first.solve_from_node(&graph, 1).unwrap();
    assert_eq!(a, again);
}

#[test]
fn random_tours_are_valid() {
    let graph = square(vec![
        vec![0, 3, 7, 2],
        vec![8, 0, 5, 4],
        vec![6, 1, 0, 9],
        vec![3, 2, 8, 0],
    ]);
    let mut solver = RandomSolver::new();
    for start in 0..4 {
        for _ in 0..20 {
            let (cost, path) = solver.solve_from_node(&graph, start).unwrap();
            assert!(is_valid_tour(&path, 4, start));
            let mut tour_cost = 0i32;
            for pair in path.windows(2) {
                tour_cost += graph[pair[0]][pair[1]];
            }
            assert_eq!(cost, tour_cost);
        }
    }
}

#[test]
fn every_solver_returns_valid_tours() {
    let graph = example_graph();
    let mut random = RandomSolver::new();
    let mut greedy = GreedySolver::new();
    let mut brute = BruteForceSolver::new();
    for start in 0..3 {
        let (_, p) = random.solve_from_node(&graph, start).unwrap();
        assert!(is_valid_tour(&p, 3, start));
        let (_, p) = greedy.solve_from_node(&graph, start).unwrap();
        assert!(is_valid_tour(&p, 3, start));
        let (_, p) = brute.solve_from_node(&graph, start).unwrap();
        assert!(is_valid_tour(&p, 3, start));
    }
}

#[test]
fn single_node_graph_gives_trivial_tour() {
    let graph = square(vec![vec![0]]);

    let mut random = RandomSolver::new();
    let (cost, path) = random.solve_from_node(&graph, 0).unwrap();
    assert_eq!((cost, path), (0, vec![0, 0]));

    let mut greedy = GreedySolver::new();
    let (cost, path) = greedy.solve_from_node(&graph, 0).unwrap();
    assert_eq!((cost, path), (0, vec![0, 0]));

    let mut brute = BruteForceSolver::new();
    let (cost, path) = brute.solve_from_node(&graph, 0).unwrap();
    assert_eq!((cost, path), (0, vec![0, 0]));
}

#[test]
fn out_of_range_start_returns_none() {
    let graph = example_graph();
    assert!(RandomSolver::new().solve_from_node(&graph, 5).is_none());
    assert!(GreedySolver::new().solve_from_node(&graph, 5).is_none());
    assert!(BruteForceSolver::new().solve_from_node(&graph, 5).is_none());
    assert!(RandomSolver::new().solve_from_node(&graph, 3).is_none());
}

#[test]
fn empty_graph_rejects_every_start() {
    let graph: Vec<Vec<i32>> = vec![];
    assert!(RandomSolver::new().solve(&graph).is_none());
    assert!(GreedySolver::new().solve(&graph).is_none());
    assert!(BruteForceSolver::new().solve(&graph).is_none());
}

#[test]
fn solve_starts_at_node_zero() {
    let graph = example_graph();
    let mut solver = GreedySolver::new();
    let from_zero = solver.solve(&graph).unwrap();
    let mut other = GreedySolver::new();
    let explicit = other.solve_from_node(&graph, 0).unwrap();
    assert_eq!(from_zero, explicit);
    assert_eq!(from_zero.1[0], 0);
}

#[test]
fn getters_return_last_result() {
    let graph = example_graph();
    let mut solver = BruteForceSolver::new();
    assert!(solver.get_cost().is_none());
    assert!(solver.get_path().is_none());
    let (cost, path) = solver.solve_from_node(&graph, 1).unwrap();
    assert_eq!(solver.get_cost(), Some(cost));
    assert_eq!(solver.get_path(), Some(path));
}

#[test]
fn failed_solve_keeps_previous_result() {
    let graph = example_graph();
    let mut solver = GreedySolver::new();
    let (cost, path) = solver.solve_from_node(&graph, 2).unwrap();
    assert!(solver.solve_from_node(&graph, 9).is_none());
    assert_eq!(solver.get_cost(), Some(cost));
    assert_eq!(solver.get_path(), Some(path));
}

#[test]
fn negative_edge_costs_are_summed() {
    let graph = square(vec![vec![0, -4, 2], vec![-4, 0, 3], vec![2, 3, 0]]);
    let mut solver = BruteForceSolver::new();
    let (cost, _) = solver.solve_from_node(&graph, 0).unwrap();
    // Both tours cross every edge class once: -4 + 3 + 2.
    assert_eq!(cost, 1);
}
