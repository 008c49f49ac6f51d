use atsp_solvers::cost::calculate_cost;
use atsp_solvers::greedy::GreedySolver;

#[test]
fn cost_sums_consecutive_edges() {
    let graph = vec![vec![0, 1, 2], vec![1, 0, 3], vec![2, 3, 0]];
    assert_eq!(calculate_cost(&graph, &vec![0, 1, 2, 0]), 6);
    assert_eq!(calculate_cost(&graph, &vec![0, 2, 1, 0]), 6);
    assert_eq!(calculate_cost(&graph, &vec![0, 1, 0]), 2);
    assert_eq!(calculate_cost(&graph, &vec![2, 2]), 0);
}

#[test]
fn cost_of_single_node_path_is_zero() {
    let graph = vec![vec![0, 1], vec![1, 0]];
    assert_eq!(calculate_cost(&graph, &vec![1]), 0);
}

#[test]
fn nearest_node_picks_first_minimum() {
    let graph = vec![vec![0, 1, 2], vec![1, 0, 3], vec![2, 3, 0]];
    let solver = GreedySolver::new();
    // From node 0, node 1 (cost 1) beats node 2 (cost 2).
    assert_eq!(solver.find_nearest_node(&graph, 0, &vec![2, 1]), 1);
    assert_eq!(solver.find_nearest_node(&graph, 0, &vec![1, 2]), 0);
    // A tie keeps the first scanned candidate.
    let flat = vec![vec![0, 5, 5], vec![5, 0, 5], vec![5, 5, 0]];
    let tied = GreedySolver::new();
    assert_eq!(tied.find_nearest_node(&flat, 0, &vec![1, 2]), 0);
    assert_eq!(tied.find_nearest_node(&flat, 0, &vec![2, 1]), 0);
}
