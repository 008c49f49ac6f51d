//! Solvers for the asymmetric traveling salesman problem on a complete,
//! directed graph given as a square matrix of signed integer edge costs.

pub mod brute_force;
pub mod cost;
pub mod graph;
pub mod greedy;
pub mod random;
pub mod solvers;
pub mod types;

pub use brute_force::BruteForceSolver;
pub use greedy::GreedySolver;
pub use random::RandomSolver;
pub use solvers::Solver;
