//! Game state, result and runner.

pub mod result;
pub mod runner;

pub use result::GameResult;
pub use runner::GameRunner;
