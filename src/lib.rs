//! Evaluation layer for 0/1 knapsack instances: the instance model, its text
//! format, the cliff scoring policy and best-ever bookkeeping.

pub mod cliff_score;
pub mod error;
pub mod item;
pub mod knapsack;
pub mod scorer;
pub mod text;
pub mod tracker;

pub use cliff_score::CliffScore;
pub use error::FormatError;
pub use item::Item;
pub use knapsack::Knapsack;
pub use scorer::CliffScorer;
pub use tracker::BestInRun;
