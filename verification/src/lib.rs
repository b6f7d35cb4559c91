//! Portfolio rebalancing: allocate a fixed cash amount across holdings so the
//! post-purchase allocation best approaches a set of target ratios, with only
//! whole-unit purchases allowed and total spending capped by the cash amount.
//!
//! All money amounts, prices and target ratios are scaled integers, so every
//! step of the computation is exact: fractional unit targets are rationals
//! with an integer numerator and positive integer denominator, and the
//! rounding search compares exact integer costs.

pub mod combos;
pub mod frac;
pub mod model;
pub mod reinvest;
pub mod resolve;
pub mod search;

pub use combos::get_rounding_combinations;
pub use frac::Frac;
pub use model::Portfolio;
pub use model::ReinvestError;
pub use model::Stock;
pub use reinvest::calculate_optimal_reinvest;
pub use resolve::get_fractional_reinvest_amounts;
pub use search::search_optimal_rounding;
