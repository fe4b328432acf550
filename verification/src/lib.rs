//! Verified index structure of time-series decomposition by singular
//! spectrum analysis and by classical moving averages.
pub mod trajectory;
pub mod diagonal;
pub mod classical;
