//! Order-preserving encryption of integers.

pub mod engine;
pub mod hgd;
pub mod laws;
pub mod range;
pub mod stats;
pub mod tape;
