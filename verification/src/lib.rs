//! Governance-mechanism simulator: quadratic voting with strategic voters,
//! futarchy decided by LMSR-priced conditional markets, and a hybrid of the
//! two in which voting picks the welfare metric and markets pick policies.
//!
//! All quantities that the mechanisms reason about (credits, votes, share
//! counts, prices, weights) are fixed-point integers, so every rule of the
//! engine is stated and proved exactly.

pub mod errors;
pub mod fixed;
pub mod rng;
pub mod lmsr;
pub mod voter;
pub mod qv;
pub mod stats;
pub mod futarchy;
pub mod hybrid;
pub mod oracle;

use vstd::prelude::*;

verus! {

/// Fixed-point scale for credits, votes, share counts and the welfare metric:
/// one unit is a millionth.
pub const MICRO: i64 = 1_000_000;

} // verus!
