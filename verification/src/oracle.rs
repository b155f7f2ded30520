//! The compute half of the external belief oracles: a bridge out of scope
//! here fetches conditional-market odds and hands them in as plain micro
//! values; the acceptance rule on them lives here, and accepted odds are
//! pushed into a market through `FutarchySimulator::buy`.

use vstd::prelude::*;

verus! {

/// Lowest outcome price (one percent, in micro units) an external market may
/// report before it is dismissed as manipulative or illiquid.
pub const MIN_ODDS: i64 = 10_000;

/// Highest acceptable outcome price (ninety-nine percent, in micro units).
pub const MAX_ODDS: i64 = 990_000;

/// Whether a fetched odds vector is acceptable: every outcome price within
/// one and ninety-nine percent.
pub fn odds_acceptable(odds: &Vec<i64>) -> (r: bool)
    ensures
        r == forall|j: int| 0 <= j < odds@.len() ==> MIN_ODDS <= (#[trigger] odds@[j])
            <= MAX_ODDS,
{
    let mut i: usize = 0;
    while i < odds.len()
        invariant
            i <= odds@.len(),
            forall|j: int| 0 <= j < i as int ==> MIN_ODDS <= (#[trigger] odds@[j]) <= MAX_ODDS,
        decreases odds@.len() - i,
    {
        let p = odds[i];
        if p < MIN_ODDS || p > MAX_ODDS {
            return false;
        }
        i = i + 1;
    }
    true
}

} // verus!
