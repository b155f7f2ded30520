//! The closed error set of the simulator. Every failure is returned as a
//! value; nothing panics.

use vstd::prelude::*;

verus! {

/// Everything that can go wrong in the engines.
#[derive(Clone, Copy, Debug, PartialEq, Eq, Structural)]
pub enum SimError {
    /// A referenced issue id is not registered.
    UnknownIssue,
    /// A referenced proposal id is not registered.
    UnknownProposal,
    /// A referenced market outcome id is not registered.
    UnknownOutcome,
    /// The quadratic cost of an allocation exceeds the voter's remaining credits.
    InsufficientCredits,
    /// A vote magnitude whose quadratic cost is not representable.
    InvalidVote,
    /// Trading on, or re-resolving, an already resolved proposal.
    AlreadyResolved,
    /// Non-positive liquidity, a negative budget, zero sybil identities, or a
    /// voting phase without voters or without issues.
    InvalidConfig,
}

} // verus!
