//! The futarchy engine: policy proposals, a Pass/Reject pair of conditional
//! LMSR markets per proposal, synthetic trading rounds, and resolution.
//!
//! Each market of a pair tracks belief that the welfare metric turns out
//! well under its decision branch; `price(Pass)` of the pass-branch market
//! is compared against `price(Pass)` of the reject-branch market to decide.
//! Both markets of a pair share one liquidity parameter, and the LMSR price
//! is strictly increasing in the share difference, so that comparison is
//! made exactly, on the share differences themselves.

use vstd::prelude::*;

use crate::errors::SimError;
use crate::fixed::sat_add_spec;
use crate::lmsr::{LmsrMarket, OUTCOME_PASS};
use crate::rng::{draw_coin, draw_i64};

verus! {

/// A policy proposal put to the markets.
pub struct Proposal {
    /// Dense identifier assigned on submission.
    pub id: u64,
    /// Opaque description.
    pub description: String,
}

/// Default resolution model: a market-approved policy turns out well with
/// probability 0.7, gaining ten metric points, else losing five; a rejected
/// one leaves things well with probability 0.6, gaining five points, else
/// losing ten. All in micro units.
pub const DEFAULT_GOOD_PASS: i64 = 10_000_000;
pub const DEFAULT_BAD_PASS: i64 = -5_000_000;
pub const DEFAULT_PROB_PASS: i64 = 700_000;
pub const DEFAULT_GOOD_REJECT: i64 = 5_000_000;
pub const DEFAULT_BAD_REJECT: i64 = -10_000_000;
pub const DEFAULT_PROB_REJECT: i64 = 600_000;

/// The futarchy simulator.
pub struct FutarchySimulator {
    /// The welfare metric, in micro units; moved only by resolutions.
    pub current_metric: i64,
    /// Submitted proposals, in submission order; `proposals[i].id == i`.
    pub proposals: Vec<Proposal>,
    /// Per proposal the (pass-branch, reject-branch) market pair.
    pub markets: Vec<(LmsrMarket, LmsrMarket)>,
    /// Whether each proposal has been resolved.
    pub resolved: Vec<bool>,
    /// The seeded randomness source for trading and outcome draws.
    pub rng: rand::rngs::StdRng,
}

impl FutarchySimulator {
    /// One market pair per proposal, each market well-formed, both markets
    /// of a pair sharing the liquidity the proposal was submitted with.
    pub open spec fn wf(self) -> bool {
        &&& self.markets@.len() == self.proposals@.len()
        &&& self.resolved@.len() == self.proposals@.len()
        &&& forall|i: int| 0 <= i < self.markets@.len() ==> (#[trigger] self.markets@[i]).0.wf()
            && self.markets@[i].1.wf() && self.markets@[i].0.b == self.markets@[i].1.b
    }

    /// A fresh simulator whose randomness is a pure function of `seed`.
    pub fn new(seed: u64, initial_metric: i64) -> (sim: FutarchySimulator)
        ensures
            sim.wf(),
            sim.current_metric == initial_metric,
            sim.proposals@.len() == 0,
    {
        FutarchySimulator {
            current_metric: initial_metric,
            proposals: Vec::new(),
            markets: Vec::new(),
            resolved: Vec::new(),
            rng: crate::rng::rng_from_seed(seed),
        }
    }

    /// Submits a proposal: creates its Pass/Reject market pair, both with
    /// LMSR liquidity `liquidity` and no shares outstanding, and returns the
    /// proposal's dense id. Non-positive liquidity is rejected as
    /// `InvalidConfig`.
    pub fn submit_proposal(&mut self, description: String, liquidity: i64) -> (r: Result<
        u64,
        SimError,
    >)
        requires
            old(self).wf(),
            old(self).proposals@.len() < u64::MAX,
        ensures
            final(self).wf(),
            final(self).current_metric == old(self).current_metric,
            liquidity < 1 ==> r == Err::<u64, SimError>(SimError::InvalidConfig)
                && final(self).proposals == old(self).proposals
                && final(self).markets == old(self).markets
                && final(self).resolved == old(self).resolved,
            liquidity >= 1 ==> {
                &&& r == Ok::<u64, SimError>(old(self).proposals@.len() as u64)
                &&& final(self).proposals@.len() == old(self).proposals@.len() + 1
                &&& final(self).markets@.len() == old(self).markets@.len() + 1
                &&& forall|i: int| 0 <= i < old(self).markets@.len()
                    ==> final(self).markets@[i] == old(self).markets@[i]
                        && final(self).resolved@[i] == old(self).resolved@[i]
                &&& final(self).markets@.last().0.b == liquidity
                &&& final(self).markets@.last().0.q_pass == 0
                &&& final(self).markets@.last().0.q_reject == 0
                &&& final(self).markets@.last().1.b == liquidity
                &&& final(self).markets@.last().1.q_pass == 0
                &&& final(self).markets@.last().1.q_reject == 0
                &&& final(self).resolved@.last() == false
            },
    {
        if liquidity < 1 {
            return Err(SimError::InvalidConfig);
        }
        let id = self.proposals.len() as u64;
        self.proposals.push(Proposal { id, description });
        let pass_market = LmsrMarket::new(liquidity);
        let reject_market = LmsrMarket::new(liquidity);
        self.markets.push((pass_market, reject_market));
        self.resolved.push(false);
        Ok(id)
    }

    /// Runs `rounds` synthetic trading rounds on a proposal: each round one
    /// trader picks the pass-branch or reject-branch market with even odds
    /// and buys between one and ten Pass-outcome shares there. Share counts
    /// on the Reject outcome never move, and the pair's combined Pass count
    /// grows by one to ten shares per round (short only where a count
    /// saturates at the top of its range). An unknown proposal id is
    /// rejected as `UnknownProposal`, a resolved proposal as
    /// `AlreadyResolved`; either rejection changes nothing.
    pub fn simulate_trading(&mut self, proposal_id: u64, rounds: usize) -> (r: Result<
        (),
        SimError,
    >)
        requires
            old(self).wf(),
        ensures
            final(self).wf(),
            final(self).current_metric == old(self).current_metric,
            final(self).proposals == old(self).proposals,
            final(self).resolved == old(self).resolved,
            final(self).markets@.len() == old(self).markets@.len(),
            proposal_id as int >= old(self).proposals@.len() ==> r == Err::<(), SimError>(
                SimError::UnknownProposal) && final(self).markets == old(self).markets,
            (proposal_id as int) < old(self).proposals@.len()
                && old(self).resolved@[proposal_id as int] ==> r == Err::<(), SimError>(
                SimError::AlreadyResolved) && final(self).markets == old(self).markets,
            ((proposal_id as int) < old(self).proposals@.len()
                && !old(self).resolved@[proposal_id as int]) ==> {
                &&& r == Ok::<(), SimError>(())
                &&& forall|i: int| 0 <= i < old(self).markets@.len() && i != proposal_id as int
                    ==> final(self).markets@[i] == old(self).markets@[i]
                &&& {
                    let po = old(self).markets@[proposal_id as int];
                    let pn = final(self).markets@[proposal_id as int];
                    let grown = (pn.0.q_pass as int + pn.1.q_pass as int) - (po.0.q_pass as int
                        + po.1.q_pass as int);
                    &&& pn.0.b == po.0.b && pn.1.b == po.1.b
                    &&& pn.0.q_reject == po.0.q_reject && pn.1.q_reject == po.1.q_reject
                    &&& pn.0.q_pass >= po.0.q_pass && pn.1.q_pass >= po.1.q_pass
                    &&& grown <= rounds as int * (10 * (crate::MICRO as int) - 1)
                    &&& (pn.0.q_pass == i64::MAX || pn.1.q_pass == i64::MAX || grown
                        >= rounds as int * (crate::MICRO as int))
                }
            },
    {
        let n = self.proposals.len();
        if proposal_id >= n as u64 {
            return Err(SimError::UnknownProposal);
        }
        let pid = proposal_id as usize;
        if self.resolved[pid] {
            return Err(SimError::AlreadyResolved);
        }
        let mut round: usize = 0;
        while round < rounds
            invariant
                self.wf(),
                pid < self.markets@.len(),
                self.current_metric == old(self).current_metric,
                self.proposals == old(self).proposals,
                self.resolved == old(self).resolved,
                self.markets@.len() == old(self).markets@.len(),
                forall|i: int| 0 <= i < old(self).markets@.len() && i != pid as int
                    ==> self.markets@[i] == old(self).markets@[i],
                self.markets@[pid as int].0.b == old(self).markets@[pid as int].0.b,
                self.markets@[pid as int].1.b == old(self).markets@[pid as int].1.b,
                self.markets@[pid as int].0.q_reject
                    == old(self).markets@[pid as int].0.q_reject,
                self.markets@[pid as int].1.q_reject
                    == old(self).markets@[pid as int].1.q_reject,
                self.markets@[pid as int].0.q_pass >= old(self).markets@[pid as int].0.q_pass,
                self.markets@[pid as int].1.q_pass >= old(self).markets@[pid as int].1.q_pass,
                round <= rounds,
                (self.markets@[pid as int].0.q_pass as int
                    + self.markets@[pid as int].1.q_pass as int) - (
                old(self).markets@[pid as int].0.q_pass as int
                    + old(self).markets@[pid as int].1.q_pass as int) <= round as int * (10 * (
                crate::MICRO as int) - 1),
                self.markets@[pid as int].0.q_pass == i64::MAX
                    || self.markets@[pid as int].1.q_pass == i64::MAX
                    || (self.markets@[pid as int].0.q_pass as int
                        + self.markets@[pid as int].1.q_pass as int) - (
                    old(self).markets@[pid as int].0.q_pass as int
                        + old(self).markets@[pid as int].1.q_pass as int) >= round as int * (
                    crate::MICRO as int),
            decreases rounds - round,
        {
            let on_pass_branch = draw_coin(&mut self.rng, 500_000);
            let amount = draw_i64(&mut self.rng, crate::MICRO, 10 * crate::MICRO - 1);
            let outcome = if on_pass_branch {
                let res = self.markets[pid].0.buy(OUTCOME_PASS, amount);
                res
            } else {
                let res = self.markets[pid].1.buy(OUTCOME_PASS, amount);
                res
            };
            proof {
                assert(outcome is Ok);
                let m = crate::MICRO as int;
                assert(round as int * (10 * m - 1) + (10 * m - 1) == (round as int + 1) * (10 * m
                    - 1)) by (nonlinear_arith);
                assert(round as int * m + m == (round as int + 1) * m) by (nonlinear_arith);
            }
            round = round + 1;
        }
        Ok(())
    }

    /// Resolves a proposal under a caller-supplied outcome model: the
    /// decision passes exactly when the pass-branch market prices Pass
    /// higher than the reject-branch market does (equivalently, has the
    /// larger share difference). A passing decision then moves the metric by
    /// `good_pass` with probability `prob_pass` millionths and by `bad_pass`
    /// otherwise; a rejected one by `good_reject` with probability
    /// `prob_reject` and by `bad_reject` otherwise. The proposal is marked
    /// resolved; re-resolution is rejected as `AlreadyResolved`.
    pub fn resolve_proposal_with_impacts(
        &mut self,
        proposal_id: u64,
        good_pass: i64,
        bad_pass: i64,
        prob_pass: i64,
        good_reject: i64,
        bad_reject: i64,
        prob_reject: i64,
    ) -> (r: Result<bool, SimError>)
        requires
            old(self).wf(),
        ensures
            final(self).wf(),
            final(self).proposals == old(self).proposals,
            final(self).markets == old(self).markets,
            final(self).resolved@.len() == old(self).resolved@.len(),
            proposal_id as int >= old(self).proposals@.len() ==> r == Err::<bool, SimError>(
                SimError::UnknownProposal) && final(self).resolved == old(self).resolved
                && final(self).current_metric == old(self).current_metric,
            (proposal_id as int) < old(self).proposals@.len()
                && old(self).resolved@[proposal_id as int] ==> r == Err::<bool, SimError>(
                SimError::AlreadyResolved) && final(self).resolved == old(self).resolved
                && final(self).current_metric == old(self).current_metric,
            ((proposal_id as int) < old(self).proposals@.len()
                && !old(self).resolved@[proposal_id as int]) ==> {
                let passes = old(self).markets@[proposal_id as int].0.diff()
                    > old(self).markets@[proposal_id as int].1.diff();
                &&& r == Ok::<bool, SimError>(passes)
                &&& final(self).resolved@ == old(self).resolved@.update(
                    proposal_id as int, true)
                &&& (passes ==> final(self).current_metric as int == sat_add_spec(
                    old(self).current_metric as int, good_pass as int)
                    || final(self).current_metric as int == sat_add_spec(
                    old(self).current_metric as int, bad_pass as int))
                &&& (!passes ==> final(self).current_metric as int == sat_add_spec(
                    old(self).current_metric as int, good_reject as int)
                    || final(self).current_metric as int == sat_add_spec(
                    old(self).current_metric as int, bad_reject as int))
            },
    {
        let n = self.proposals.len();
        if proposal_id >= n as u64 {
            return Err(SimError::UnknownProposal);
        }
        let pid = proposal_id as usize;
        if self.resolved[pid] {
            return Err(SimError::AlreadyResolved);
        }
        let pass_diff: i128 = (self.markets[pid].0.q_pass as i128)
            - (self.markets[pid].0.q_reject as i128);
        let reject_diff: i128 = (self.markets[pid].1.q_pass as i128)
            - (self.markets[pid].1.q_reject as i128);
        let passes = pass_diff > reject_diff;
        let impact: i64 = if passes {
            if draw_coin(&mut self.rng, prob_pass) {
                good_pass
            } else {
                bad_pass
            }
        } else {
            if draw_coin(&mut self.rng, prob_reject) {
                good_reject
            } else {
                bad_reject
            }
        };
        self.current_metric = crate::fixed::sat_add(self.current_metric, impact);
        self.resolved.set(pid, true);
        Ok(passes)
    }

    /// Resolves a proposal under the default outcome model.
    pub fn resolve_proposal(&mut self, proposal_id: u64) -> (r: Result<bool, SimError>)
        requires
            old(self).wf(),
        ensures
            final(self).wf(),
            final(self).proposals == old(self).proposals,
            final(self).markets == old(self).markets,
            final(self).resolved@.len() == old(self).resolved@.len(),
            proposal_id as int >= old(self).proposals@.len() ==> r == Err::<bool, SimError>(
                SimError::UnknownProposal) && final(self).resolved == old(self).resolved
                && final(self).current_metric == old(self).current_metric,
            (proposal_id as int) < old(self).proposals@.len()
                && old(self).resolved@[proposal_id as int] ==> r == Err::<bool, SimError>(
                SimError::AlreadyResolved) && final(self).resolved == old(self).resolved
                && final(self).current_metric == old(self).current_metric,
            ((proposal_id as int) < old(self).proposals@.len()
                && !old(self).resolved@[proposal_id as int]) ==> {
                let passes = old(self).markets@[proposal_id as int].0.diff()
                    > old(self).markets@[proposal_id as int].1.diff();
                &&& r == Ok::<bool, SimError>(passes)
                &&& final(self).resolved@ == old(self).resolved@.update(
                    proposal_id as int, true)
                &&& (passes ==> final(self).current_metric as int == sat_add_spec(
                    old(self).current_metric as int, DEFAULT_GOOD_PASS as int)
                    || final(self).current_metric as int == sat_add_spec(
                    old(self).current_metric as int, DEFAULT_BAD_PASS as int))
                &&& (!passes ==> final(self).current_metric as int == sat_add_spec(
                    old(self).current_metric as int, DEFAULT_GOOD_REJECT as int)
                    || final(self).current_metric as int == sat_add_spec(
                    old(self).current_metric as int, DEFAULT_BAD_REJECT as int))
            },
    {
        self.resolve_proposal_with_impacts(
            proposal_id,
            DEFAULT_GOOD_PASS,
            DEFAULT_BAD_PASS,
            DEFAULT_PROB_PASS,
            DEFAULT_GOOD_REJECT,
            DEFAULT_BAD_REJECT,
            DEFAULT_PROB_REJECT,
        )
    }

    /// Buys `amount` micro-shares of `outcome` in one branch market of a
    /// proposal (branch 1 is the pass-branch market, 0 the reject-branch
    /// one). Rejected once the proposal is resolved. Lets a caller seed a
    /// market with externally obtained beliefs before trading starts.
    pub fn buy(&mut self, proposal_id: u64, branch: u64, outcome: u64, amount: i64) -> (r:
        Result<(), SimError>)
        requires
            old(self).wf(),
        ensures
            final(self).wf(),
            final(self).current_metric == old(self).current_metric,
            final(self).proposals == old(self).proposals,
            final(self).resolved == old(self).resolved,
            final(self).markets@.len() == old(self).markets@.len(),
            proposal_id as int >= old(self).proposals@.len() ==> r == Err::<(), SimError>(
                SimError::UnknownProposal) && final(self).markets == old(self).markets,
            (proposal_id as int) < old(self).proposals@.len()
                && old(self).resolved@[proposal_id as int] ==> r == Err::<(), SimError>(
                SimError::AlreadyResolved) && final(self).markets == old(self).markets,
            ((proposal_id as int) < old(self).proposals@.len()
                && !old(self).resolved@[proposal_id as int] && branch > 1) ==> r == Err::<
                (), SimError>(SimError::UnknownOutcome) && final(self).markets == old(
                self).markets,
            ((proposal_id as int) < old(self).proposals@.len()
                && !old(self).resolved@[proposal_id as int] && branch <= 1 && outcome > 1)
                ==> r == Err::<(), SimError>(SimError::UnknownOutcome) && final(self).markets
                == old(self).markets,
            ((proposal_id as int) < old(self).proposals@.len()
                && !old(self).resolved@[proposal_id as int] && branch <= 1 && outcome <= 1)
                ==> {
                &&& r == Ok::<(), SimError>(())
                &&& forall|i: int| 0 <= i < old(self).markets@.len() && i != proposal_id as int
                    ==> final(self).markets@[i] == old(self).markets@[i]
                &&& {
                    let po = old(self).markets@[proposal_id as int];
                    let pn = final(self).markets@[proposal_id as int];
                    let mo = if branch == 1 { po.0 } else { po.1 };
                    let mn = if branch == 1 { pn.0 } else { pn.1 };
                    &&& (branch == 1 ==> pn.1 == po.1)
                    &&& (branch == 0 ==> pn.0 == po.0)
                    &&& mn.b == mo.b
                    &&& (outcome == 1 ==> mn.q_pass as int == sat_add_spec(
                        mo.q_pass as int, amount as int) && mn.q_reject == mo.q_reject)
                    &&& (outcome == 0 ==> mn.q_reject as int == sat_add_spec(
                        mo.q_reject as int, amount as int) && mn.q_pass == mo.q_pass)
                }
            },
    {
        let n = self.proposals.len();
        if proposal_id >= n as u64 {
            return Err(SimError::UnknownProposal);
        }
        let pid = proposal_id as usize;
        if self.resolved[pid] {
            return Err(SimError::AlreadyResolved);
        }
        if branch > 1 {
            return Err(SimError::UnknownOutcome);
        }
        if outcome > 1 {
            return Err(SimError::UnknownOutcome);
        }
        let r = if branch == 1 {
            self.markets[pid].0.buy(outcome, amount)
        } else {
            self.markets[pid].1.buy(outcome, amount)
        };
        proof {
            assert(r is Ok);
        }
        Ok(())
    }

    /// The price of `outcome` in one branch market of a proposal, at the
    /// price scale (branch 1 is the pass-branch market, 0 the reject-branch
    /// one). Remains answerable after resolution.
    pub fn price(&self, proposal_id: u64, branch: u64, outcome: u64) -> (r: Result<
        u64,
        SimError,
    >)
        requires
            self.wf(),
        ensures
            proposal_id as int >= self.proposals@.len() ==> r == Err::<u64, SimError>(
                SimError::UnknownProposal),
            (proposal_id as int) < self.proposals@.len() && branch > 1 ==> r == Err::<
                u64, SimError>(SimError::UnknownOutcome),
            (proposal_id as int) < self.proposals@.len() && branch <= 1 && outcome > 1 ==> r
                == Err::<u64, SimError>(SimError::UnknownOutcome),
            ((proposal_id as int) < self.proposals@.len() && branch <= 1 && outcome <= 1)
                ==> {
                let m = if branch == 1 {
                    self.markets@[proposal_id as int].0
                } else {
                    self.markets@[proposal_id as int].1
                };
                r == Ok::<u64, SimError>(m.price_spec(outcome as int) as u64)
            },
    {
        let n = self.proposals.len();
        if proposal_id >= n as u64 {
            return Err(SimError::UnknownProposal);
        }
        if branch > 1 {
            return Err(SimError::UnknownOutcome);
        }
        let pid = proposal_id as usize;
        if branch == 1 {
            self.markets[pid].0.price(outcome)
        } else {
            self.markets[pid].1.price(outcome)
        }
    }

    /// The welfare metric, in micro units.
    pub fn current_metric(&self) -> (r: i64)
        ensures
            r == self.current_metric,
    {
        self.current_metric
    }
}

/// The resolution rule compares the share differences of the two branch
/// markets; since both share one liquidity and the LMSR price never
/// decreases with the share difference, the branch with the larger
/// difference prices Pass at least as high. (Over the reals the ordering is
/// strict; rounded prices can tie.)
pub proof fn lemma_decision_matches_prices(pass_m: LmsrMarket, reject_m: LmsrMarket)
    requires
        pass_m.wf(),
        reject_m.wf(),
        pass_m.b == reject_m.b,
        pass_m.diff() >= reject_m.diff(),
    ensures
        pass_m.price_spec(OUTCOME_PASS as int) >= reject_m.price_spec(OUTCOME_PASS as int),
{
    crate::lmsr::lemma_price_monotone(reject_m, pass_m);
}

} // verus!
