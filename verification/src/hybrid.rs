//! The hybrid coordinator: quadratic voting selects and weights the welfare
//! metric, then futarchy markets decide policy proposals, the resolution
//! impact scaled by the sum of the metric weights (one by construction; the
//! factor is kept as given).

use vstd::prelude::*;

use vstd::arithmetic::div_mod::{
    lemma_div_pos_is_pos, lemma_fundamental_div_mod, lemma_mod_bound,
};

use crate::errors::SimError;
use crate::fixed::sat_add_spec;
use crate::futarchy::FutarchySimulator;
use crate::lmsr::{OUTCOME_PASS, OUTCOME_REJECT, PRICE_SCALE};
use crate::qv::QVSimulator;
use crate::rng::{draw_coin, draw_i64};
use crate::voter::{strat_eq, Strategy};

verus! {

/// The positive part of the first `k` tallies, summed exactly.
pub open spec fn pos_total(t: Seq<i64>, k: int) -> int
    decreases k,
{
    if k <= 0 {
        0
    } else {
        pos_total(t, k - 1) + (if t[k - 1] > 0 {
            t[k - 1] as int
        } else {
            0
        })
    }
}

/// How many of the first `k` tallies are positive.
pub open spec fn count_pos(t: Seq<i64>, k: int) -> int
    decreases k,
{
    if k <= 0 {
        0
    } else {
        count_pos(t, k - 1) + (if t[k - 1] > 0 {
            1int
        } else {
            0int
        })
    }
}

/// The weight entries of the positively-tallied options among the first `k`:
/// `(option, tally * PRICE_SCALE / total)` in option order.
pub open spec fn pos_weights(t: Seq<i64>, k: int, total: int) -> Seq<(u64, i64)>
    decreases k,
{
    if k <= 0 {
        Seq::empty()
    } else {
        let rest = pos_weights(t, k - 1, total);
        if t[k - 1] > 0 {
            rest.push((((k - 1) as u64), (((t[k - 1] as int) * (PRICE_SCALE as int)
                / total) as i64)))
        } else {
            rest
        }
    }
}

/// One uniform weight entry per option among the first `k` of `n` options.
pub open spec fn uniform_weights(k: int, n: int) -> Seq<(u64, i64)>
    decreases k,
{
    if k <= 0 {
        Seq::empty()
    } else {
        uniform_weights(k - 1, n).push((((k - 1) as u64), ((PRICE_SCALE as int / n) as i64)))
    }
}

/// The metric weights derived from a tally vector: positive tallies are
/// normalised by the positive mass; if there is none, the weights are
/// uniform over all options.
pub open spec fn weights_spec(t: Seq<i64>) -> Seq<(u64, i64)> {
    if pos_total(t, t.len() as int) > 0 {
        pos_weights(t, t.len() as int, pos_total(t, t.len() as int))
    } else {
        uniform_weights(t.len() as int, t.len() as int)
    }
}

/// A resolution impact scaled by a weight mass — the scaling rounds the
/// magnitude down, toward zero — clamped into range.
pub open spec fn scaled_impact(imp: int, wsum: int) -> int {
    if imp >= 0 {
        crate::fixed::sat_i64_spec((imp * wsum) / (PRICE_SCALE as int))
    } else {
        crate::fixed::sat_i64_spec(-((-imp * wsum) / (PRICE_SCALE as int)))
    }
}

/// The sum of the weights of a weight sequence.
pub open spec fn weight_sum(w: Seq<(u64, i64)>) -> int
    decreases w.len(),
{
    if w.len() == 0 {
        0
    } else {
        weight_sum(w.drop_last()) + w.last().1 as int
    }
}

proof fn lemma_pos_total_nonneg(t: Seq<i64>, k: int)
    ensures
        pos_total(t, k) >= 0,
    decreases k,
{
    if k > 0 {
        lemma_pos_total_nonneg(t, k - 1);
    }
}

/// A positive tally never exceeds the positive mass it contributes to.
proof fn lemma_pos_total_element(t: Seq<i64>, j: int, k: int)
    requires
        0 <= j < k,
    ensures
        t[j] > 0 ==> t[j] as int <= pos_total(t, k),
    decreases k,
{
    if j == k - 1 {
        lemma_pos_total_nonneg(t, k - 1);
    } else {
        lemma_pos_total_element(t, j, k - 1);
    }
}

proof fn lemma_pos_weights_sum(t: Seq<i64>, k: int, total: int)
    requires
        1 <= total,
        k <= t.len(),
        forall|j: int| 0 <= j < t.len() && t[j] > 0 ==> (#[trigger] t[j]) as int <= total,
    ensures
        weight_sum(pos_weights(t, k, total)) * total <= pos_total(t, k) * (PRICE_SCALE as int),
        weight_sum(pos_weights(t, k, total)) * total >= pos_total(t, k) * (PRICE_SCALE as int)
            - count_pos(t, k) * (total - 1),
    decreases k,
{
    let ps = PRICE_SCALE as int;
    if k <= 0 {
    } else {
        lemma_pos_weights_sum(t, k - 1, total);
        let s0 = weight_sum(pos_weights(t, k - 1, total));
        let p0 = pos_total(t, k - 1);
        let c0 = count_pos(t, k - 1);
        if t[k - 1] > 0 {
            let tv = t[k - 1] as int;
            let w = (tv * ps) / total;
            let r = (tv * ps) % total;
            lemma_fundamental_div_mod(tv * ps, total);
            lemma_mod_bound(tv * ps, total);
            assert(0 <= tv * ps) by (nonlinear_arith)
                requires 0 <= tv, 0 <= ps;
            lemma_div_pos_is_pos(tv * ps, total);
            assert(w <= ps) by (nonlinear_arith)
                requires
                    tv * ps == total * w + r,
                    0 <= r < total,
                    1 <= total,
                    0 <= w,
                    tv <= total,
                    0 <= ps;
            let entry = (((k - 1) as u64), (w as i64));
            assert(pos_weights(t, k, total) == pos_weights(t, k - 1, total).push(entry));
            assert(pos_weights(t, k, total).drop_last() =~= pos_weights(t, k - 1, total));
            assert(pos_weights(t, k, total).last() == entry);
            assert(entry.1 as int == w);
            assert(weight_sum(pos_weights(t, k, total)) == s0 + w);
            assert((s0 + w) * total <= (p0 + tv) * ps && (s0 + w) * total >= (p0 + tv) * ps - (
            c0 + 1) * (total - 1)) by (nonlinear_arith)
                requires
                    s0 * total <= p0 * ps,
                    s0 * total >= p0 * ps - c0 * (total - 1),
                    tv * ps == total * w + r,
                    0 <= r < total;
        } else {
            assert(pos_weights(t, k, total) == pos_weights(t, k - 1, total));
            assert(pos_total(t, k) == p0);
            assert(count_pos(t, k) == c0);
        }
    }
}

/// A positive positive-mass needs at least one positive tally.
proof fn lemma_count_pos_positive(t: Seq<i64>, k: int)
    ensures
        count_pos(t, k) >= 0,
        count_pos(t, k) <= (if k >= 0 { k } else { 0 }),
        pos_total(t, k) > 0 ==> count_pos(t, k) >= 1,
    decreases k,
{
    if k > 0 {
        lemma_count_pos_positive(t, k - 1);
    }
}

proof fn lemma_uniform_weights_sum(k: int, n: int)
    requires
        1 <= n,
        0 <= k,
    ensures
        weight_sum(uniform_weights(k, n)) == k * ((PRICE_SCALE as int) / n),
    decreases k,
{
    let ps = PRICE_SCALE as int;
    if k == 0 {
    } else {
        lemma_uniform_weights_sum(k - 1, n);
        let q = ps / n;
        let r = ps % n;
        lemma_fundamental_div_mod(ps, n);
        lemma_mod_bound(ps, n);
        assert(0 <= q <= ps) by (nonlinear_arith)
            requires
                ps == n * q + r,
                0 <= r < n,
                1 <= n,
                1 <= ps;
        let entry = (((k - 1) as u64), (q as i64));
        assert(uniform_weights(k, n) == uniform_weights(k - 1, n).push(entry));
        assert(uniform_weights(k, n).drop_last() =~= uniform_weights(k - 1, n));
        assert(uniform_weights(k, n).last() == entry);
        assert(entry.1 as int == q);
        assert(k * q == (k - 1) * q + q) by (nonlinear_arith);
    }
}

/// The weights always sum to one, up to one price-scale unit lost per
/// weighted option to rounding: with any positive tally the sum lies in
/// `(1 - c * 10^-12, 1]` where `c` counts the positive tallies, and with
/// none it lies in `(1 - n * 10^-12, 1]` for `n` options. Up to a thousand
/// options the sum is therefore within `10^-9` of one.
pub proof fn lemma_weight_sum_one(t: Seq<i64>)
    requires
        t.len() >= 1,
    ensures
        weight_sum(weights_spec(t)) <= PRICE_SCALE as int,
        pos_total(t, t.len() as int) > 0 ==> weight_sum(weights_spec(t))
            > PRICE_SCALE as int - count_pos(t, t.len() as int),
        pos_total(t, t.len() as int) <= 0 ==> weight_sum(weights_spec(t))
            > PRICE_SCALE as int - t.len() as int,
        t.len() <= 1000 ==> weight_sum(weights_spec(t)) > PRICE_SCALE as int - 1000,
{
    let ps = PRICE_SCALE as int;
    let n = t.len() as int;
    let total = pos_total(t, n);
    lemma_count_pos_positive(t, n);
    if total > 0 {
        assert forall|j: int| 0 <= j < t.len() && t[j] > 0 implies (#[trigger] t[j]) as int
            <= total by {
            lemma_pos_total_element(t, j, n);
        }
        lemma_pos_weights_sum(t, n, total);
        lemma_count_pos_positive(t, n);
        let s = weight_sum(pos_weights(t, n, total));
        let c = count_pos(t, n);
        assert(s <= ps && s > ps - c) by (nonlinear_arith)
            requires
                s * total <= total * ps,
                s * total >= total * ps - c * (total - 1),
                1 <= c,
                1 <= total;
    } else {
        lemma_uniform_weights_sum(n, n);
        lemma_fundamental_div_mod(ps, n);
        lemma_mod_bound(ps, n);
        let q = ps / n;
        let r = ps % n;
        assert(n * q <= ps && n * q > ps - n) by (nonlinear_arith)
            requires
                ps == n * q + r,
                0 <= r < n;
    }
}

/// The metric weights of a tally vector: for each positively-tallied option
/// its share of the positive mass, at the price scale; uniform over all
/// options when no tally is positive. Exactly `weights_spec`.
pub fn compute_weights(tallies: &Vec<i64>) -> (w: Vec<(u64, i64)>)
    requires
        tallies@.len() <= 0x7fff_ffff,
    ensures
        w@ == weights_spec(tallies@),
        forall|j: int| 0 <= j < w@.len() ==> 0 <= (#[trigger] w@[j]).1
            && w@[j].1 <= PRICE_SCALE,
        w@.len() <= tallies@.len(),
{
    let n = tallies.len();
    let mut total: i128 = 0;
    let mut i: usize = 0;
    while i < n
        invariant
            i <= n,
            n == tallies@.len(),
            n <= 0x7fff_ffff,
            total as int == pos_total(tallies@, i as int),
            0 <= total as int <= (i as int) * (i64::MAX as int),
        decreases n - i,
    {
        let tv = tallies[i];
        proof {
            assert((i as int) * (i64::MAX as int) + (i64::MAX as int)
                == (i as int + 1) * (i64::MAX as int)) by (nonlinear_arith);
        }
        if tv > 0 {
            total = total + (tv as i128);
        }
        i = i + 1;
    }
    let mut w: Vec<(u64, i64)> = Vec::new();
    if total > 0 {
        let mut k: usize = 0;
        while k < n
            invariant
                k <= n,
                n == tallies@.len(),
                n <= 0x7fff_ffff,
                1 <= total as int,
                total as int == pos_total(tallies@, n as int),
                total as int <= 0x7fff_ffff * (i64::MAX as int),
                w@ == pos_weights(tallies@, k as int, total as int),
                forall|j: int| 0 <= j < w@.len() ==> 0 <= (#[trigger] w@[j]).1
                    && w@[j].1 <= PRICE_SCALE,
                w@.len() <= k as int,
            decreases n - k,
        {
            let tv = tallies[k];
            if tv > 0 {
                proof {
                    let t128 = total as int;
                    lemma_pos_total_element(tallies@, k as int, n as int);
                    assert(0 <= (tv as int) * (PRICE_SCALE as int)
                        <= (i64::MAX as int) * (PRICE_SCALE as int)) by (nonlinear_arith)
                        requires 0 < tv as int <= i64::MAX as int;
                    lemma_div_pos_is_pos((tv as int) * (PRICE_SCALE as int), t128);
                    lemma_fundamental_div_mod((tv as int) * (PRICE_SCALE as int), t128);
                    let q = ((tv as int) * (PRICE_SCALE as int)) / t128;
                    let r = ((tv as int) * (PRICE_SCALE as int)) % t128;
                    assert(q <= (tv as int) * (PRICE_SCALE as int)) by (nonlinear_arith)
                        requires
                            (tv as int) * (PRICE_SCALE as int) == t128 * q + r,
                            0 <= r,
                            1 <= t128,
                            0 <= q;
                    assert(q <= PRICE_SCALE as int) by (nonlinear_arith)
                        requires
                            (tv as int) * (PRICE_SCALE as int) == t128 * q + r,
                            0 <= r < t128,
                            0 <= q,
                            1 <= t128,
                            tv as int >= 1,
                            tv as int <= t128,
                            0 <= PRICE_SCALE as int;
                }
                let num: i128 = (tv as i128) * (PRICE_SCALE as i128);
                let q: i128 = num / total;
                w.push((k as u64, q as i64));
            }
            k = k + 1;
        }
    } else {
        if n == 0 {
            proof {
                assert(weights_spec(tallies@) =~= Seq::<(u64, i64)>::empty());
            }
            return w;
        }
        proof {
            lemma_fundamental_div_mod(PRICE_SCALE as int, n as int);
            let q = PRICE_SCALE as int / n as int;
            let r = PRICE_SCALE as int % n as int;
            assert(0 <= q <= PRICE_SCALE as int) by (nonlinear_arith)
                requires
                    PRICE_SCALE as int == (n as int) * q + r,
                    0 <= r < n as int,
                    1 <= n as int;
        }
        let share: i64 = (PRICE_SCALE / (n as u64)) as i64;
        let mut k: usize = 0;
        while k < n
            invariant
                k <= n,
                1 <= n,
                n == tallies@.len(),
                share as int == PRICE_SCALE as int / n as int,
                0 <= share as int <= PRICE_SCALE as int,
                w@ == uniform_weights(k as int, n as int),
                forall|j: int| 0 <= j < w@.len() ==> 0 <= (#[trigger] w@[j]).1
                    && w@[j].1 <= PRICE_SCALE,
                w@.len() <= k as int,
            decreases n - k,
        {
            w.push((k as u64, share));
            k = k + 1;
        }
    }
    w
}

/// The hybrid simulator: a quadratic-voting engine over the metric options
/// and a futarchy engine over the policy proposals. Each engine's randomness
/// stream is derived from one master seed (the futarchy stream by xor with
/// an odd 64-bit constant), so a run is a pure function of the seed.
pub struct HybridSimulator {
    /// The voting phase: its issues are the metric options.
    pub qv: QVSimulator,
    /// The market phase over the policy proposals.
    pub futarchy: FutarchySimulator,
}

impl HybridSimulator {
    /// Both engines well-formed, the option count bounded so that weight
    /// arithmetic stays exact.
    pub open spec fn wf(self) -> bool {
        &&& self.qv.wf()
        &&& self.futarchy.wf()
        &&& self.qv.issues@.len() <= 0x7fff_ffff
    }

    /// A fresh hybrid simulator.
    pub fn new(seed: u64, initial_metric: i64) -> (sim: HybridSimulator)
        ensures
            sim.wf(),
            sim.qv.issues@.len() == 0,
            sim.qv.voters@.len() == 0,
            sim.qv.tallies@.len() == 0,
            sim.qv.sybil_resistance_enabled,
            sim.futarchy.proposals@.len() == 0,
            sim.futarchy.current_metric == initial_metric,
    {
        HybridSimulator {
            qv: QVSimulator::new(seed),
            futarchy: FutarchySimulator::new(seed ^ 0x9E37_79B9_7F4A_7C15, initial_metric),
        }
    }

    /// Registers a metric option for the voting phase; returns its dense id.
    pub fn add_metric_option(&mut self, description: String) -> (r: u64)
        requires
            old(self).wf(),
            old(self).qv.issues@.len() < 0x7fff_ffff,
        ensures
            final(self).wf(),
            r as int == old(self).qv.issues@.len(),
            final(self).qv.issues@.len() == old(self).qv.issues@.len() + 1,
            final(self).qv.voters == old(self).qv.voters,
            final(self).qv.tallies == old(self).qv.tallies,
            final(self).qv.sybil_resistance_enabled == old(self).qv.sybil_resistance_enabled,
            final(self).futarchy == old(self).futarchy,
    {
        self.qv.add_issue(description)
    }

    /// Registers a voter for the voting phase (see `QVSimulator::add_voter`).
    pub fn add_voter(&mut self, strategy: Strategy, budget: i64) -> (r: Result<u64, SimError>)
        requires
            old(self).wf(),
            old(self).qv.voters@.len() + 0x1_0000_0000 < u64::MAX,
        ensures
            final(self).wf(),
            final(self).qv.issues == old(self).qv.issues,
            final(self).qv.tallies == old(self).qv.tallies,
            final(self).qv.sybil_resistance_enabled == old(self).qv.sybil_resistance_enabled,
            final(self).futarchy == old(self).futarchy,
            (budget < 0 || !strategy.wf()) ==> r == Err::<u64, SimError>(SimError::InvalidConfig)
                && final(self).qv.voters == old(self).qv.voters,
            (budget >= 0 && strategy.wf()) ==> {
                &&& r == Ok::<u64, SimError>(old(self).qv.voters@.len() as u64)
                &&& final(self).qv.voters@.len() > old(self).qv.voters@.len()
                &&& forall|k: int| 0 <= k < old(self).qv.voters@.len()
                    ==> final(self).qv.voters@[k] == old(self).qv.voters@[k]
                &&& forall|k: int| old(self).qv.voters@.len() <= k < final(self).qv.voters@.len()
                    ==> {
                        let v = #[trigger] final(self).qv.voters@[k];
                        &&& v.wf()
                        &&& v.id as int == k
                        &&& strat_eq(v.strategy, strategy)
                        &&& v.original_budget == budget
                        &&& v.remaining_credits == budget
                        &&& v.allocations@.len() == 0
                        &&& v.sybil_leader == (k == old(self).qv.voters@.len())
                    }
                &&& (strategy matches Strategy::SybilAttack { num_sybils, .. }
                    ==> final(self).qv.voters@.len() - old(self).qv.voters@.len()
                        == if num_sybils <= 0x1_0000_0000u64 {
                            num_sybils as int
                        } else {
                            0x1_0000_0000
                        })
                &&& (!(strategy matches Strategy::SybilAttack { .. })
                    ==> final(self).qv.voters@.len() == old(self).qv.voters@.len() + 1)
            },
    {
        self.qv.add_voter(strategy, budget)
    }

    /// The voting phase: drives every voter through its strategy over the
    /// metric options, tallies, and normalises the positive tallies into
    /// metric weights (uniform weights if no tally is positive). Rejected as
    /// `InvalidConfig` without options or without voters.
    pub fn run_qv_phase(&mut self) -> (r: Result<Vec<(u64, i64)>, SimError>)
        requires
            old(self).wf(),
        ensures
            final(self).wf(),
            final(self).futarchy == old(self).futarchy,
            final(self).qv.issues == old(self).qv.issues,
            (old(self).qv.issues@.len() == 0 || old(self).qv.voters@.len() == 0) ==> r
                == Err::<Vec<(u64, i64)>, SimError>(SimError::InvalidConfig),
            (old(self).qv.issues@.len() > 0 && old(self).qv.voters@.len() > 0) ==> {
                &&& r is Ok
                &&& final(self).qv.voters@.len() == old(self).qv.voters@.len()
                &&& forall|k: int| 0 <= k < old(self).qv.voters@.len()
                    ==> crate::qv::voter_voted(
                        old(self).qv.voters@[k],
                        #[trigger] final(self).qv.voters@[k],
                        old(self).qv.issues@.len() as int,
                    )
                &&& r.unwrap()@ == weights_spec(final(self).qv.tallies@)
                &&& final(self).qv.tallies@.len() == old(self).qv.issues@.len()
                &&& forall|i: int| 0 <= i < final(self).qv.tallies@.len()
                    ==> (#[trigger] final(self).qv.tallies@[i]) as int == crate::qv::tally_spec(
                        final(self).qv.voters@,
                        final(self).qv.voters@.len() as int,
                        i,
                        final(self).qv.sybil_resistance_enabled,
                    )
                &&& forall|j: int| 0 <= j < r.unwrap()@.len() ==> 0 <= (#[trigger] r.unwrap()@[
                    j]).1 && r.unwrap()@[j].1 <= PRICE_SCALE
                &&& r.unwrap()@.len() <= 0x7fff_ffff
            },
    {
        if self.qv.issues.len() == 0 {
            return Err(SimError::InvalidConfig);
        }
        match self.qv.vote_according_to_strategy() {
            Ok(()) => {},
            Err(e) => {
                return Err(e);
            },
        }
        self.qv.tally();
        let w = compute_weights(&self.qv.tallies);
        Ok(w)
    }

    /// Submits a policy proposal with its Pass/Reject market pair (see
    /// `FutarchySimulator::submit_proposal`).
    pub fn submit_proposal(&mut self, description: String, liquidity: i64) -> (r: Result<
        u64,
        SimError,
    >)
        requires
            old(self).wf(),
            old(self).futarchy.proposals@.len() < u64::MAX,
        ensures
            final(self).wf(),
            final(self).qv == old(self).qv,
            final(self).futarchy.current_metric == old(self).futarchy.current_metric,
            liquidity < 1 ==> r == Err::<u64, SimError>(SimError::InvalidConfig)
                && final(self).futarchy.proposals == old(self).futarchy.proposals
                && final(self).futarchy.markets == old(self).futarchy.markets
                && final(self).futarchy.resolved == old(self).futarchy.resolved,
            liquidity >= 1 ==> {
                &&& r == Ok::<u64, SimError>(old(self).futarchy.proposals@.len() as u64)
                &&& final(self).futarchy.proposals@.len()
                    == old(self).futarchy.proposals@.len() + 1
                &&& final(self).futarchy.markets@.len() == old(self).futarchy.markets@.len() + 1
                &&& forall|i: int| 0 <= i < old(self).futarchy.markets@.len()
                    ==> final(self).futarchy.markets@[i] == old(self).futarchy.markets@[i]
                        && final(self).futarchy.resolved@[i] == old(self).futarchy.resolved@[i]
                &&& final(self).futarchy.markets@.last().0.b == liquidity
                &&& final(self).futarchy.markets@.last().0.q_pass == 0
                &&& final(self).futarchy.markets@.last().0.q_reject == 0
                &&& final(self).futarchy.markets@.last().1.b == liquidity
                &&& final(self).futarchy.markets@.last().1.q_pass == 0
                &&& final(self).futarchy.markets@.last().1.q_reject == 0
                &&& final(self).futarchy.resolved@.last() == false
            },
    {
        self.futarchy.submit_proposal(description, liquidity)
    }

    /// Runs `rounds` synthetic trading rounds on the pass-branch market of a
    /// proposal: each round a trader buys between one and twenty shares, of
    /// the Pass outcome with probability 0.6 and of the Reject outcome
    /// otherwise, so that market's combined share count grows by one to
    /// twenty shares per round (short only where a count saturates at the
    /// top of its range). Unknown ids are rejected as `UnknownProposal`,
    /// resolved proposals as `AlreadyResolved`.
    pub fn simulate_futarchy_trading(&mut self, proposal_id: u64, rounds: usize) -> (r: Result<
        (),
        SimError,
    >)
        requires
            old(self).wf(),
        ensures
            final(self).wf(),
            final(self).qv == old(self).qv,
            final(self).futarchy.proposals == old(self).futarchy.proposals,
            final(self).futarchy.resolved == old(self).futarchy.resolved,
            final(self).futarchy.current_metric == old(self).futarchy.current_metric,
            final(self).futarchy.markets@.len() == old(self).futarchy.markets@.len(),
            proposal_id as int >= old(self).futarchy.proposals@.len() ==> r == Err::<
                (), SimError>(SimError::UnknownProposal) && final(self).futarchy.markets == old(
                self).futarchy.markets,
            (proposal_id as int) < old(self).futarchy.proposals@.len()
                && old(self).futarchy.resolved@[proposal_id as int] ==> r == Err::<(), SimError>(
                SimError::AlreadyResolved) && final(self).futarchy.markets == old(
                self).futarchy.markets,
            ((proposal_id as int) < old(self).futarchy.proposals@.len()
                && !old(self).futarchy.resolved@[proposal_id as int]) ==> {
                &&& r == Ok::<(), SimError>(())
                &&& forall|i: int| 0 <= i < old(self).futarchy.markets@.len()
                    && i != proposal_id as int ==> final(self).futarchy.markets@[i] == old(
                    self).futarchy.markets@[i]
                &&& {
                    let po = old(self).futarchy.markets@[proposal_id as int];
                    let pn = final(self).futarchy.markets@[proposal_id as int];
                    let grown = (pn.0.q_pass as int + pn.0.q_reject as int) - (
                    po.0.q_pass as int + po.0.q_reject as int);
                    &&& pn.1 == po.1
                    &&& pn.0.b == po.0.b
                    &&& pn.0.q_pass >= po.0.q_pass
                    &&& pn.0.q_reject >= po.0.q_reject
                    &&& grown <= rounds as int * (20 * (crate::MICRO as int) - 1)
                    &&& (pn.0.q_pass == i64::MAX || pn.0.q_reject == i64::MAX || grown
                        >= rounds as int * (crate::MICRO as int))
                }
            },
    {
        let n = self.futarchy.proposals.len();
        if proposal_id >= n as u64 {
            return Err(SimError::UnknownProposal);
        }
        let pid = proposal_id as usize;
        if self.futarchy.resolved[pid] {
            return Err(SimError::AlreadyResolved);
        }
        let mut round: usize = 0;
        while round < rounds
            invariant
                self.qv == old(self).qv,
                self.futarchy.wf(),
                self.qv.wf(),
                self.qv.issues@.len() <= 0x7fff_ffff,
                pid < self.futarchy.markets@.len(),
                self.futarchy.proposals == old(self).futarchy.proposals,
                self.futarchy.resolved == old(self).futarchy.resolved,
                self.futarchy.current_metric == old(self).futarchy.current_metric,
                self.futarchy.markets@.len() == old(self).futarchy.markets@.len(),
                forall|i: int| 0 <= i < old(self).futarchy.markets@.len() && i != pid as int
                    ==> self.futarchy.markets@[i] == old(self).futarchy.markets@[i],
                self.futarchy.markets@[pid as int].1 == old(self).futarchy.markets@[
                    pid as int].1,
                self.futarchy.markets@[pid as int].0.b == old(self).futarchy.markets@[
                    pid as int].0.b,
                self.futarchy.markets@[pid as int].0.q_pass >= old(self).futarchy.markets@[
                    pid as int].0.q_pass,
                self.futarchy.markets@[pid as int].0.q_reject >= old(self).futarchy.markets@[
                    pid as int].0.q_reject,
                round <= rounds,
                (self.futarchy.markets@[pid as int].0.q_pass as int
                    + self.futarchy.markets@[pid as int].0.q_reject as int) - (
                old(self).futarchy.markets@[pid as int].0.q_pass as int
                    + old(self).futarchy.markets@[pid as int].0.q_reject as int)
                    <= round as int * (20 * (crate::MICRO as int) - 1),
                self.futarchy.markets@[pid as int].0.q_pass == i64::MAX
                    || self.futarchy.markets@[pid as int].0.q_reject == i64::MAX
                    || (self.futarchy.markets@[pid as int].0.q_pass as int
                        + self.futarchy.markets@[pid as int].0.q_reject as int) - (
                    old(self).futarchy.markets@[pid as int].0.q_pass as int
                        + old(self).futarchy.markets@[pid as int].0.q_reject as int)
                        >= round as int * (crate::MICRO as int),
            decreases rounds - round,
        {
            let on_pass_outcome = draw_coin(&mut self.futarchy.rng, 600_000);
            let outcome = if on_pass_outcome {
                OUTCOME_PASS
            } else {
                OUTCOME_REJECT
            };
            let amount = draw_i64(&mut self.futarchy.rng, crate::MICRO, 20 * crate::MICRO - 1);
            let res = self.futarchy.markets[pid].0.buy(outcome, amount);
            proof {
                assert(res is Ok);
                let m = crate::MICRO as int;
                assert(round as int * (20 * m - 1) + (20 * m - 1) == (round as int + 1) * (20 * m
                    - 1)) by (nonlinear_arith);
                assert(round as int * m + m == (round as int + 1) * m) by (nonlinear_arith);
            }
            round = round + 1;
        }
        Ok(())
    }

    /// Resolves a proposal: it passes exactly when its pass-branch market
    /// prices Pass higher than its reject-branch market does. The metric
    /// then moves by a drawn impact — between five and twenty points for a
    /// passing decision, between minus ten and five for a rejected one —
    /// scaled by the sum of the supplied metric weights (one, up to
    /// rounding, for weights from `run_qv_phase`).
    pub fn resolve_proposal(&mut self, proposal_id: u64, weights: &Vec<(u64, i64)>) -> (r:
        Result<bool, SimError>)
        requires
            old(self).wf(),
            weights@.len() <= 0x7fff_ffff,
            forall|j: int| 0 <= j < weights@.len() ==> 0 <= (#[trigger] weights@[j]).1
                && weights@[j].1 <= PRICE_SCALE,
        ensures
            final(self).wf(),
            final(self).qv == old(self).qv,
            final(self).futarchy.proposals == old(self).futarchy.proposals,
            final(self).futarchy.markets == old(self).futarchy.markets,
            final(self).futarchy.resolved@.len() == old(self).futarchy.resolved@.len(),
            proposal_id as int >= old(self).futarchy.proposals@.len() ==> r == Err::<
                bool, SimError>(SimError::UnknownProposal) && final(self).futarchy.resolved
                == old(self).futarchy.resolved && final(self).futarchy.current_metric == old(
                self).futarchy.current_metric,
            (proposal_id as int) < old(self).futarchy.proposals@.len()
                && old(self).futarchy.resolved@[proposal_id as int] ==> r == Err::<
                bool, SimError>(SimError::AlreadyResolved) && final(self).futarchy.resolved
                == old(self).futarchy.resolved && final(self).futarchy.current_metric == old(
                self).futarchy.current_metric,
            ((proposal_id as int) < old(self).futarchy.proposals@.len()
                && !old(self).futarchy.resolved@[proposal_id as int]) ==> {
                let passes = old(self).futarchy.markets@[proposal_id as int].0.diff()
                    > old(self).futarchy.markets@[proposal_id as int].1.diff();
                &&& r == Ok::<bool, SimError>(passes)
                &&& final(self).futarchy.resolved@ == old(self).futarchy.resolved@.update(
                    proposal_id as int, true)
                &&& exists|imp: int|
                    {
                        &&& (passes ==> 5 * (crate::MICRO as int) <= imp
                            < 20 * (crate::MICRO as int))
                        &&& (!passes ==> -10 * (crate::MICRO as int) <= imp
                            < 5 * (crate::MICRO as int))
                        &&& final(self).futarchy.current_metric as int == sat_add_spec(
                            old(self).futarchy.current_metric as int,
                            #[trigger] scaled_impact(imp, weight_sum(weights@)),
                        )
                    }
            },
    {
        let n = self.futarchy.proposals.len();
        if proposal_id >= n as u64 {
            return Err(SimError::UnknownProposal);
        }
        let pid = proposal_id as usize;
        if self.futarchy.resolved[pid] {
            return Err(SimError::AlreadyResolved);
        }
        let pass_diff: i128 = (self.futarchy.markets[pid].0.q_pass as i128)
            - (self.futarchy.markets[pid].0.q_reject as i128);
        let reject_diff: i128 = (self.futarchy.markets[pid].1.q_pass as i128)
            - (self.futarchy.markets[pid].1.q_reject as i128);
        let passes = pass_diff > reject_diff;
        let impact: i64 = if passes {
            draw_i64(&mut self.futarchy.rng, 5 * crate::MICRO, 20 * crate::MICRO - 1)
        } else {
            draw_i64(&mut self.futarchy.rng, -10 * crate::MICRO, 5 * crate::MICRO - 1)
        };
        let mut wsum: i128 = 0;
        let mut i: usize = 0;
        while i < weights.len()
            invariant
                i <= weights@.len(),
                weights@.len() <= 0x7fff_ffff,
                forall|j: int| 0 <= j < weights@.len() ==> 0 <= (#[trigger] weights@[j]).1
                    && weights@[j].1 <= PRICE_SCALE,
                wsum as int == weight_sum(weights@.subrange(0, i as int)),
                0 <= wsum as int <= (i as int) * (PRICE_SCALE as int),
            decreases weights@.len() - i,
        {
            proof {
                let pre = weights@.subrange(0, i as int);
                let nxt = weights@.subrange(0, i as int + 1);
                assert(nxt.drop_last() =~= pre);
                assert((i as int) * (PRICE_SCALE as int) + (PRICE_SCALE as int)
                    == (i as int + 1) * (PRICE_SCALE as int)) by (nonlinear_arith);
            }
            wsum = wsum + (weights[i].1 as i128);
            i = i + 1;
        }
        let mag: i64 = if impact < 0 {
            -impact
        } else {
            impact
        };
        proof {
            assert(weights@.subrange(0, weights@.len() as int) =~= weights@);
            assert((mag as int) * (wsum as int) <= 20_000_000 * (
            0x7fff_ffff * (PRICE_SCALE as int)) && 0 <= (mag as int) * (wsum as int))
                by (nonlinear_arith)
                requires
                    0 <= mag as int <= 20_000_000,
                    0 <= wsum as int <= 0x7fff_ffff * (PRICE_SCALE as int);
            vstd::arithmetic::div_mod::lemma_div_pos_is_pos(
                (mag as int) * (wsum as int), PRICE_SCALE as int);
        }
        let mag_wide: i128 = (mag as i128) * wsum / (PRICE_SCALE as i128);
        let scaled_wide: i128 = if impact < 0 {
            -mag_wide
        } else {
            mag_wide
        };
        let scaled: i64 = crate::fixed::sat_to_i64(scaled_wide);
        proof {
            assert(scaled as int == scaled_impact(impact as int, weight_sum(weights@)));
        }
        self.futarchy.current_metric = crate::fixed::sat_add(
            self.futarchy.current_metric,
            scaled,
        );
        self.futarchy.resolved.set(pid, true);
        proof {
            let w = weight_sum(weights@);
            let imp = impact as int;
            assert(self.futarchy.current_metric as int == sat_add_spec(
                old(self).futarchy.current_metric as int,
                scaled_impact(imp, w),
            ));
        }
        Ok(passes)
    }

    /// The composite welfare metric, in micro units.
    pub fn current_metric(&self) -> (r: i64)
        ensures
            r == self.futarchy.current_metric,
    {
        self.futarchy.current_metric
    }
}

} // verus!
