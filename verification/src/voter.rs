//! Voters: a credit budget, a strategy, and a signed allocation ledger over
//! issues, charged at quadratic cost per allocation call.

use vstd::prelude::*;

use crate::errors::SimError;
use crate::fixed::{cost_of, cost_spec, sat_add, sat_add_spec, MAX_VOTE};

verus! {

/// The closed set of strategy tags, used for grouping in the statistics.
#[derive(Clone, Copy, Debug, PartialEq, Eq, Structural)]
pub enum StrategyType {
    Random,
    Optimal,
    Coordinated,
    Malicious,
    SybilAttack,
}

/// A voter's behaviour during the voting phase. Magnitudes and probabilities
/// are micro-scaled fixed-point values.
pub enum Strategy {
    /// Picks a few issues at random; draws each magnitude from the mild range
    /// or, with probability `intensity_bias` millionths, the intense range.
    Random { mild_lo: i64, mild_hi: i64, intense_lo: i64, intense_hi: i64, intensity_bias: i64 },
    /// Spreads the budget over the issues it cares most about, in proportion
    /// to drawn preference magnitudes.
    Optimal,
    /// Casts the maximal affordable vote of a fixed sign on each target,
    /// the budget spread equally across the targets.
    Coordinated { group_id: u64, targets: Vec<u64>, positive: bool },
    /// Casts maximal negative votes spread equally across the targets.
    Malicious { targets: Vec<u64> },
    /// One attacker controlling several identities, each with the full
    /// budget, each voting as Malicious on the targets.
    SybilAttack { targets: Vec<u64>, num_sybils: u64 },
}

impl Strategy {
    /// The tag of this strategy.
    pub open spec fn tag(self) -> StrategyType {
        match self {
            Strategy::Random { .. } => StrategyType::Random,
            Strategy::Optimal => StrategyType::Optimal,
            Strategy::Coordinated { .. } => StrategyType::Coordinated,
            Strategy::Malicious { .. } => StrategyType::Malicious,
            Strategy::SybilAttack { .. } => StrategyType::SybilAttack,
        }
    }

    /// Structurally sound parameters: ordered ranges inside the representable
    /// vote magnitudes, a probability no larger than one, and at least one
    /// sybil identity.
    pub open spec fn wf(self) -> bool {
        match self {
            Strategy::Random { mild_lo, mild_hi, intense_lo, intense_hi, intensity_bias } => {
                0 <= mild_lo <= mild_hi <= MAX_VOTE
                    && 0 <= intense_lo <= intense_hi <= MAX_VOTE
                    && 0 <= intensity_bias <= crate::MICRO
            },
            Strategy::Optimal => true,
            Strategy::Coordinated { .. } => true,
            Strategy::Malicious { .. } => true,
            Strategy::SybilAttack { num_sybils, .. } => 1 <= num_sybils,
        }
    }
}

/// Structural equality of strategies, with target lists compared by content.
pub open spec fn strat_eq(a: Strategy, b: Strategy) -> bool {
    match (a, b) {
        (
            Strategy::Random { mild_lo: a0, mild_hi: a1, intense_lo: a2, intense_hi: a3, intensity_bias: a4 },
            Strategy::Random { mild_lo: b0, mild_hi: b1, intense_lo: b2, intense_hi: b3, intensity_bias: b4 },
        ) => a0 == b0 && a1 == b1 && a2 == b2 && a3 == b3 && a4 == b4,
        (Strategy::Optimal, Strategy::Optimal) => true,
        (
            Strategy::Coordinated { group_id: ag, targets: at, positive: ap },
            Strategy::Coordinated { group_id: bg, targets: bt, positive: bp },
        ) => ag == bg && at@ == bt@ && ap == bp,
        (Strategy::Malicious { targets: at }, Strategy::Malicious { targets: bt }) => at@ == bt@,
        (
            Strategy::SybilAttack { targets: at, num_sybils: an },
            Strategy::SybilAttack { targets: bt, num_sybils: bn },
        ) => at@ == bt@ && an == bn,
        _ => false,
    }
}

/// The tag of a strategy, for grouping in statistics.
pub fn strategy_type(strategy: &Strategy) -> (t: StrategyType)
    ensures
        t == strategy.tag(),
{
    match strategy {
        Strategy::Random { .. } => StrategyType::Random,
        Strategy::Optimal => StrategyType::Optimal,
        Strategy::Coordinated { .. } => StrategyType::Coordinated,
        Strategy::Malicious { .. } => StrategyType::Malicious,
        Strategy::SybilAttack { .. } => StrategyType::SybilAttack,
    }
}

/// A copy of a target list.
pub fn copy_targets(v: &Vec<u64>) -> (r: Vec<u64>)
    ensures
        r@ == v@,
{
    let mut out: Vec<u64> = Vec::new();
    let mut i: usize = 0;
    while i < v.len()
        invariant
            i <= v.len(),
            out@ == v@.subrange(0, i as int),
        decreases v.len() - i,
    {
        out.push(v[i]);
        proof {
            assert(out@ =~= v@.subrange(0, i as int + 1));
        }
        i = i + 1;
    }
    proof {
        assert(out@ =~= v@);
    }
    out
}

/// A structural copy of a strategy.
pub fn dup_strategy(s: &Strategy) -> (r: Strategy)
    ensures
        strat_eq(r, *s),
        r.tag() == s.tag(),
        r.wf() == s.wf(),
{
    match s {
        Strategy::Random { mild_lo, mild_hi, intense_lo, intense_hi, intensity_bias } => {
            Strategy::Random {
                mild_lo: *mild_lo,
                mild_hi: *mild_hi,
                intense_lo: *intense_lo,
                intense_hi: *intense_hi,
                intensity_bias: *intensity_bias,
            }
        },
        Strategy::Optimal => Strategy::Optimal,
        Strategy::Coordinated { group_id, targets, positive } => {
            Strategy::Coordinated {
                group_id: *group_id,
                targets: copy_targets(targets),
                positive: *positive,
            }
        },
        Strategy::Malicious { targets } => Strategy::Malicious { targets: copy_targets(targets) },
        Strategy::SybilAttack { targets, num_sybils } => {
            Strategy::SybilAttack { targets: copy_targets(targets), num_sybils: *num_sybils }
        },
    }
}

/// The allocation ledger entry for an issue: a missing entry counts as zero.
pub open spec fn alloc_at(a: Seq<i64>, i: int) -> int {
    if 0 <= i < a.len() {
        a[i] as int
    } else {
        0
    }
}

/// `post` carries `pre` unchanged as its opening segment: a ledger history
/// is only ever appended to.
pub open spec fn history_extends(pre: Seq<int>, post: Seq<int>) -> bool {
    pre.len() <= post.len() && post.subrange(0, pre.len() as int) == pre
}

/// Extension of histories is transitive.
pub proof fn lemma_history_extends_trans(a: Seq<int>, b: Seq<int>, c: Seq<int>)
    requires
        history_extends(a, b),
        history_extends(b, c),
    ensures
        history_extends(a, c),
{
    assert(c.subrange(0, a.len() as int) =~= a) by {
        assert(forall|i: int| 0 <= i < a.len() ==> c.subrange(0, a.len() as int)[i]
            == c.subrange(0, b.len() as int)[i] && b.subrange(0, a.len() as int)[i] == a[i]);
    }
}

/// The total quadratic cost of a history of per-call vote increments.
pub open spec fn total_cost(h: Seq<int>) -> int
    decreases h.len(),
{
    if h.len() == 0 {
        0
    } else {
        total_cost(h.drop_last()) + cost_spec(h.last())
    }
}

/// A voter.
pub struct Voter {
    /// Dense identifier assigned on registration.
    pub id: u64,
    /// The voter's behaviour in the voting phase.
    pub strategy: Strategy,
    /// Credit budget at creation, in micro-credits; immutable afterwards.
    pub original_budget: i64,
    /// Credits not yet spent, in micro-credits.
    pub remaining_credits: i64,
    /// Net vote per issue id, in micro-votes; a missing entry is zero.
    pub allocations: Vec<i64>,
    /// Whether this record is the first-registered identity of its sybil
    /// batch (always true for non-sybil voters).
    pub sybil_leader: bool,
    /// The per-call vote increments accepted so far.
    pub history: Ghost<Seq<int>>,
}

impl Voter {
    /// Budget accounting is consistent: credits stay within the original
    /// budget, and the spent amount is exactly the summed quadratic cost of
    /// the accepted increments.
    pub open spec fn wf(self) -> bool {
        &&& 0 <= self.remaining_credits <= self.original_budget
        &&& self.remaining_credits as int
            == self.original_budget as int - total_cost(self.history@)
        &&& self.strategy.wf()
    }

    /// A fresh voter with a full budget and an empty ledger.
    pub fn new(id: u64, strategy: Strategy, budget: i64, sybil_leader: bool) -> (v: Voter)
        requires
            budget >= 0,
            strategy.wf(),
        ensures
            v.wf(),
            v.id == id,
            strat_eq(v.strategy, strategy),
            v.original_budget == budget,
            v.remaining_credits == budget,
            v.allocations@.len() == 0,
            v.sybil_leader == sybil_leader,
            v.history@.len() == 0,
    {
        let v = Voter {
            id,
            strategy,
            original_budget: budget,
            remaining_credits: budget,
            allocations: Vec::new(),
            sybil_leader,
            history: Ghost(Seq::empty()),
        };
        proof {
            assert(strat_eq(v.strategy, v.strategy)) by {
                match v.strategy {
                    Strategy::Random { .. } => {},
                    Strategy::Optimal => {},
                    Strategy::Coordinated { .. } => {},
                    Strategy::Malicious { .. } => {},
                    Strategy::SybilAttack { .. } => {},
                }
            }
        }
        v
    }

    /// Adds a signed vote increment `v` on `issue` at quadratic cost. The
    /// check and the spend are atomic: a magnitude whose cost is not
    /// representable is rejected as `InvalidVote`, one whose cost exceeds the
    /// remaining credits as `InsufficientCredits`, and either rejection
    /// leaves the voter untouched. A zero increment succeeds and costs
    /// nothing.
    pub fn allocate(&mut self, issue: usize, v: i64) -> (r: Result<(), SimError>)
        requires
            old(self).wf(),
        ensures
            final(self).wf(),
            final(self).id == old(self).id,
            final(self).strategy == old(self).strategy,
            final(self).original_budget == old(self).original_budget,
            final(self).sybil_leader == old(self).sybil_leader,
            final(self).remaining_credits <= old(self).remaining_credits,
            history_extends(old(self).history@, final(self).history@),
            (v > MAX_VOTE || v < -MAX_VOTE) ==> r == Err::<(), SimError>(SimError::InvalidVote)
                && *final(self) == *old(self),
            (-MAX_VOTE <= v <= MAX_VOTE && cost_spec(v as int)
                > old(self).remaining_credits as int) ==> r == Err::<(), SimError>(
                SimError::InsufficientCredits) && *final(self) == *old(self),
            (-MAX_VOTE <= v <= MAX_VOTE && cost_spec(v as int)
                <= old(self).remaining_credits as int) ==> {
                &&& r == Ok::<(), SimError>(())
                &&& final(self).remaining_credits as int
                    == old(self).remaining_credits as int - cost_spec(v as int)
                &&& final(self).history@ == old(self).history@.push(v as int)
                &&& alloc_at(final(self).allocations@, issue as int)
                    == sat_add_spec(alloc_at(old(self).allocations@, issue as int), v as int)
                &&& forall|j: int| j != issue as int
                    ==> alloc_at(final(self).allocations@, j)
                        == alloc_at(old(self).allocations@, j)
            },
    {
        if v > MAX_VOTE || v < -MAX_VOTE {
            proof {
                assert(self.history@.subrange(0, self.history@.len() as int)
                    =~= self.history@);
            }
            return Err(SimError::InvalidVote);
        }
        let cost = cost_of(v);
        if cost > self.remaining_credits {
            proof {
                assert(self.history@.subrange(0, self.history@.len() as int)
                    =~= self.history@);
            }
            return Err(SimError::InsufficientCredits);
        }
        let ghost snap = *self;
        while self.allocations.len() <= issue
            invariant
                forall|j: int| #![auto] alloc_at(self.allocations@, j)
                    == alloc_at(snap.allocations@, j),
                self.id == snap.id,
                self.strategy == snap.strategy,
                self.original_budget == snap.original_budget,
                self.remaining_credits == snap.remaining_credits,
                self.sybil_leader == snap.sybil_leader,
                self.history == snap.history,
            decreases issue + 1 - self.allocations.len(),
        {
            self.allocations.push(0i64);
        }
        let cur = self.allocations[issue];
        let updated = sat_add(cur, v);
        self.allocations.set(issue, updated);
        self.remaining_credits = self.remaining_credits - cost;
        proof {
            self.history@ = old(self).history@.push(v as int);
        }
        proof {
            let h = self.history@;
            assert(h.drop_last() =~= old(self).history@);
            assert(total_cost(h) == total_cost(old(self).history@) + cost_spec(v as int));
            assert(cost_spec(v as int) >= 0) by (nonlinear_arith);
            assert(h.subrange(0, old(self).history@.len() as int) =~= old(self).history@);
        }
        Ok(())
    }
}

/// Every voter's remaining credits lie between zero and the original budget.
pub proof fn lemma_budget_bounds(v: Voter)
    requires
        v.wf(),
    ensures
        0 <= v.remaining_credits <= v.original_budget,
{
}

/// The spent part of a voter's budget is exactly the sum of the quadratic
/// costs of the per-call increments — not the cost of the final net vote.
pub proof fn lemma_spent_is_summed_cost(v: Voter)
    requires
        v.wf(),
    ensures
        v.original_budget as int - v.remaining_credits as int == total_cost(v.history@),
{
}

} // verus!
