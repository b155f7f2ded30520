//! The quadratic-voting engine: issues, voters, the strategy-driven voting
//! phase, and the net-vote tally with optional sybil resistance.

use vstd::prelude::*;

use crate::errors::SimError;
use crate::fixed::{
    is_isqrt, isqrt, lemma_sqrt_floor, sat_add, sat_add_spec, sqrt_floor, MAX_VOTE, SQRT_BOUND,
};
use crate::rng::{draw_below, draw_coin, draw_i64};
use crate::voter::{
    alloc_at, dup_strategy, history_extends, lemma_history_extends_trans, strat_eq,
    strategy_type, Strategy, StrategyType, Voter,
};

verus! {

/// An issue put to the vote.
pub struct Issue {
    /// Dense identifier assigned on registration.
    pub id: u64,
    /// Opaque description.
    pub description: String,
}

/// Whether a voter's allocations count at tally time: with sybil resistance
/// enabled, only the first-registered identity of a sybil batch counts.
pub open spec fn counted(v: Voter, resistance: bool) -> bool {
    !(resistance && v.strategy.tag() == StrategyType::SybilAttack && !v.sybil_leader)
}

/// The tally of issue `i` over the first `k` voters: the saturating sum of
/// the counted voters' net allocations.
pub open spec fn tally_spec(voters: Seq<Voter>, k: int, i: int, resistance: bool) -> int
    decreases k,
{
    if k <= 0 {
        0
    } else {
        let prev = tally_spec(voters, k - 1, i, resistance);
        if counted(voters[k - 1], resistance) {
            sat_add_spec(prev, alloc_at(voters[k - 1].allocations@, i))
        } else {
            prev
        }
    }
}

/// The quadratic-voting simulator.
pub struct QVSimulator {
    /// Registered issues, in registration order; `issues[i].id == i`.
    pub issues: Vec<Issue>,
    /// Registered voters, sybil identities expanded; `voters[i].id == i`.
    pub voters: Vec<Voter>,
    /// The net tally per issue as of the last `tally` call.
    pub tallies: Vec<i64>,
    /// Whether non-leading sybil identities are discarded at tally time.
    pub sybil_resistance_enabled: bool,
    /// The seeded randomness source for the strategy draws.
    pub rng: rand::rngs::StdRng,
}

impl QVSimulator {
    /// Every voter's ledger is consistent.
    pub open spec fn wf(self) -> bool {
        forall|k: int| 0 <= k < self.voters@.len() ==> (#[trigger] self.voters@[k]).wf()
    }

    /// A fresh simulator with sybil resistance enabled, whose randomness is a
    /// pure function of `seed`.
    pub fn new(seed: u64) -> (sim: QVSimulator)
        ensures
            sim.wf(),
            sim.issues@.len() == 0,
            sim.voters@.len() == 0,
            sim.tallies@.len() == 0,
            sim.sybil_resistance_enabled,
    {
        QVSimulator {
            issues: Vec::new(),
            voters: Vec::new(),
            tallies: Vec::new(),
            sybil_resistance_enabled: true,
            rng: crate::rng::rng_from_seed(seed),
        }
    }

    /// Registers an issue and returns its dense id.
    pub fn add_issue(&mut self, description: String) -> (r: u64)
        requires
            old(self).wf(),
            old(self).issues@.len() < u64::MAX,
        ensures
            final(self).wf(),
            r as int == old(self).issues@.len(),
            final(self).issues@.len() == old(self).issues@.len() + 1,
            final(self).voters == old(self).voters,
            final(self).tallies == old(self).tallies,
            final(self).sybil_resistance_enabled == old(self).sybil_resistance_enabled,
    {
        let id = self.issues.len() as u64;
        self.issues.push(Issue { id, description });
        id
    }

    /// Registers a voter and returns its dense id. A sybil attack registers
    /// `num_sybils` identities, each with the full budget; the id of the
    /// first-registered identity is returned. A negative budget, or a
    /// malformed strategy (an empty sybil batch, an inverted or oversized
    /// random range), is rejected as `InvalidConfig`.
    pub fn add_voter(&mut self, strategy: Strategy, budget: i64) -> (r: Result<u64, SimError>)
        requires
            old(self).wf(),
            old(self).voters@.len() + 0x1_0000_0000 < u64::MAX,
        ensures
            final(self).wf(),
            final(self).issues == old(self).issues,
            final(self).tallies == old(self).tallies,
            final(self).sybil_resistance_enabled == old(self).sybil_resistance_enabled,
            (budget < 0 || !strategy.wf()) ==> r == Err::<u64, SimError>(SimError::InvalidConfig)
                && final(self).voters == old(self).voters,
            (budget >= 0 && strategy.wf()) ==> {
                &&& r == Ok::<u64, SimError>(old(self).voters@.len() as u64)
                &&& final(self).voters@.len() > old(self).voters@.len()
                &&& forall|k: int| 0 <= k < old(self).voters@.len()
                    ==> final(self).voters@[k] == old(self).voters@[k]
                &&& forall|k: int| old(self).voters@.len() <= k < final(self).voters@.len()
                    ==> {
                        let v = #[trigger] final(self).voters@[k];
                        &&& v.wf()
                        &&& v.id as int == k
                        &&& strat_eq(v.strategy, strategy)
                        &&& v.original_budget == budget
                        &&& v.remaining_credits == budget
                        &&& v.allocations@.len() == 0
                        &&& v.history@.len() == 0
                        &&& v.sybil_leader == (k == old(self).voters@.len())
                    }
                &&& (strategy matches Strategy::SybilAttack { num_sybils, .. }
                    ==> final(self).voters@.len() - old(self).voters@.len()
                        == if num_sybils <= 0x1_0000_0000u64 { num_sybils as int } else { 0x1_0000_0000 })
                &&& (!(strategy matches Strategy::SybilAttack { .. })
                    ==> final(self).voters@.len() == old(self).voters@.len() + 1)
            },
    {
        if budget < 0 {
            return Err(SimError::InvalidConfig);
        }
        let valid = match &strategy {
            Strategy::Random { mild_lo, mild_hi, intense_lo, intense_hi, intensity_bias } => {
                 0 <= *mild_lo && *mild_lo <= *mild_hi && *mild_hi <= MAX_VOTE
                    && 0 <= *intense_lo && *intense_lo <= *intense_hi && *intense_hi <= MAX_VOTE
                    && 0 <= *intensity_bias && *intensity_bias <= crate::MICRO
            },
            Strategy::SybilAttack { num_sybils, .. } => 1 <= *num_sybils,
            _ => true,
        };
        if !valid {
            return Err(SimError::InvalidConfig);
        }
        let first = self.voters.len() as u64;
        let identities: u64 = match &strategy {
            Strategy::SybilAttack { num_sybils, .. } => {
                // One record per controlled identity, capped so that ids
                // remain representable.
                if *num_sybils > 0x1_0000_0000u64 { 0x1_0000_0000u64 } else { *num_sybils }
            },
            _ => 1,
        };
        let mut made: u64 = 0;
        while made < identities
            invariant
                self.issues == old(self).issues,
                self.tallies == old(self).tallies,
                self.sybil_resistance_enabled == old(self).sybil_resistance_enabled,
                made <= identities,
                identities <= 0x1_0000_0000u64,
                budget >= 0,
                strategy.wf(),
                first as int == old(self).voters@.len(),
                old(self).voters@.len() + 0x1_0000_0000 < u64::MAX,
                self.voters@.len() == old(self).voters@.len() + made as int,
                forall|k: int| 0 <= k < old(self).voters@.len()
                    ==> self.voters@[k] == old(self).voters@[k],
                forall|k: int| old(self).voters@.len() <= k < self.voters@.len()
                    ==> {
                        let v = #[trigger] self.voters@[k];
                        &&& v.wf()
                        &&& v.id as int == k
                        &&& strat_eq(v.strategy, strategy)
                        &&& v.original_budget == budget
                        &&& v.remaining_credits == budget
                        &&& v.allocations@.len() == 0
                        &&& v.history@.len() == 0
                        &&& v.sybil_leader == (k == old(self).voters@.len())
                    },
            decreases identities - made,
        {
            let id = self.voters.len() as u64;
            let strat_copy = dup_strategy(&strategy);
            let v = Voter::new(id, strat_copy, budget, made == 0);
            self.voters.push(v);
            made = made + 1;
        }
        Ok(first)
    }

    /// Adds a vote increment by `voter_id` on `issue_id`, at quadratic cost.
    /// An unregistered issue is rejected as `UnknownIssue`, an unregistered
    /// voter as `InvalidConfig`; the voter-level checks and effects are those
    /// of `Voter::allocate`.
    pub fn allocate(&mut self, voter_id: u64, issue_id: u64, v: i64) -> (r: Result<
        (),
        SimError,
    >)
        requires
            old(self).wf(),
        ensures
            final(self).wf(),
            final(self).issues == old(self).issues,
            final(self).tallies == old(self).tallies,
            final(self).sybil_resistance_enabled == old(self).sybil_resistance_enabled,
            final(self).voters@.len() == old(self).voters@.len(),
            voter_id as int >= old(self).voters@.len() ==> r == Err::<(), SimError>(
                SimError::InvalidConfig) && final(self).voters == old(self).voters,
            issue_id as int >= old(self).issues@.len() && (voter_id as int)
                < old(self).voters@.len() ==> r == Err::<(), SimError>(SimError::UnknownIssue)
                && final(self).voters == old(self).voters,
            ((voter_id as int) < old(self).voters@.len() && (issue_id as int)
                < old(self).issues@.len()) ==> {
                &&& forall|k: int| 0 <= k < old(self).voters@.len() && k != voter_id as int
                    ==> final(self).voters@[k] == old(self).voters@[k]
                &&& {
                    let vo = old(self).voters@[voter_id as int];
                    let vn = final(self).voters@[voter_id as int];
                    &&& ((v > MAX_VOTE || v < -MAX_VOTE) ==> r == Err::<(), SimError>(
                        SimError::InvalidVote) && vn == vo)
                    &&& ((-MAX_VOTE <= v <= MAX_VOTE && crate::fixed::cost_spec(v as int)
                        > vo.remaining_credits as int) ==> r == Err::<(), SimError>(
                        SimError::InsufficientCredits) && vn == vo)
                    &&& ((-MAX_VOTE <= v <= MAX_VOTE && crate::fixed::cost_spec(v as int)
                        <= vo.remaining_credits as int) ==> {
                        &&& r == Ok::<(), SimError>(())
                        &&& vn.remaining_credits as int == vo.remaining_credits as int
                            - crate::fixed::cost_spec(v as int)
                        &&& vn.history@ == vo.history@.push(v as int)
                        &&& alloc_at(vn.allocations@, issue_id as int)
                            == sat_add_spec(alloc_at(vo.allocations@, issue_id as int), v as int)
                        &&& forall|j: int| j != issue_id as int
                            ==> alloc_at(vn.allocations@, j) == alloc_at(vo.allocations@, j)
                        &&& vn.id == vo.id && vn.strategy == vo.strategy
                            && vn.original_budget == vo.original_budget
                            && vn.sybil_leader == vo.sybil_leader
                    })
                }
            },
    {
        let nv = self.voters.len();
        if voter_id >= nv as u64 {
            return Err(SimError::InvalidConfig);
        }
        if issue_id >= self.issues.len() as u64 {
            return Err(SimError::UnknownIssue);
        }
        let vi = voter_id as usize;
        let ii = issue_id as usize;
        let r = self.voters[vi].allocate(ii, v);
        r
    }

    /// Recomputes the per-issue net tallies: for each issue, the saturating
    /// sum of every counted voter's current allocation. Idempotent: the
    /// result is a function of the voters and issues alone.
    pub fn tally(&mut self)
        requires
            old(self).wf(),
        ensures
            final(self).wf(),
            final(self).issues == old(self).issues,
            final(self).voters == old(self).voters,
            final(self).sybil_resistance_enabled == old(self).sybil_resistance_enabled,
            final(self).tallies@.len() == old(self).issues@.len(),
            forall|i: int| 0 <= i < final(self).tallies@.len()
                ==> final(self).tallies@[i] as int == tally_spec(
                    old(self).voters@,
                    old(self).voters@.len() as int,
                    i,
                    old(self).sybil_resistance_enabled,
                ),
    {
        let n = self.issues.len();
        let nv = self.voters.len();
        let res = self.sybil_resistance_enabled;
        let mut out: Vec<i64> = Vec::new();
        let mut i: usize = 0;
        while i < n
            invariant
                self == old(self),
                i <= n,
                n == self.issues@.len(),
                nv == self.voters@.len(),
                res == self.sybil_resistance_enabled,
                old(self).wf(),
                out@.len() == i as int,
                forall|j: int| 0 <= j < i as int ==> out@[j] as int == tally_spec(
                    self.voters@, nv as int, j, res),
            decreases n - i,
        {
            let mut acc: i64 = 0;
            let mut k: usize = 0;
            while k < nv
                invariant
                    self == old(self),
                    k <= nv,
                    nv == self.voters@.len(),
                    res == self.sybil_resistance_enabled,
                    old(self).wf(),
                    acc as int == tally_spec(self.voters@, k as int, i as int, res),
                decreases nv - k,
            {
                let voter = &self.voters[k];
                let is_sybil = match &voter.strategy {
                    Strategy::SybilAttack { .. } => true,
                    _ => false,
                };
                let counts = !(res && is_sybil && !voter.sybil_leader);
                if counts {
                    let a: i64 = if i < voter.allocations.len() {
                        voter.allocations[i]
                    } else {
                        0
                    };
                    acc = sat_add(acc, a);
                }
                k = k + 1;
            }
            out.push(acc);
            i = i + 1;
        }
        self.tallies = out;
    }

    /// The tallies as of the last `tally` call.
    pub fn tallies(&self) -> (r: &Vec<i64>)
        ensures
            r@ == self.tallies@,
    {
        &self.tallies
    }

    /// Drives every voter through its strategy once: for each voter a plan
    /// of `(issue, vote)` increments is drawn (see `plan_strategy`) and fed
    /// through the quadratic-cost `allocate`; an increment the budget no
    /// longer covers is skipped. A phase without voters is rejected as
    /// `InvalidConfig`.
    pub fn vote_according_to_strategy(&mut self) -> (r: Result<(), SimError>)
        requires
            old(self).wf(),
        ensures
            final(self).wf(),
            final(self).issues == old(self).issues,
            final(self).tallies == old(self).tallies,
            final(self).sybil_resistance_enabled == old(self).sybil_resistance_enabled,
            old(self).voters@.len() == 0 ==> r == Err::<(), SimError>(SimError::InvalidConfig)
                && final(self).voters == old(self).voters,
            old(self).voters@.len() > 0 ==> r == Ok::<(), SimError>(()),
            final(self).voters@.len() == old(self).voters@.len(),
            forall|k: int| 0 <= k < old(self).voters@.len() ==> {
                let vo = old(self).voters@[k];
                let vn = #[trigger] final(self).voters@[k];
                vn.id == vo.id && vn.strategy == vo.strategy
                    && vn.original_budget == vo.original_budget
                    && vn.sybil_leader == vo.sybil_leader
                    && vn.remaining_credits <= vo.remaining_credits
                    && history_extends(vo.history@, vn.history@)
            },
            old(self).voters@.len() > 0 ==> forall|k: int| 0 <= k < old(self).voters@.len()
                ==> voter_voted(
                    old(self).voters@[k],
                    #[trigger] final(self).voters@[k],
                    old(self).issues@.len() as int,
                ),
    {
        if self.voters.len() == 0 {
            return Err(SimError::InvalidConfig);
        }
        proof {
            assert forall|k: int| 0 <= k < self.voters@.len() implies history_extends(
                (#[trigger] self.voters@[k]).history@,
                self.voters@[k].history@,
            ) by {
                let h = self.voters@[k].history@;
                assert(h.subrange(0, h.len() as int) =~= h);
            }
        }
        let n_issues = self.issues.len();
        let nv = self.voters.len();
        let mut idx: usize = 0;
        while idx < nv
            invariant
                self.wf(),
                self.issues == old(self).issues,
                self.tallies == old(self).tallies,
                self.sybil_resistance_enabled == old(self).sybil_resistance_enabled,
                n_issues == self.issues@.len(),
                nv == self.voters@.len(),
                nv == old(self).voters@.len(),
                forall|k: int| 0 <= k < old(self).voters@.len() ==> {
                    let vo = old(self).voters@[k];
                    let vn = #[trigger] self.voters@[k];
                    vn.id == vo.id && vn.strategy == vo.strategy
                        && vn.original_budget == vo.original_budget
                        && vn.sybil_leader == vo.sybil_leader
                        && vn.remaining_credits <= vo.remaining_credits
                        && history_extends(vo.history@, vn.history@)
                },
                forall|k: int| 0 <= k < idx as int ==> voter_voted(
                    old(self).voters@[k], #[trigger] self.voters@[k], n_issues as int),
                forall|k: int| idx as int <= k < nv as int ==> #[trigger] self.voters@[k]
                    == old(self).voters@[k],
            decreases nv - idx,
        {
            let strat = dup_strategy(&self.voters[idx].strategy);
            let remaining = self.voters[idx].remaining_credits;
            let ghost v0 = self.voters@[idx as int];
            proof {
                assert(self.voters@[idx as int].wf());
                assert(v0 == old(self).voters@[idx as int]);
            }
            let plan = plan_strategy(&mut self.rng, &strat, remaining, n_issues);
            proof {
                assert(plan_matches_strategy(v0, plan@, n_issues as int)) by {
                    match v0.strategy {
                        Strategy::Malicious { targets } => {
                            assert(strat matches Strategy::Malicious { targets: t2 }
                                && t2@ == targets@);
                        },
                        Strategy::SybilAttack { targets, .. } => {
                            assert(strat matches Strategy::SybilAttack { targets: t2, .. }
                                && t2@ == targets@);
                        },
                        Strategy::Coordinated { targets, positive, .. } => {
                            assert(strat matches Strategy::Coordinated {
                                targets: t2, positive: p2, .. } && t2@ == targets@
                                && p2 == positive);
                        },
                        Strategy::Random { mild_lo, mild_hi, intense_lo, intense_hi, .. } => {
                            assert(strat matches Strategy::Random {
                                mild_lo: m2, mild_hi: m3, intense_lo: i2, intense_hi: i3, .. }
                                && m2 == mild_lo && m3 == mild_hi && i2 == intense_lo
                                && i3 == intense_hi);
                        },
                        Strategy::Optimal => {
                            assert(strat matches Strategy::Optimal);
                        },
                    }
                }
                assert(plan_applied(v0, self.voters@[idx as int], plan@.subrange(0, 0))) by {
                    assert(plan@.subrange(0, 0) =~= Seq::<(usize, i64)>::empty());
                }
            }
            let mut p: usize = 0;
            while p < plan.len()
                invariant
                    self.wf(),
                    self.issues == old(self).issues,
                    self.tallies == old(self).tallies,
                    self.sybil_resistance_enabled == old(self).sybil_resistance_enabled,
                    idx < nv,
                    n_issues == self.issues@.len(),
                    nv == self.voters@.len(),
                    nv == old(self).voters@.len(),
                    plan_ok(plan@, n_issues as int),
                    forall|k: int| 0 <= k < old(self).voters@.len() ==> {
                        let vo = old(self).voters@[k];
                        let vn = #[trigger] self.voters@[k];
                        vn.id == vo.id && vn.strategy == vo.strategy
                            && vn.original_budget == vo.original_budget
                            && vn.sybil_leader == vo.sybil_leader
                            && vn.remaining_credits <= vo.remaining_credits
                            && history_extends(vo.history@, vn.history@)
                    },
                    forall|k: int| 0 <= k < idx as int ==> voter_voted(
                        old(self).voters@[k], #[trigger] self.voters@[k], n_issues as int),
                    forall|k: int| (idx as int) < k < nv as int ==> #[trigger] self.voters@[k]
                        == old(self).voters@[k],
                    v0 == old(self).voters@[idx as int],
                    p <= plan@.len(),
                    plan_matches_strategy(v0, plan@, n_issues as int),
                    plan_applied(v0, self.voters@[idx as int], plan@.subrange(0, p as int)),
                decreases plan.len() - p,
            {
                let (t, v): (usize, i64) = plan[p];
                let ghost before = self.voters@[idx as int];
                // Budget exhaustion mid-phase is expected: the increment is
                // skipped, later ones may still fit.
                match self.voters[idx].allocate(t, v) {
                    Ok(()) => {},
                    Err(_) => {},
                }
                proof {
                    lemma_history_extends_trans(
                        old(self).voters@[idx as int].history@,
                        before.history@,
                        self.voters@[idx as int].history@,
                    );
                    let pre_plan = plan@.subrange(0, p as int);
                    let nxt_plan = plan@.subrange(0, p as int + 1);
                    assert(nxt_plan.drop_last() =~= pre_plan);
                    assert(nxt_plan.last() == plan@[p as int]);
                    assert(alloc_step(before, self.voters@[idx as int], t as int, v as int));
                    lemma_plan_applied_snoc(v0, before, self.voters@[idx as int], nxt_plan);
                }
                p = p + 1;
            }
            proof {
                assert(plan@.subrange(0, plan@.len() as int) =~= plan@);
                assert(plan_applied(v0, self.voters@[idx as int], plan@));
                assert(voter_voted(v0, self.voters@[idx as int], n_issues as int)) by {
                    assert(plan_matches_strategy(v0, plan@, n_issues as int) && plan_applied(
                        v0,
                        self.voters@[idx as int],
                        plan@,
                    ));
                }
            }
            idx = idx + 1;
        }
        Ok(())
    }
}

/// The effect of one `Voter::allocate` call, as a relation between the voter
/// state before and after it: an affordable, representable increment is
/// charged and recorded; any other is rejected and changes nothing.
pub open spec fn alloc_step(pre: Voter, post: Voter, issue: int, vote: int) -> bool {
    if -MAX_VOTE <= vote <= MAX_VOTE && crate::fixed::cost_spec(vote)
        <= pre.remaining_credits as int {
        &&& post.id == pre.id
        &&& post.strategy == pre.strategy
        &&& post.original_budget == pre.original_budget
        &&& post.sybil_leader == pre.sybil_leader
        &&& post.remaining_credits as int == pre.remaining_credits as int
            - crate::fixed::cost_spec(vote)
        &&& post.history@ == pre.history@.push(vote)
        &&& alloc_at(post.allocations@, issue) == sat_add_spec(
            alloc_at(pre.allocations@, issue), vote)
        &&& forall|j: int| j != issue ==> alloc_at(post.allocations@, j)
            == alloc_at(pre.allocations@, j)
    } else {
        post == pre
    }
}

/// The voter state `post` results from feeding the increments of `plan`, in
/// order, through `Voter::allocate` starting from `pre`.
pub open spec fn plan_applied(pre: Voter, post: Voter, plan: Seq<(usize, i64)>) -> bool
    decreases plan.len(),
{
    if plan.len() == 0 {
        post == pre
    } else {
        exists|mid: Voter| plan_applied(pre, mid, plan.drop_last()) && #[trigger] alloc_step(
            mid,
            post,
            plan.last().0 as int,
            plan.last().1 as int,
        )
    }
}

/// A voter went once through the voting phase: some plan fitting its
/// strategy was drawn and fed through `Voter::allocate` increment by
/// increment.
pub open spec fn voter_voted(pre: Voter, post: Voter, n_issues: int) -> bool {
    exists|plan: Seq<(usize, i64)>| plan_matches_strategy(pre, plan, n_issues)
        && #[trigger] plan_applied(pre, post, plan)
}

/// Extending an applied plan by one more increment.
pub proof fn lemma_plan_applied_snoc(
    pre: Voter,
    mid: Voter,
    post: Voter,
    plan: Seq<(usize, i64)>,
)
    requires
        plan.len() >= 1,
        plan_applied(pre, mid, plan.drop_last()),
        alloc_step(mid, post, plan.last().0 as int, plan.last().1 as int),
    ensures
        plan_applied(pre, post, plan),
{
    assert(plan_applied(pre, mid, plan.drop_last()) && alloc_step(
        mid,
        post,
        plan.last().0 as int,
        plan.last().1 as int,
    ));
}

/// What the plan drawn for a voter must look like (see `plan_strategy`): for
/// the deterministic equal-spread strategies the exact plan, for the drawing
/// strategies any valid one.
pub open spec fn plan_matches_strategy(v: Voter, plan: Seq<(usize, i64)>, n_issues: int) -> bool {
    &&& plan_ok(plan, n_issues)
    &&& match v.strategy {
        Strategy::Malicious { targets } => spread_plan_drawn(
            targets@, plan, n_issues, v.remaining_credits as int, false),
        Strategy::SybilAttack { targets, .. } => spread_plan_drawn(
            targets@, plan, n_issues, v.remaining_credits as int, false),
        Strategy::Coordinated { targets, positive, .. } => spread_plan_drawn(
            targets@, plan, n_issues, v.remaining_credits as int, positive),
        Strategy::Random { mild_lo, mild_hi, intense_lo, intense_hi, .. } => {
            &&& (n_issues == 0 ==> plan.len() == 0)
            &&& (n_issues > 0 ==> 1 <= plan.len() <= 3 && plan.len() <= n_issues
                && forall|k: int| 0 <= k < plan.len() ==> random_entry_ok(
                    #[trigger] plan[k],
                    mild_lo as int,
                    mild_hi as int,
                    intense_lo as int,
                    intense_hi as int,
                ))
        },
        Strategy::Optimal => plan.len() <= 3 && plan.len() <= n_issues && (plan.len() > 0
            ==> exists|tsum: int| #[trigger] opt_plan_ok(
                plan, v.remaining_credits as int, tsum)),
    }
}

/// The exact plan of an equal-spread strategy over `targets` with
/// `remaining` credits left: the square root of the per-target credit share,
/// signed, on every registered target.
pub open spec fn spread_plan_drawn(
    targets: Seq<u64>,
    plan: Seq<(usize, i64)>,
    n_issues: int,
    remaining: int,
    positive: bool,
) -> bool {
    &&& (targets.len() == 0 ==> plan == Seq::<(usize, i64)>::empty())
    &&& (targets.len() > 0 ==> exists|m: int|
        is_isqrt(m, (remaining / targets.len() as int) * (crate::MICRO as int)) && plan
            == spread_plan(
            targets,
            n_issues,
            if positive {
                clip_vote(m)
            } else {
                -clip_vote(m)
            },
        ))
}

/// A magnitude clipped to the representable vote range.
pub open spec fn clip_vote(m: int) -> int {
    if m > MAX_VOTE as int {
        MAX_VOTE as int
    } else {
        m
    }
}

/// The plan of an equal-spread strategy: one `(target, value)` entry per
/// registered target, in target-list order; unregistered targets are
/// dropped.
pub open spec fn spread_plan(targets: Seq<u64>, n_issues: int, value: int) -> Seq<(usize, i64)>
    decreases targets.len(),
{
    if targets.len() == 0 {
        Seq::empty()
    } else {
        let rest = spread_plan(targets.drop_last(), n_issues, value);
        if (targets.last() as int) < n_issues {
            rest.push((targets.last() as usize, value as i64))
        } else {
            rest
        }
    }
}

/// A signed vote's magnitude.
pub open spec fn abs_vote(v: int) -> int {
    if v < 0 {
        -v
    } else {
        v
    }
}

/// `x` lies in the inclusive range `lo ..= hi`.
pub open spec fn within(lo: int, x: int, hi: int) -> bool {
    lo <= x && x <= hi
}

/// The low end of a Random magnitude draw: a tenth of a vote, or the cap
/// itself when the cap is below that.
pub open spec fn mag_lo(cap: int) -> int {
    if cap < 100_000 {
        cap
    } else {
        100_000
    }
}

/// One entry of a Random plan: its magnitude was drawn between a tenth of a
/// vote and a cap taken from the mild or the intense range.
pub open spec fn random_entry_ok(e: (usize, i64), mlo: int, mhi: int, ilo: int, ihi: int) -> bool {
    exists|cap: int| (within(mlo, cap, mhi) || within(ilo, cap, ihi)) && #[trigger] within(
        mag_lo(cap),
        abs_vote(e.1 as int),
        cap,
    )
}

/// The magnitude an Optimal voter puts on an issue of squared preference
/// `th2`, out of `rem` remaining credits and a total chosen squared
/// preference of `tsum`: the square root of its proportional credit share,
/// clipped to the representable vote range.
pub open spec fn opt_vote_spec(th2: int, rem: int, tsum: int) -> int {
    let share = (th2 * rem * (crate::MICRO as int)) / tsum;
    if share >= (SQRT_BOUND as int) * (SQRT_BOUND as int) {
        MAX_VOTE as int
    } else {
        clip_vote(sqrt_floor(share))
    }
}

/// One entry of an Optimal plan: proportional to some squared preference
/// within the drawn bounds.
pub open spec fn opt_entry_ok(e: (usize, i64), rem: int, tsum: int) -> bool {
    exists|th2: int| 0 <= th2 <= (crate::MICRO as int) * (crate::MICRO as int) && th2 <= tsum
        && abs_vote(e.1 as int) == #[trigger] opt_vote_spec(th2, rem, tsum)
}

/// An Optimal plan: every entry proportional against one common squared
/// preference mass.
pub open spec fn opt_plan_ok(plan: Seq<(usize, i64)>, rem: int, tsum: int) -> bool {
    &&& 1 <= tsum <= 3 * (crate::MICRO as int) * (crate::MICRO as int)
    &&& forall|k: int| 0 <= k < plan.len() ==> opt_entry_ok(#[trigger] plan[k], rem, tsum)
}

/// The squared preference at index `j`.
pub open spec fn pref_sq(prefs: Seq<i64>, j: int) -> int {
    (prefs[j] as int) * (prefs[j] as int)
}

/// Every planned increment names a registered issue and a representable
/// magnitude.
pub open spec fn plan_ok(plan: Seq<(usize, i64)>, n_issues: int) -> bool {
    forall|k: int| 0 <= k < plan.len() ==> (#[trigger] plan[k]).0 < n_issues
        && -MAX_VOTE <= plan[k].1 <= MAX_VOTE
}

/// The per-target vote magnitude of the equal-spread strategies: the square
/// root of the per-target credit share, computed over the remaining budget.
/// `positive` picks the sign.
fn spread_from_targets(
    targets: &Vec<u64>,
    n_issues: usize,
    remaining: i64,
    positive: bool,
) -> (plan: Vec<(usize, i64)>)
    requires
        remaining >= 0,
    ensures
        plan_ok(plan@, n_issues as int),
        spread_plan_drawn(targets@, plan@, n_issues as int, remaining as int, positive),
{
    let len = targets.len();
    let mut out: Vec<(usize, i64)> = Vec::new();
    if len == 0 {
        return out;
    }
    let share: i64 = ((remaining as i128) / (len as i128)) as i64;
    proof {
        vstd::arithmetic::div_mod::lemma_div_pos_is_pos(remaining as int, len as int);
        vstd::arithmetic::div_mod::lemma_div_is_ordered(
            remaining as int, i64::MAX as int, len as int);
        vstd::arithmetic::div_mod::lemma_div_nonincreasing(i64::MAX as int, len as int);
        assert((share as int) * (crate::MICRO as int)
            <= (i64::MAX as int) * (crate::MICRO as int)) by (nonlinear_arith)
            requires 0 <= share as int <= i64::MAX as int;
        assert((i64::MAX as int) * (crate::MICRO as int)
            < (SQRT_BOUND as int) * (SQRT_BOUND as int)) by (nonlinear_arith);
        assert(0 <= (share as int) * (crate::MICRO as int)) by (nonlinear_arith)
            requires 0 <= share as int;
    }
    let m_raw: u64 = isqrt((share as u128) * (crate::MICRO as u128));
    let m: i64 = if m_raw > MAX_VOTE as u64 {
        MAX_VOTE
    } else {
        m_raw as i64
    };
    let value: i64 = if positive {
        m
    } else {
        -m
    };
    let ghost gm = m_raw as int;
    let mut i: usize = 0;
    while i < len
        invariant
            i <= len,
            len == targets@.len(),
            -MAX_VOTE <= value <= MAX_VOTE,
            out@ == spread_plan(targets@.subrange(0, i as int), n_issues as int, value as int),
            plan_ok(out@, n_issues as int),
        decreases len - i,
    {
        let t = targets[i];
        proof {
            let pre = targets@.subrange(0, i as int);
            let nxt = targets@.subrange(0, i as int + 1);
            assert(nxt.drop_last() =~= pre);
            assert(nxt.last() == targets@[i as int]);
        }
        if t < n_issues as u64 {
            out.push((t as usize, value));
        }
        i = i + 1;
    }
    proof {
        assert(targets@.subrange(0, len as int) =~= targets@);
        assert(value as int == if positive { clip_vote(gm) } else { -clip_vote(gm) });
    }
    out
}

/// The clipped square root of a proportional credit share.
fn opt_vote(x: i128) -> (val: i64)
    requires
        0 <= x,
    ensures
        val as int == (if x as int >= (SQRT_BOUND as int) * (SQRT_BOUND as int) {
            MAX_VOTE as int
        } else {
            clip_vote(sqrt_floor(x as int))
        }),
        0 <= val <= MAX_VOTE,
{
    let lim: u128 = (SQRT_BOUND as u128) * (SQRT_BOUND as u128);
    if (x as u128) >= lim {
        MAX_VOTE
    } else {
        let rt = isqrt(x as u128);
        proof {
            lemma_sqrt_floor(rt as int, x as int);
        }
        if rt > MAX_VOTE as u64 {
            MAX_VOTE
        } else {
            rt as i64
        }
    }
}

/// Whether `x` occurs in `v`.
fn contains_idx(v: &Vec<usize>, x: usize) -> (r: bool)
    ensures
        r == v@.contains(x),
{
    let mut i: usize = 0;
    while i < v.len()
        invariant
            i <= v.len(),
            forall|j: int| 0 <= j < i as int ==> v@[j] != x,
        decreases v.len() - i,
    {
        if v[i] == x {
            return true;
        }
        i = i + 1;
    }
    false
}

/// Draws one voter's allocation plan from its strategy.
///
/// The equal-spread strategies (Coordinated, Malicious, and each sybil
/// identity) are deterministic and their plans are pinned exactly. The
/// Random and Optimal plans depend on draws; of them the contract states
/// validity: registered targets and representable magnitudes.
///
/// Random picks one to three distinct issues, draws each magnitude cap from
/// the mild or (with the configured bias) the intense range, a magnitude
/// from a tenth of a vote up to that cap, and a uniform sign. Optimal draws
/// a preference per issue, keeps the three largest magnitudes (lowest issue
/// id on ties), and splits the budget so each magnitude is proportional to
/// the preference.
pub fn plan_strategy(
    rng: &mut rand::rngs::StdRng,
    strat: &Strategy,
    remaining: i64,
    n_issues: usize,
) -> (plan: Vec<(usize, i64)>)
    requires
        remaining >= 0,
        strat.wf(),
    ensures
        plan_ok(plan@, n_issues as int),
        (strat matches Strategy::Malicious { targets } ==> spread_plan_drawn(
            targets@, plan@, n_issues as int, remaining as int, false)),
        (strat matches Strategy::SybilAttack { targets, .. } ==> spread_plan_drawn(
            targets@, plan@, n_issues as int, remaining as int, false)),
        (strat matches Strategy::Coordinated { targets, positive, .. } ==> spread_plan_drawn(
            targets@, plan@, n_issues as int, remaining as int, *positive)),
        (strat matches Strategy::Random { mild_lo, mild_hi, intense_lo, intense_hi, .. } ==> {
            &&& (n_issues == 0 ==> plan@.len() == 0)
            &&& (n_issues > 0 ==> 1 <= plan@.len() <= 3 && plan@.len() <= n_issues as int
                && forall|k: int| 0 <= k < plan@.len() ==> random_entry_ok(
                    #[trigger] plan@[k],
                    *mild_lo as int,
                    *mild_hi as int,
                    *intense_lo as int,
                    *intense_hi as int,
                ))
        }),
        (strat matches Strategy::Optimal ==> plan@.len() <= 3 && plan@.len() <= n_issues as int
            && (plan@.len() > 0 ==> exists|tsum: int| #[trigger] opt_plan_ok(
                plan@, remaining as int, tsum))),
{
    match strat {
        Strategy::Malicious { targets } => {
            spread_from_targets(targets, n_issues, remaining, false)
        },
        Strategy::SybilAttack { targets, .. } => {
            spread_from_targets(targets, n_issues, remaining, false)
        },
        Strategy::Coordinated { targets, positive, .. } => {
            spread_from_targets(targets, n_issues, remaining, *positive)
        },
        Strategy::Random { mild_lo, mild_hi, intense_lo, intense_hi, intensity_bias } => {
            let mlo: i64 = *mild_lo;
            let mhi: i64 = *mild_hi;
            let ilo: i64 = *intense_lo;
            let ihi: i64 = *intense_hi;
            let bias: i64 = *intensity_bias;
            let mut out: Vec<(usize, i64)> = Vec::new();
            if n_issues == 0 {
                return out;
            }
            let pick_bound: u64 = if n_issues < 3 {
                n_issues as u64
            } else {
                3
            };
            let count: u64 = draw_below(rng, pick_bound) + 1;
            let n64: u64 = n_issues as u64;
            let i1: u64 = draw_below(rng, n64);
            let mut picks: Vec<usize> = Vec::new();
            picks.push(i1 as usize);
            if count >= 2 {
                let r2 = draw_below(rng, n64 - 1);
                let i2: u64 = if r2 >= i1 {
                    r2 + 1
                } else {
                    r2
                };
                picks.push(i2 as usize);
                if count >= 3 {
                    let r3 = draw_below(rng, n64 - 2);
                    let a: u64 = if i1 < i2 {
                        i1
                    } else {
                        i2
                    };
                    let b: u64 = if i1 < i2 {
                        i2
                    } else {
                        i1
                    };
                    let mut i3: u64 = r3;
                    if i3 >= a {
                        i3 = i3 + 1;
                    }
                    if i3 >= b {
                        i3 = i3 + 1;
                    }
                    picks.push(i3 as usize);
                }
            }
            proof {
                assert(1 <= picks@.len() <= 3);
                assert(picks@.len() <= n_issues as int);
            }
            let mut p: usize = 0;
            while p < picks.len()
                invariant
                    n_issues >= 1,
                    forall|j: int| 0 <= j < picks@.len()
                        ==> (#[trigger] picks@[j]) < n_issues,
                    plan_ok(out@, n_issues as int),
                    0 <= mlo <= mhi <= MAX_VOTE,
                    0 <= ilo <= ihi <= MAX_VOTE,
                    out@.len() == p as int,
                    p <= picks@.len(),
                    1 <= picks@.len() <= 3,
                    picks@.len() <= n_issues as int,
                    forall|k: int| 0 <= k < out@.len() ==> random_entry_ok(
                        #[trigger] out@[k],
                        mlo as int,
                        mhi as int,
                        ilo as int,
                        ihi as int,
                    ),
                decreases picks.len() - p,
            {
                let issue = picks[p];
                let intense = draw_coin(rng, bias);
                let lo: i64 = if intense {
                    ilo
                } else {
                    mlo
                };
                let hi: i64 = if intense {
                    ihi
                } else {
                    mhi
                };
                let cap = draw_i64(rng, lo, hi);
                let vlo: i64 = if cap < 100_000 {
                    cap
                } else {
                    100_000
                };
                let mag = draw_i64(rng, vlo, cap);
                let val: i64 = if draw_coin(rng, 500_000) {
                    mag
                } else {
                    -mag
                };
                proof {
                    assert(abs_vote(val as int) == mag as int);
                    assert(mag_lo(cap as int) == vlo as int);
                    assert(random_entry_ok(
                        (issue, val),
                        mlo as int,
                        mhi as int,
                        ilo as int,
                        ihi as int,
                    )) by {
                        let entry = (issue, val);
                        assert(entry.1 == val);
                        assert((within(mlo as int, cap as int, mhi as int) || within(
                            ilo as int,
                            cap as int,
                            ihi as int,
                        )) && within(mag_lo(cap as int), abs_vote(entry.1 as int), cap as int));
                    }
                }
                out.push((issue, val));
                p = p + 1;
            }
            out
        },
        Strategy::Optimal => {
            let mut out: Vec<(usize, i64)> = Vec::new();
            if n_issues == 0 {
                return out;
            }
            let mut prefs: Vec<i64> = Vec::new();
            let mut i: usize = 0;
            while i < n_issues
                invariant
                    i <= n_issues,
                    prefs@.len() == i as int,
                    forall|j: int| 0 <= j < i as int
                        ==> -(crate::MICRO as int) <= (#[trigger] prefs@[j]) as int
                            <= crate::MICRO as int,
                decreases n_issues - i,
            {
                let th = draw_i64(rng, -crate::MICRO, crate::MICRO);
                prefs.push(th);
                i = i + 1;
            }
            let k: usize = if n_issues < 3 {
                n_issues
            } else {
                3
            };
            let mut chosen: Vec<usize> = Vec::new();
            let mut pass: usize = 0;
            while pass < k
                invariant
                    chosen@.len() <= pass as int,
                    pass <= k,
                    k <= 3,
                    k <= n_issues,
                    prefs@.len() == n_issues as int,
                    forall|j: int| 0 <= j < chosen@.len()
                        ==> (#[trigger] chosen@[j]) < n_issues,
                    forall|q: int| 0 <= q < prefs@.len()
                        ==> -(crate::MICRO as int) <= (#[trigger] prefs@[q]) as int
                            <= crate::MICRO as int,
                decreases k - pass,
            {
                let mut best: usize = n_issues;
                let mut best_mag: i64 = -1;
                let mut j: usize = 0;
                while j < n_issues
                    invariant
                        prefs@.len() == n_issues as int,
                        best == n_issues || best < n_issues,
                        best < n_issues ==> best_mag >= 0,
                        forall|q: int| 0 <= q < prefs@.len()
                            ==> -(crate::MICRO as int) <= (#[trigger] prefs@[q]) as int
                                <= crate::MICRO as int,
                    decreases n_issues - j,
                {
                    if !contains_idx(&chosen, j) {
                        let th = prefs[j];
                        let mag: i64 = if th < 0 {
                            -th
                        } else {
                            th
                        };
                        if mag > best_mag {
                            best = j;
                            best_mag = mag;
                        }
                    }
                    j = j + 1;
                }
                if best < n_issues {
                    chosen.push(best);
                }
                pass = pass + 1;
            }
            let mut t_sum: i128 = 0;
            let mut c: usize = 0;
            while c < chosen.len()
                invariant
                    chosen@.len() <= 3,
                    chosen@.len() <= n_issues as int,
                    prefs@.len() == n_issues as int,
                    forall|j: int| 0 <= j < chosen@.len()
                        ==> (#[trigger] chosen@[j]) < n_issues,
                    forall|q: int| 0 <= q < prefs@.len()
                        ==> -(crate::MICRO as int) <= (#[trigger] prefs@[q]) as int
                            <= crate::MICRO as int,
                    0 <= t_sum as int
                        <= (c as int) * (crate::MICRO as int) * (crate::MICRO as int),
                    c <= chosen@.len(),
                    forall|q: int| 0 <= q < c as int ==> #[trigger] pref_sq(
                        prefs@, chosen@[q] as int) <= t_sum as int,
                decreases chosen.len() - c,
            {
                let th = prefs[chosen[c]];
                proof {
                    assert((th as int) * (th as int)
                        <= (crate::MICRO as int) * (crate::MICRO as int)) by (nonlinear_arith)
                        requires -(crate::MICRO as int) <= th as int <= crate::MICRO as int;
                    assert(0 <= (th as int) * (th as int)) by (nonlinear_arith);
                    assert((c as int) * (crate::MICRO as int) * (crate::MICRO as int)
                        + (crate::MICRO as int) * (crate::MICRO as int)
                        == (c as int + 1) * (crate::MICRO as int) * (crate::MICRO as int))
                        by (nonlinear_arith);
                    assert(pref_sq(prefs@, chosen@[c as int] as int) == (th as int) * (
                    th as int));
                }
                t_sum = t_sum + (th as i128) * (th as i128);
                c = c + 1;
            }
            if t_sum == 0 {
                return out;
            }
            let mut c2: usize = 0;
            while c2 < chosen.len()
                invariant
                    chosen@.len() <= 3,
                    chosen@.len() <= n_issues as int,
                    prefs@.len() == n_issues as int,
                    t_sum >= 1,
                    t_sum as int <= 3 * (crate::MICRO as int) * (crate::MICRO as int),
                    forall|j: int| 0 <= j < chosen@.len()
                        ==> (#[trigger] chosen@[j]) < n_issues,
                    forall|q: int| 0 <= q < prefs@.len()
                        ==> -(crate::MICRO as int) <= (#[trigger] prefs@[q]) as int
                            <= crate::MICRO as int,
                    forall|q: int| 0 <= q < chosen@.len() ==> #[trigger] pref_sq(
                        prefs@, chosen@[q] as int) <= t_sum as int,
                    plan_ok(out@, n_issues as int),
                    remaining >= 0,
                    c2 <= chosen@.len(),
                    out@.len() == c2 as int,
                    forall|k2: int| 0 <= k2 < out@.len() ==> opt_entry_ok(
                        #[trigger] out@[k2], remaining as int, t_sum as int),
                decreases chosen.len() - c2,
            {
                let issue = chosen[c2];
                let th = prefs[issue];
                proof {
                    assert((th as int) * (th as int)
                        <= (crate::MICRO as int) * (crate::MICRO as int)) by (nonlinear_arith)
                        requires -(crate::MICRO as int) <= th as int <= crate::MICRO as int;
                    assert(0 <= (th as int) * (th as int)) by (nonlinear_arith);
                    assert(pref_sq(prefs@, chosen@[c2 as int] as int) == (th as int) * (
                    th as int));
                }
                let th2: i128 = (th as i128) * (th as i128);
                proof {
                    assert(th2 as int * (remaining as int)
                        <= 1_000_000_000_000i128 as int * (i64::MAX as int)) by (nonlinear_arith)
                        requires
                            0 <= th2 as int <= 1_000_000_000_000i128 as int,
                            0 <= remaining as int <= i64::MAX as int;
                    assert(0 <= th2 as int * (remaining as int)) by (nonlinear_arith)
                        requires 0 <= th2 as int, 0 <= remaining as int;
                }
                let z: i128 = th2 * (remaining as i128);
                proof {
                    assert(z as int * (crate::MICRO as int)
                        <= 9_223_372_036_854_775_807_000_000_000_000i128 as int
                            * (crate::MICRO as int)) by (nonlinear_arith)
                        requires
                            0 <= z as int <= 9_223_372_036_854_775_807_000_000_000_000i128 as int;
                    assert(0 <= z as int * (crate::MICRO as int)) by (nonlinear_arith)
                        requires 0 <= z as int;
                }
                let w: i128 = z * (crate::MICRO as i128);
                let x: i128 = w / t_sum;
                proof {
                    vstd::arithmetic::div_mod::lemma_div_pos_is_pos(w as int, t_sum as int);
                }
                let val: i64 = opt_vote(x);
                let signed: i64 = if th < 0 {
                    -val
                } else {
                    val
                };
                proof {
                    assert(x as int == ((th2 as int) * (remaining as int) * (
                    crate::MICRO as int)) / (t_sum as int));
                    assert(val as int == opt_vote_spec(
                        th2 as int, remaining as int, t_sum as int));
                    assert(abs_vote(signed as int) == val as int);
                    assert(opt_entry_ok(
                        (issue, signed),
                        remaining as int,
                        t_sum as int,
                    )) by {
                        let entry = (issue, signed);
                        assert(entry.1 == signed);
                        assert(0 <= th2 as int <= (crate::MICRO as int) * (crate::MICRO as int)
                            && th2 as int <= t_sum as int && abs_vote(entry.1 as int)
                            == opt_vote_spec(th2 as int, remaining as int, t_sum as int));
                    }
                }
                out.push((issue, signed));
                c2 = c2 + 1;
            }
            proof {
                if out@.len() > 0 {
                    assert(opt_plan_ok(out@, remaining as int, t_sum as int));
                }
            }
            out
        },
    }
}

} // verus!
