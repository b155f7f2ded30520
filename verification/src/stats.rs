//! Read-only statistics over a finished voting run: per-strategy vote
//! intensity and spend, per-issue outcomes, attack-target counts, and the
//! sybil amplification ratio. Every figure is a pure function of the
//! simulator state, so collecting twice from the same state is proved to
//! give the same report.

use vstd::prelude::*;

use crate::fixed::{isqrt, lemma_sqrt_floor, sat_add, sat_add_spec, sqrt_floor};
use crate::qv::QVSimulator;
use crate::voter::{strategy_type, Strategy, StrategyType, Voter};

verus! {

/// The dense index of a strategy tag, for the per-strategy tables.
pub open spec fn tag_idx(t: StrategyType) -> int {
    match t {
        StrategyType::Random => 0,
        StrategyType::Optimal => 1,
        StrategyType::Coordinated => 2,
        StrategyType::Malicious => 3,
        StrategyType::SybilAttack => 4,
    }
}

/// The dense index of a strategy tag.
pub fn tag_index(t: StrategyType) -> (r: usize)
    ensures
        r as int == tag_idx(t),
        r < 5,
{
    match t {
        StrategyType::Random => 0,
        StrategyType::Optimal => 1,
        StrategyType::Coordinated => 2,
        StrategyType::Malicious => 3,
        StrategyType::SybilAttack => 4,
    }
}

/// Magnitude of a ledger entry, clamped at the top of the i64 range.
pub open spec fn abs_clamp(x: int) -> int {
    if x < i64::MIN as int + 1 {
        i64::MAX as int
    } else if x < 0 {
        -x
    } else {
        x
    }
}

/// The saturating sum of the magnitudes of the first `k` ledger entries.
pub open spec fn abs_sum(a: Seq<i64>, k: int) -> int
    decreases k,
{
    if k <= 0 {
        0
    } else {
        sat_add_spec(abs_sum(a, k - 1), abs_clamp(a[k - 1] as int))
    }
}

/// The saturating sum of the magnitudes of the positive entries.
pub open spec fn pos_sum(a: Seq<i64>, k: int) -> int
    decreases k,
{
    if k <= 0 {
        0
    } else if a[k - 1] > 0 {
        sat_add_spec(pos_sum(a, k - 1), abs_clamp(a[k - 1] as int))
    } else {
        pos_sum(a, k - 1)
    }
}

/// The saturating sum of the magnitudes of the non-positive entries.
pub open spec fn neg_sum(a: Seq<i64>, k: int) -> int
    decreases k,
{
    if k <= 0 {
        0
    } else if a[k - 1] > 0 {
        neg_sum(a, k - 1)
    } else {
        sat_add_spec(neg_sum(a, k - 1), abs_clamp(a[k - 1] as int))
    }
}

/// A voter's total vote intensity: the magnitudes of its ledger, summed.
pub open spec fn intensity(v: Voter) -> int {
    abs_sum(v.allocations@, v.allocations@.len() as int)
}

/// The credits a voter has spent.
pub open spec fn spent(v: Voter) -> int {
    v.original_budget as int - v.remaining_credits as int
}

/// Per-strategy saturating aggregate over the first `k` voters:
/// `what` 0 sums intensities, 1 positive intensities, 2 negative
/// intensities, 3 credits spent.
pub open spec fn group_sum(voters: Seq<Voter>, k: int, s: int, what: int) -> int
    decreases k,
{
    if k <= 0 {
        0
    } else {
        let prev = group_sum(voters, k - 1, s, what);
        let v = voters[k - 1];
        if tag_idx(v.strategy.tag()) == s {
            sat_add_spec(
                prev,
                if what == 0 {
                    intensity(v)
                } else if what == 1 {
                    pos_sum(v.allocations@, v.allocations@.len() as int)
                } else if what == 2 {
                    neg_sum(v.allocations@, v.allocations@.len() as int)
                } else {
                    spent(v)
                },
            )
        } else {
            prev
        }
    }
}

/// Whether issue `i` is targeted by any Malicious or SybilAttack voter.
pub open spec fn is_attack_target(voters: Seq<Voter>, i: int) -> bool {
    exists|k: int| 0 <= k < voters.len() && voter_targets(#[trigger] voters[k]).contains(
        i as u64)
}

/// The target list of a voter's strategy, if it is an attacking one.
pub open spec fn voter_targets(v: Voter) -> Seq<u64> {
    match v.strategy {
        Strategy::Malicious { targets } => targets@,
        Strategy::SybilAttack { targets, .. } => targets@,
        _ => Seq::empty(),
    }
}

/// How many of the first `n` issues are attack targets.
pub open spec fn count_targets(voters: Seq<Voter>, n: int) -> int
    decreases n,
{
    if n <= 0 {
        0
    } else {
        count_targets(voters, n - 1) + (if is_attack_target(voters, n - 1) {
            1int
        } else {
            0int
        })
    }
}

/// How many of the first `n` issues are attack targets whose final tally is
/// non-positive (the attack-success figure: the target did not pass).
pub open spec fn count_flipped(voters: Seq<Voter>, tallies: Seq<i64>, n: int) -> int
    decreases n,
{
    if n <= 0 {
        0
    } else {
        count_flipped(voters, tallies, n - 1) + (if is_attack_target(voters, n - 1)
            && tallies[n - 1] <= 0 {
            1int
        } else {
            0int
        })
    }
}

/// The saturating sums of sybil voters' achieved intensity (`what` 0) and of
/// the square roots of their spends (`what` 1), and the count of sybil
/// identities (`what` 2), over the first `k` voters.
pub open spec fn sybil_sum(voters: Seq<Voter>, k: int, what: int) -> int
    decreases k,
{
    if k <= 0 {
        0
    } else {
        let prev = sybil_sum(voters, k - 1, what);
        let v = voters[k - 1];
        if v.strategy.tag() == StrategyType::SybilAttack {
            if what == 0 {
                sat_add_spec(prev, intensity(v))
            } else if what == 1 {
                sat_add_spec(prev, sqrt_floor(spent(v) * (crate::MICRO as int)))
            } else {
                prev + 1
            }
        } else {
            prev
        }
    }
}

/// The sybil amplification ratio, in micro units: achieved intensity over
/// the root-spend mass (floored at one, so a spend of nothing reads as an
/// amplification equal to the intensity).
pub open spec fn amplification(voters: Seq<Voter>) -> int {
    let k = voters.len() as int;
    if sybil_sum(voters, k, 2) > 0 {
        (sybil_sum(voters, k, 0) * (crate::MICRO as int)) / (if sybil_sum(voters, k, 1)
            >= crate::MICRO as int {
            sybil_sum(voters, k, 1)
        } else {
            crate::MICRO as int
        })
    } else {
        0
    }
}

/// A post-run statistics report.
pub struct StatsCollector {
    /// Per strategy tag (indexed by `tag_idx`), total vote intensity.
    pub votes_by_strategy: Vec<i64>,
    /// Per strategy tag, intensity of positive votes.
    pub positive_votes_by_strategy: Vec<i64>,
    /// Per strategy tag, intensity of negative votes.
    pub negative_votes_by_strategy: Vec<i64>,
    /// Per strategy tag, credits spent.
    pub credits_spent_by_strategy: Vec<i64>,
    /// Per issue, the net tally and whether it passed (tally positive).
    pub issue_outcomes: Vec<(i64, bool)>,
    /// Distinct issues targeted by Malicious or SybilAttack voters.
    pub malicious_targets_total: u64,
    /// Of those, the ones whose final tally is non-positive.
    pub malicious_targets_flipped: u64,
    /// The sybil amplification ratio, in micro units.
    pub sybil_amplification: i64,
    /// The number of sybil identities.
    pub sybil_count: u64,
}

/// What it means for a report to describe a simulator state.
pub open spec fn is_stats_of(s: StatsCollector, sim: QVSimulator) -> bool {
    let voters = sim.voters@;
    let n = voters.len() as int;
    &&& s.votes_by_strategy@.len() == 5
    &&& s.positive_votes_by_strategy@.len() == 5
    &&& s.negative_votes_by_strategy@.len() == 5
    &&& s.credits_spent_by_strategy@.len() == 5
    &&& forall|t: int| 0 <= t < 5 ==> (#[trigger] s.votes_by_strategy@[t]) as int
        == group_sum(voters, n, t, 0)
    &&& forall|t: int| 0 <= t < 5 ==> (#[trigger] s.positive_votes_by_strategy@[t]) as int
        == group_sum(voters, n, t, 1)
    &&& forall|t: int| 0 <= t < 5 ==> (#[trigger] s.negative_votes_by_strategy@[t]) as int
        == group_sum(voters, n, t, 2)
    &&& forall|t: int| 0 <= t < 5 ==> (#[trigger] s.credits_spent_by_strategy@[t]) as int
        == group_sum(voters, n, t, 3)
    &&& s.issue_outcomes@.len() == sim.tallies@.len()
    &&& forall|i: int| 0 <= i < sim.tallies@.len() ==> (#[trigger] s.issue_outcomes@[i])
        == (sim.tallies@[i], sim.tallies@[i] > 0)
    &&& s.malicious_targets_total as int == count_targets(voters, sim.tallies@.len() as int)
    &&& s.malicious_targets_flipped as int == count_flipped(
        voters, sim.tallies@, sim.tallies@.len() as int)
    &&& s.sybil_amplification as int == amplification(voters)
    &&& s.sybil_count as int == sybil_sum(voters, n, 2)
}

/// Whether the target list of `v`'s strategy, if attacking, contains `i`.
fn targets_contain(v: &Voter, i: u64) -> (r: bool)
    ensures
        r == voter_targets(*v).contains(i),
{
    let targets: &Vec<u64> = match &v.strategy {
        Strategy::Malicious { targets } => targets,
        Strategy::SybilAttack { targets, .. } => targets,
        _ => {
            proof {
                assert(!voter_targets(*v).contains(i));
            }
            return false;
        },
    };
    let mut j: usize = 0;
    while j < targets.len()
        invariant
            j <= targets@.len(),
            targets@ == voter_targets(*v),
            forall|q: int| 0 <= q < j as int ==> targets@[q] != i,
        decreases targets@.len() - j,
    {
        if targets[j] == i {
            proof {
                assert(voter_targets(*v)[j as int] == i);
            }
            return true;
        }
        j = j + 1;
    }
    proof {
        assert(forall|q: int| 0 <= q < voter_targets(*v).len() ==> voter_targets(*v)[q] != i);
    }
    false
}

/// Whether any attacking voter targets issue `i`.
fn any_targets(voters: &Vec<Voter>, i: u64) -> (r: bool)
    ensures
        r == is_attack_target(voters@, i as int),
{
    let mut k: usize = 0;
    while k < voters.len()
        invariant
            k <= voters@.len(),
            forall|q: int| 0 <= q < k as int ==> !voter_targets(
                #[trigger] voters@[q]).contains(i),
        decreases voters@.len() - k,
    {
        if targets_contain(&voters[k], i) {
            proof {
                assert(voter_targets(voters@[k as int]).contains(i));
            }
            return true;
        }
        k = k + 1;
    }
    false
}

impl StatsCollector {
    /// An empty report.
    pub fn new() -> (s: StatsCollector)
        ensures
            s.votes_by_strategy@.len() == 0,
            s.issue_outcomes@.len() == 0,
            s.malicious_targets_total == 0,
            s.sybil_count == 0,
    {
        StatsCollector {
            votes_by_strategy: Vec::new(),
            positive_votes_by_strategy: Vec::new(),
            negative_votes_by_strategy: Vec::new(),
            credits_spent_by_strategy: Vec::new(),
            issue_outcomes: Vec::new(),
            malicious_targets_total: 0,
            malicious_targets_flipped: 0,
            sybil_amplification: 0,
            sybil_count: 0,
        }
    }

    /// Fills the report from a simulator state: per-strategy intensity and
    /// spend aggregates, per-issue outcomes over the current tallies, the
    /// attack-target counts, and the sybil amplification ratio. The result
    /// is a pure function of that state.
    pub fn collect(&mut self, sim: &QVSimulator)
        requires
            sim.wf(),
        ensures
            is_stats_of(*final(self), *sim),
    {
        let nv = sim.voters.len();
        let mut votes: Vec<i64> = Vec::new();
        let mut pos: Vec<i64> = Vec::new();
        let mut neg: Vec<i64> = Vec::new();
        let mut cred: Vec<i64> = Vec::new();
        let mut t: usize = 0;
        while t < 5
            invariant
                t <= 5,
                votes@.len() == t as int,
                pos@.len() == t as int,
                neg@.len() == t as int,
                cred@.len() == t as int,
                forall|s: int| 0 <= s < t as int ==> (#[trigger] votes@[s]) == 0i64,
                forall|s: int| 0 <= s < t as int ==> (#[trigger] pos@[s]) == 0i64,
                forall|s: int| 0 <= s < t as int ==> (#[trigger] neg@[s]) == 0i64,
                forall|s: int| 0 <= s < t as int ==> (#[trigger] cred@[s]) == 0i64,
            decreases 5 - t,
        {
            votes.push(0);
            pos.push(0);
            neg.push(0);
            cred.push(0);
            t = t + 1;
        }
        let mut eff: i64 = 0;
        let mut act: i64 = 0;
        let mut syb: u64 = 0;
        let mut k: usize = 0;
        while k < nv
            invariant
                sim.wf(),
                k <= nv,
                nv == sim.voters@.len(),
                nv <= usize::MAX,
                votes@.len() == 5,
                pos@.len() == 5,
                neg@.len() == 5,
                cred@.len() == 5,
                forall|s: int| 0 <= s < 5 ==> (#[trigger] votes@[s]) as int == group_sum(
                    sim.voters@, k as int, s, 0),
                forall|s: int| 0 <= s < 5 ==> (#[trigger] pos@[s]) as int == group_sum(
                    sim.voters@, k as int, s, 1),
                forall|s: int| 0 <= s < 5 ==> (#[trigger] neg@[s]) as int == group_sum(
                    sim.voters@, k as int, s, 2),
                forall|s: int| 0 <= s < 5 ==> (#[trigger] cred@[s]) as int == group_sum(
                    sim.voters@, k as int, s, 3),
                eff as int == sybil_sum(sim.voters@, k as int, 0),
                act as int == sybil_sum(sim.voters@, k as int, 1),
                syb as int == sybil_sum(sim.voters@, k as int, 2),
                0 <= eff,
                0 <= act,
                syb as int <= k as int,
            decreases nv - k,
        {
            let voter = &sim.voters[k];
            let s = tag_index(strategy_type(&voter.strategy));
            let na = voter.allocations.len();
            let mut vint: i64 = 0;
            let mut vpos: i64 = 0;
            let mut vneg: i64 = 0;
            let mut j: usize = 0;
            while j < na
                invariant
                    j <= na,
                    na == voter.allocations@.len(),
                    vint as int == abs_sum(voter.allocations@, j as int),
                    vpos as int == pos_sum(voter.allocations@, j as int),
                    vneg as int == neg_sum(voter.allocations@, j as int),
                    0 <= vint,
                    0 <= vpos,
                    0 <= vneg,
                decreases na - j,
            {
                let a = voter.allocations[j];
                let av: i64 = if a == i64::MIN {
                    i64::MAX
                } else if a < 0 {
                    -a
                } else {
                    a
                };
                vint = sat_add(vint, av);
                if a > 0 {
                    vpos = sat_add(vpos, av);
                } else {
                    vneg = sat_add(vneg, av);
                }
                j = j + 1;
            }
            proof {
                assert(sim.voters@[k as int].wf());
            }
            let vspent: i64 = voter.original_budget - voter.remaining_credits;
            let cur_votes = votes[s];
            votes.set(s, sat_add(cur_votes, vint));
            let cur_pos = pos[s];
            pos.set(s, sat_add(cur_pos, vpos));
            let cur_neg = neg[s];
            neg.set(s, sat_add(cur_neg, vneg));
            let cur_cred = cred[s];
            cred.set(s, sat_add(cur_cred, vspent));
            let is_sybil = match &voter.strategy {
                Strategy::SybilAttack { .. } => true,
                _ => false,
            };
            if is_sybil {
                eff = sat_add(eff, vint);
                proof {
                    assert(0 <= (vspent as int) * (crate::MICRO as int)
                        && (vspent as int) * (crate::MICRO as int) < (
                    crate::fixed::SQRT_BOUND as int) * (crate::fixed::SQRT_BOUND as int))
                        by (nonlinear_arith)
                        requires 0 <= vspent as int <= i64::MAX as int;
                }
                let root: u64 = isqrt((vspent as u128) * (crate::MICRO as u128));
                proof {
                    lemma_sqrt_floor(root as int, (vspent as int) * (crate::MICRO as int));
                    assert((root as int) * (root as int)
                        <= (vspent as int) * (crate::MICRO as int) < (
                    crate::fixed::SQRT_BOUND as int) * (crate::fixed::SQRT_BOUND as int));
                    assert(root as int <= i64::MAX as int) by (nonlinear_arith)
                        requires
                            0 <= root as int,
                            (root as int) * (root as int) < (crate::fixed::SQRT_BOUND as int)
                                * (crate::fixed::SQRT_BOUND as int),
                            crate::fixed::SQRT_BOUND as int <= i64::MAX as int;
                }
                act = sat_add(act, root as i64);
                syb = syb + 1;
                proof {
                    assert(syb as int <= nv as int);
                }
            }
            k = k + 1;
        }
        let nt = sim.tallies.len();
        let mut outcomes: Vec<(i64, bool)> = Vec::new();
        let mut total: u64 = 0;
        let mut flipped: u64 = 0;
        let mut i: usize = 0;
        while i < nt
            invariant
                i <= nt,
                nt == sim.tallies@.len(),
                outcomes@.len() == i as int,
                forall|q: int| 0 <= q < i as int ==> (#[trigger] outcomes@[q])
                    == (sim.tallies@[q], sim.tallies@[q] > 0),
                total as int == count_targets(sim.voters@, i as int),
                flipped as int == count_flipped(sim.voters@, sim.tallies@, i as int),
                total as int <= i as int,
                flipped as int <= i as int,
                nt <= usize::MAX,
            decreases nt - i,
        {
            let tv = sim.tallies[i];
            outcomes.push((tv, tv > 0));
            if any_targets(&sim.voters, i as u64) {
                total = total + 1;
                if tv <= 0 {
                    flipped = flipped + 1;
                }
            }
            i = i + 1;
        }
        let amp: i64 = if syb > 0 {
            let denom: i64 = if act >= crate::MICRO {
                act
            } else {
                crate::MICRO
            };
            proof {
                assert(0 <= (eff as int) * (crate::MICRO as int)) by (nonlinear_arith)
                    requires 0 <= eff as int;
                let q = ((eff as int) * (crate::MICRO as int)) / (denom as int);
                let r = ((eff as int) * (crate::MICRO as int)) % (denom as int);
                vstd::arithmetic::div_mod::lemma_fundamental_div_mod(
                    (eff as int) * (crate::MICRO as int), denom as int);
                vstd::arithmetic::div_mod::lemma_mod_bound(
                    (eff as int) * (crate::MICRO as int), denom as int);
                assert(0 <= q <= eff as int) by (nonlinear_arith)
                    requires
                        (eff as int) * (crate::MICRO as int) == (denom as int) * q + r,
                        0 <= r < denom as int,
                        crate::MICRO as int <= denom as int,
                        0 <= eff as int,
                        0 < crate::MICRO as int;
            }
            (((eff as i128) * (crate::MICRO as i128)) / (denom as i128)) as i64
        } else {
            0
        };
        self.votes_by_strategy = votes;
        self.positive_votes_by_strategy = pos;
        self.negative_votes_by_strategy = neg;
        self.credits_spent_by_strategy = cred;
        self.issue_outcomes = outcomes;
        self.malicious_targets_total = total;
        self.malicious_targets_flipped = flipped;
        self.sybil_amplification = amp;
        self.sybil_count = syb;
    }
}

impl QVSimulator {
    /// A fresh statistics report over the current state.
    pub fn collect_stats(&self) -> (s: StatsCollector)
        requires
            self.wf(),
        ensures
            is_stats_of(s, *self),
    {
        let mut s = StatsCollector::new();
        s.collect(self);
        s
    }
}

/// Collecting statistics is idempotent: any two reports drawn from the same
/// simulator state agree on every figure.
pub proof fn lemma_stats_idempotent(s1: StatsCollector, s2: StatsCollector, sim: QVSimulator)
    requires
        is_stats_of(s1, sim),
        is_stats_of(s2, sim),
    ensures
        s1.votes_by_strategy@ == s2.votes_by_strategy@,
        s1.positive_votes_by_strategy@ == s2.positive_votes_by_strategy@,
        s1.negative_votes_by_strategy@ == s2.negative_votes_by_strategy@,
        s1.credits_spent_by_strategy@ == s2.credits_spent_by_strategy@,
        s1.issue_outcomes@ == s2.issue_outcomes@,
        s1.malicious_targets_total == s2.malicious_targets_total,
        s1.malicious_targets_flipped == s2.malicious_targets_flipped,
        s1.sybil_amplification == s2.sybil_amplification,
        s1.sybil_count == s2.sybil_count,
{
    assert(s1.votes_by_strategy@ =~= s2.votes_by_strategy@);
    assert(s1.positive_votes_by_strategy@ =~= s2.positive_votes_by_strategy@);
    assert(s1.negative_votes_by_strategy@ =~= s2.negative_votes_by_strategy@);
    assert(s1.credits_spent_by_strategy@ =~= s2.credits_spent_by_strategy@);
    assert(s1.issue_outcomes@ =~= s2.issue_outcomes@);
}

} // verus!
