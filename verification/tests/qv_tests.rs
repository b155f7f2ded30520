use govsim::errors::SimError;
use govsim::fixed::MAX_VOTE;
use govsim::qv::QVSimulator;
use govsim::voter::{Strategy, Voter};

const M: i64 = 1_000_000;

#[test]
fn qv_cost_sequence() {
    // A voter with budget 100: +7 costs 49, then 8 is unaffordable (64 > 51),
    // then +7 again costs 49 more, leaving 2 and a net allocation of 14.
    let mut sim = QVSimulator::new(0);
    let issue = sim.add_issue(String::from("funding")) as u64;
    let voter = sim.add_voter(Strategy::Optimal, 100 * M).unwrap();
    assert_eq!(sim.allocate(voter, issue, 7 * M), Ok(()));
    assert_eq!(sim.voters[0].remaining_credits, 51 * M);
    assert_eq!(
        sim.allocate(voter, issue, 8 * M),
        Err(SimError::InsufficientCredits)
    );
    assert_eq!(sim.voters[0].remaining_credits, 51 * M);
    assert_eq!(sim.allocate(voter, issue, 7 * M), Ok(()));
    assert_eq!(sim.voters[0].allocations[0], 14 * M);
    assert_eq!(sim.voters[0].remaining_credits, 2 * M);
}

#[test]
fn qv_budget_accounting() {
    // Spent budget is the sum of squared per-call increments: 3^2 + 4^2 = 25.
    let mut sim = QVSimulator::new(0);
    let issue = sim.add_issue(String::from("roads"));
    let voter = sim.add_voter(Strategy::Optimal, 100 * M).unwrap();
    sim.allocate(voter, issue, 3 * M).unwrap();
    sim.allocate(voter, issue, 4 * M).unwrap();
    let v = &sim.voters[0];
    assert_eq!(v.original_budget - v.remaining_credits, 25 * M);
    assert!(v.remaining_credits >= 0 && v.remaining_credits <= v.original_budget);
    assert_eq!(v.allocations[0], 7 * M);
}

#[test]
fn qv_tie_and_sign() {
    // +5 and -5 on one issue cancel: tally 0, outcome (0, false).
    let mut sim = QVSimulator::new(0);
    let issue = sim.add_issue(String::from("park"));
    let a = sim.add_voter(Strategy::Optimal, 100 * M).unwrap();
    let b = sim.add_voter(Strategy::Optimal, 100 * M).unwrap();
    sim.allocate(a, issue, 5 * M).unwrap();
    sim.allocate(b, issue, -5 * M).unwrap();
    assert_eq!(sim.voters[0].remaining_credits, 75 * M);
    assert_eq!(sim.voters[1].remaining_credits, 75 * M);
    sim.tally();
    assert_eq!(sim.tallies()[0], 0);
    let stats = sim.collect_stats();
    assert_eq!(stats.issue_outcomes[0], (0, false));
}

#[test]
fn sybil_resistance_on_counts_one_identity() {
    let mut sim = QVSimulator::new(0);
    sim.add_issue(String::from("target"));
    sim.add_voter(
        Strategy::SybilAttack {
            targets: vec![0],
            num_sybils: 10,
        },
        100 * M,
    )
    .unwrap();
    assert_eq!(sim.voters.len(), 10);
    sim.vote_according_to_strategy().unwrap();
    sim.tally();
    assert_eq!(sim.tallies()[0], -10 * M);
}

#[test]
fn sybil_resistance_off_counts_all_identities() {
    let mut sim = QVSimulator::new(0);
    sim.sybil_resistance_enabled = false;
    sim.add_issue(String::from("target"));
    sim.add_voter(
        Strategy::SybilAttack {
            targets: vec![0],
            num_sybils: 10,
        },
        100 * M,
    )
    .unwrap();
    sim.vote_according_to_strategy().unwrap();
    sim.tally();
    assert_eq!(sim.tallies()[0], -100 * M);
}

#[test]
fn coordinated_spreads_budget_equally() {
    // sqrt(100 / 2) per target, floored at micro precision.
    let mut sim = QVSimulator::new(0);
    sim.add_issue(String::from("one"));
    sim.add_issue(String::from("two"));
    sim.add_voter(
        Strategy::Coordinated {
            group_id: 1,
            targets: vec![0, 1],
            positive: true,
        },
        100 * M,
    )
    .unwrap();
    sim.vote_according_to_strategy().unwrap();
    sim.tally();
    let t0 = sim.tallies()[0] as i128;
    let t1 = sim.tallies()[1] as i128;
    assert_eq!(t0, t1);
    let share: i128 = 50 * (M as i128) * (M as i128);
    assert!(t0 > 0 && t0 * t0 <= share && (t0 + 1) * (t0 + 1) > share);
}

#[test]
fn malicious_casts_full_negative_vote() {
    let mut sim = QVSimulator::new(0);
    sim.add_issue(String::from("target"));
    sim.add_voter(Strategy::Malicious { targets: vec![0] }, 100 * M).unwrap();
    sim.vote_according_to_strategy().unwrap();
    sim.tally();
    assert_eq!(sim.tallies()[0], -10 * M);
    assert_eq!(sim.voters[0].remaining_credits, 0);
}

#[test]
fn tally_is_idempotent() {
    let mut sim = QVSimulator::new(3);
    sim.add_issue(String::from("a"));
    sim.add_issue(String::from("b"));
    let v = sim.add_voter(Strategy::Optimal, 100 * M).unwrap();
    sim.allocate(v, 0, 2 * M).unwrap();
    sim.allocate(v, 1, -3 * M).unwrap();
    sim.tally();
    let first = sim.tallies().clone();
    sim.tally();
    assert_eq!(&first, sim.tallies());
    assert_eq!(first, vec![2 * M, -3 * M]);
}

#[test]
fn allocation_error_cases() {
    let mut sim = QVSimulator::new(0);
    let issue = sim.add_issue(String::from("only"));
    let voter = sim.add_voter(Strategy::Optimal, 100 * M).unwrap();
    assert_eq!(sim.allocate(voter, 9, M), Err(SimError::UnknownIssue));
    assert_eq!(
        sim.allocate(voter, issue, MAX_VOTE + 1),
        Err(SimError::InvalidVote)
    );
    assert_eq!(sim.allocate(99, issue, M), Err(SimError::InvalidConfig));
    // A zero vote is a successful no-op.
    assert_eq!(sim.allocate(voter, issue, 0), Ok(()));
    assert_eq!(sim.voters[0].remaining_credits, 100 * M);
}

#[test]
fn config_error_cases() {
    let mut sim = QVSimulator::new(0);
    assert_eq!(
        sim.add_voter(Strategy::Optimal, -1),
        Err(SimError::InvalidConfig)
    );
    assert_eq!(
        sim.add_voter(
            Strategy::SybilAttack {
                targets: vec![0],
                num_sybils: 0,
            },
            100 * M,
        ),
        Err(SimError::InvalidConfig)
    );
    // A voting phase without voters is refused.
    assert_eq!(
        sim.vote_according_to_strategy(),
        Err(SimError::InvalidConfig)
    );
}

#[test]
fn voter_level_allocation() {
    let mut v = Voter::new(0, Strategy::Optimal, 9 * M, true);
    assert_eq!(v.allocate(2, 3 * M), Ok(()));
    assert_eq!(v.remaining_credits, 0);
    assert_eq!(v.allocations, vec![0, 0, 3 * M]);
    assert_eq!(v.allocate(0, M), Err(SimError::InsufficientCredits));
}

#[test]
fn deterministic_runs_match() {
    // Two runs with the same seed and call sequence agree bit for bit.
    let mut results: Vec<Vec<i64>> = Vec::new();
    for _ in 0..2 {
        let mut sim = QVSimulator::new(42);
        sim.add_issue(String::from("a"));
        sim.add_issue(String::from("b"));
        sim.add_issue(String::from("c"));
        sim.add_voter(
            Strategy::Random {
                mild_lo: 100_000,
                mild_hi: 1_000_000,
                intense_lo: 1_000_000,
                intense_hi: 3_000_000,
                intensity_bias: 300_000,
            },
            100 * M,
        )
        .unwrap();
        sim.add_voter(Strategy::Optimal, 50 * M).unwrap();
        sim.add_voter(Strategy::Malicious { targets: vec![1] }, 64 * M).unwrap();
        sim.vote_according_to_strategy().unwrap();
        sim.tally();
        results.push(sim.tallies().clone());
    }
    assert_eq!(results[0], results[1]);
}
