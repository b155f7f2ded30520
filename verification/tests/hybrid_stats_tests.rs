use govsim::errors::SimError;
use govsim::hybrid::{compute_weights, HybridSimulator};
use govsim::lmsr::PRICE_SCALE;
use govsim::qv::QVSimulator;
use govsim::voter::Strategy;

const M: i64 = 1_000_000;
const PS: i64 = PRICE_SCALE as i64;

#[test]
fn hybrid_weights_normalise_positive_tallies() {
    // Tallies [4, 1, -2]: weights 0.8 and 0.2, the negative option absent.
    let w = compute_weights(&vec![4 * M, 1 * M, -2 * M]);
    assert_eq!(w, vec![(0, 8 * PS / 10), (1, 2 * PS / 10)]);
    let sum: i64 = w.iter().map(|e| e.1).sum();
    assert_eq!(sum, PS);
}

#[test]
fn hybrid_weights_fall_back_to_uniform() {
    let w = compute_weights(&vec![0, -3 * M, -1]);
    assert_eq!(w, vec![(0, PS / 3), (1, PS / 3), (2, PS / 3)]);
    let sum: i64 = w.iter().map(|e| e.1).sum();
    // One price-scale unit is lost to rounding thirds; well within 1e-9.
    assert!(PS - sum >= 0 && PS - sum <= 3);
}

#[test]
fn hybrid_full_run() {
    let mut sim = HybridSimulator::new(5, 100 * M);
    sim.add_metric_option(String::from("thriving"));
    sim.add_metric_option(String::from("growth"));
    sim.add_metric_option(String::from("balance"));
    sim.add_voter(
        Strategy::Coordinated {
            group_id: 0,
            targets: vec![0],
            positive: true,
        },
        100 * M,
    )
    .unwrap();
    let weights = sim.run_qv_phase().unwrap();
    // All positive mass sits on option 0.
    assert_eq!(weights.len(), 1);
    assert_eq!(weights[0].0, 0);
    assert_eq!(weights[0].1, PS);
    let prop = sim.submit_proposal(String::from("council"), 1000 * M).unwrap();
    sim.simulate_futarchy_trading(prop, 100).unwrap();
    let passes = sim.resolve_proposal(prop, &weights).unwrap();
    let metric = sim.current_metric();
    if passes {
        // Impact drawn from [5, 20), scaled by a weight sum of one.
        assert!(metric >= 105 * M && metric < 120 * M);
    } else {
        assert!(metric >= 90 * M && metric < 105 * M);
    }
    assert_eq!(
        sim.resolve_proposal(prop, &weights),
        Err(SimError::AlreadyResolved)
    );
}

#[test]
fn hybrid_phase_requires_options_and_voters() {
    let mut sim = HybridSimulator::new(0, 0);
    assert_eq!(sim.run_qv_phase(), Err(SimError::InvalidConfig));
    sim.add_metric_option(String::from("only"));
    assert_eq!(sim.run_qv_phase(), Err(SimError::InvalidConfig));
}

#[test]
fn hybrid_runs_are_deterministic() {
    let mut outcomes: Vec<(Vec<(u64, i64)>, i64)> = Vec::new();
    for _ in 0..2 {
        let mut sim = HybridSimulator::new(77, 100 * M);
        sim.add_metric_option(String::from("a"));
        sim.add_metric_option(String::from("b"));
        sim.add_voter(
            Strategy::Random {
                mild_lo: 100_000,
                mild_hi: 2_000_000,
                intense_lo: 2_000_000,
                intense_hi: 5_000_000,
                intensity_bias: 400_000,
            },
            100 * M,
        )
        .unwrap();
        let weights = sim.run_qv_phase().unwrap();
        let prop = sim.submit_proposal(String::from("p"), 200 * M).unwrap();
        sim.simulate_futarchy_trading(prop, 30).unwrap();
        sim.resolve_proposal(prop, &weights).unwrap();
        outcomes.push((weights, sim.current_metric()));
    }
    assert_eq!(outcomes[0], outcomes[1]);
}

#[test]
fn stats_report_figures() {
    let mut sim = QVSimulator::new(0);
    sim.add_issue(String::from("good"));
    sim.add_issue(String::from("victim"));
    // A coordinated voter with no targets stays idle during the phase; its
    // hand-placed allocation is what the report must show.
    let friend = sim
        .add_voter(
            Strategy::Coordinated {
                group_id: 0,
                targets: vec![],
                positive: true,
            },
            100 * M,
        )
        .unwrap();
    sim.allocate(friend, 0, 6 * M).unwrap();
    sim.add_voter(Strategy::Malicious { targets: vec![1] }, 100 * M).unwrap();
    sim.vote_according_to_strategy().unwrap();
    sim.tally();
    let stats = sim.collect_stats();
    // Strategy table order: Random, Optimal, Coordinated, Malicious, Sybil.
    assert_eq!(stats.credits_spent_by_strategy[3], 100 * M);
    assert_eq!(stats.votes_by_strategy[3], 10 * M);
    assert_eq!(stats.negative_votes_by_strategy[3], 10 * M);
    assert_eq!(stats.positive_votes_by_strategy[2], 6 * M);
    assert_eq!(stats.credits_spent_by_strategy[2], 36 * M);
    assert_eq!(stats.issue_outcomes[0], (6 * M, true));
    assert_eq!(stats.issue_outcomes[1], (-10 * M, false));
    assert_eq!(stats.malicious_targets_total, 1);
    assert_eq!(stats.malicious_targets_flipped, 1);
    assert_eq!(stats.sybil_count, 0);
    assert_eq!(stats.sybil_amplification, 0);
}

#[test]
fn stats_collection_is_idempotent() {
    let mut sim = QVSimulator::new(0);
    sim.add_issue(String::from("t"));
    sim.add_voter(
        Strategy::SybilAttack {
            targets: vec![0],
            num_sybils: 3,
        },
        100 * M,
    )
    .unwrap();
    sim.vote_according_to_strategy().unwrap();
    sim.tally();
    let a = sim.collect_stats();
    let b = sim.collect_stats();
    assert_eq!(a.votes_by_strategy, b.votes_by_strategy);
    assert_eq!(a.positive_votes_by_strategy, b.positive_votes_by_strategy);
    assert_eq!(a.negative_votes_by_strategy, b.negative_votes_by_strategy);
    assert_eq!(a.credits_spent_by_strategy, b.credits_spent_by_strategy);
    assert_eq!(a.issue_outcomes, b.issue_outcomes);
    assert_eq!(a.malicious_targets_total, b.malicious_targets_total);
    assert_eq!(a.malicious_targets_flipped, b.malicious_targets_flipped);
    assert_eq!(a.sybil_amplification, b.sybil_amplification);
    assert_eq!(a.sybil_count, b.sybil_count);
    // One attacker spending all of three budgets of 100 on one issue:
    // intensity 30, root-spend mass 30, amplification 1.
    assert_eq!(a.sybil_count, 3);
    assert_eq!(a.sybil_amplification, M);
}
