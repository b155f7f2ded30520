use govsim::errors::SimError;
use govsim::futarchy::FutarchySimulator;
use govsim::lmsr::{LmsrMarket, PRICE_SCALE};

const M: i64 = 1_000_000;
const PS: u64 = PRICE_SCALE;

#[test]
fn lmsr_baseline_prices() {
    // Fresh market: both outcomes at 0.5. After buying 100 Pass shares with
    // b = 100, price(Pass) = e / (e + 1), about 0.7311.
    let mut market = LmsrMarket::new(100 * M);
    assert_eq!(market.price(1).unwrap(), PS / 2);
    assert_eq!(market.price(0).unwrap(), PS / 2);
    market.buy(1, 100 * M).unwrap();
    let p_pass = market.price(1).unwrap();
    let p_reject = market.price(0).unwrap();
    // e / (e + 1) at the 10^12 price scale.
    let expected: u64 = 731_058_578_630;
    assert!(p_pass.abs_diff(expected) < 1_000_000, "price was {p_pass}");
    let sum = p_pass + p_reject;
    assert!(sum == PS || sum == PS - 1);
}

#[test]
fn lmsr_prices_sum_to_one() {
    let mut market = LmsrMarket::new(50 * M);
    let trades: [(u64, i64); 5] = [(1, 3 * M), (0, 10 * M), (1, 250 * M), (0, M / 2), (1, -7 * M)];
    for (outcome, delta) in trades {
        market.buy(outcome, delta).unwrap();
        let sum = market.price(1).unwrap() + market.price(0).unwrap();
        assert!(sum == PS || sum == PS - 1);
    }
}

#[test]
fn lmsr_price_moves_with_shares() {
    let mut market = LmsrMarket::new(100 * M);
    let before = market.price(1).unwrap();
    market.buy(1, 40 * M).unwrap();
    let after = market.price(1).unwrap();
    assert!(after > before);
    market.buy(0, 80 * M).unwrap();
    let third = market.price(1).unwrap();
    assert!(third < after);
}

#[test]
fn lmsr_unknown_outcome() {
    let mut market = LmsrMarket::new(M);
    assert_eq!(market.price(2), Err(SimError::UnknownOutcome));
    assert_eq!(market.buy(7, M), Err(SimError::UnknownOutcome));
}

#[test]
fn futarchy_resolve_follows_prices() {
    // Pass-branch market believes in the policy more strongly than the
    // reject-branch market, so the proposal passes.
    let mut sim = FutarchySimulator::new(0, 100 * M);
    let id = sim
        .submit_proposal(String::from("build the council"), 1000 * M)
        .unwrap();
    sim.buy(id, 1, 1, 200 * M).unwrap();
    sim.buy(id, 0, 1, 50 * M).unwrap();
    let pass_belief = sim.price(id, 1, 1).unwrap();
    let reject_belief = sim.price(id, 0, 1).unwrap();
    assert!(pass_belief > reject_belief);
    assert_eq!(sim.resolve_proposal(id), Ok(true));
    // The default outcome model moves the metric by +10 or -5.
    let metric = sim.current_metric();
    assert!(metric == 110 * M || metric == 95 * M);
    // A resolved proposal rejects further trading and re-resolution, but
    // still answers price queries.
    assert_eq!(sim.resolve_proposal(id), Err(SimError::AlreadyResolved));
    assert_eq!(sim.simulate_trading(id, 5), Err(SimError::AlreadyResolved));
    assert_eq!(sim.buy(id, 1, 1, M), Err(SimError::AlreadyResolved));
    assert_eq!(sim.price(id, 1, 1).unwrap(), pass_belief);
}

#[test]
fn futarchy_error_cases() {
    let mut sim = FutarchySimulator::new(0, 0);
    assert_eq!(
        sim.submit_proposal(String::from("free lunch"), 0),
        Err(SimError::InvalidConfig)
    );
    assert_eq!(sim.simulate_trading(0, 10), Err(SimError::UnknownProposal));
    assert_eq!(sim.resolve_proposal(0), Err(SimError::UnknownProposal));
    let id = sim.submit_proposal(String::from("real"), M).unwrap();
    assert_eq!(sim.buy(id, 2, 1, M), Err(SimError::UnknownOutcome));
    assert_eq!(sim.buy(id, 1, 3, M), Err(SimError::UnknownOutcome));
}

#[test]
fn futarchy_trading_is_deterministic() {
    let mut metrics: Vec<i64> = Vec::new();
    let mut prices: Vec<u64> = Vec::new();
    for _ in 0..2 {
        let mut sim = FutarchySimulator::new(9, 100 * M);
        let id = sim.submit_proposal(String::from("p"), 500 * M).unwrap();
        sim.simulate_trading(id, 50).unwrap();
        // Trading only ever buys Pass shares, so both branch markets now
        // price Pass above one half.
        assert!(sim.price(id, 1, 1).unwrap() > PRICE_SCALE / 2);
        assert!(sim.price(id, 0, 1).unwrap() > PRICE_SCALE / 2);
        prices.push(sim.price(id, 1, 1).unwrap());
        sim.resolve_proposal(id).unwrap();
        metrics.push(sim.current_metric());
    }
    assert_eq!(prices[0], prices[1]);
    assert_eq!(metrics[0], metrics[1]);
}

#[test]
fn oracle_odds_validation() {
    assert!(govsim::oracle::odds_acceptable(&vec![500_000, 500_000]));
    assert!(govsim::oracle::odds_acceptable(&vec![10_000, 990_000]));
    assert!(!govsim::oracle::odds_acceptable(&vec![500_000, 5_000]));
    assert!(!govsim::oracle::odds_acceptable(&vec![995_000]));
    assert!(govsim::oracle::odds_acceptable(&vec![]));
}
