//! A binary conditional market priced by the Logarithmic Market Scoring Rule.
//!
//! The instantaneous price of an outcome is
//! `exp(q[o]/b) / (exp(q[Pass]/b) + exp(q[Reject]/b))`, which for two
//! outcomes depends only on the share difference `d = q[Pass] - q[Reject]`.
//! Working from the side with the larger share count, both exponentials are
//! of non-positive arguments, so the whole computation stays inside `[0, 1]`
//! at a fixed price scale of `10^12` — the log-sum-exp stabilisation, done in
//! integers. `exp(-u)` itself is evaluated by peeling a fixed small step off
//! `u` at a time and multiplying the partial results, which keeps every
//! intermediate value in range and makes monotonicity provable.

use vstd::prelude::*;
use vstd::arithmetic::div_mod::{
    lemma_div_is_ordered, lemma_div_pos_is_pos, lemma_fundamental_div_mod,
};

use crate::errors::SimError;

verus! {

/// Fixed-point scale for prices and weights: one unit is `10^-12`.
pub const PRICE_SCALE: u64 = 1_000_000_000_000;

/// Step peeled off the argument of `exp(-u)` at a time: `PRICE_SCALE / 1024`.
pub const EXP_STEP: u64 = 976_562_500;

/// Arguments at or above this (28 at the price scale) make `exp(-u)` smaller
/// than one price unit; the evaluation returns 0 there.
pub const EXP_FLOOR: u64 = 28_000_000_000_000;

/// Market outcome ids: belief that the decision branch leads to a bad metric.
pub const OUTCOME_REJECT: u64 = 0;
/// Market outcome ids: belief that the decision branch leads to a good metric.
pub const OUTCOME_PASS: u64 = 1;

/// The quadratic tail of `exp(-u)` around zero: `1 - u + u^2/2`, scaled.
pub open spec fn exp_base_spec(u: int) -> int {
    (PRICE_SCALE as int) - u + (u * u) / (2 * PRICE_SCALE as int)
}

/// Scaled `exp(-u)`: the base polynomial on `[0, EXP_STEP]`, extended by
/// peeling one `EXP_STEP` off the argument per factor of `exp(-EXP_STEP)`.
pub open spec fn expneg_spec(u: int) -> int
    decreases u,
{
    if u <= 0 {
        PRICE_SCALE as int
    } else if u >= EXP_FLOOR as int {
        0
    } else if u <= EXP_STEP as int {
        exp_base_spec(u)
    } else {
        (expneg_spec(u - EXP_STEP as int) * exp_base_spec(EXP_STEP as int))
            / (PRICE_SCALE as int)
    }
}

/// `exp(-u)` stays within one scaled unit of the interval `[0, 1]`.
pub proof fn lemma_expneg_range(u: int)
    ensures
        0 <= expneg_spec(u) <= PRICE_SCALE as int,
    decreases u,
{
    let ps = PRICE_SCALE as int;
    if u <= 0 || u >= EXP_FLOOR as int {
    } else if u <= EXP_STEP as int {
        lemma_exp_base_range(u);
    } else {
        lemma_expneg_range(u - EXP_STEP as int);
        lemma_exp_base_range(EXP_STEP as int);
        let h = expneg_spec(u - EXP_STEP as int);
        let c = exp_base_spec(EXP_STEP as int);
        assert(0 <= h * c <= ps * ps) by (nonlinear_arith)
            requires 0 <= h <= ps, 0 <= c <= ps;
        lemma_div_pos_is_pos(h * c, ps);
        lemma_div_is_ordered(h * c, ps * ps, ps);
        assert((ps * ps) / ps == ps) by (nonlinear_arith)
            requires ps == PRICE_SCALE as int;
    }
}

/// The base polynomial stays within `[0, 1]` on its domain.
pub proof fn lemma_exp_base_range(u: int)
    requires
        0 <= u <= EXP_STEP as int,
    ensures
        0 <= exp_base_spec(u) <= PRICE_SCALE as int,
        exp_base_spec(u) >= PRICE_SCALE as int - u,
{
    let ps = PRICE_SCALE as int;
    assert(0 <= u * u) by (nonlinear_arith);
    lemma_div_pos_is_pos(u * u, 2 * ps);
    assert(u * u <= u * (2 * ps)) by (nonlinear_arith)
        requires 0 <= u <= EXP_STEP as int, ps == PRICE_SCALE as int;
    lemma_div_is_ordered(u * u, u * (2 * ps), 2 * ps);
    assert((u * (2 * ps)) / (2 * ps) == u) by (nonlinear_arith)
        requires ps == PRICE_SCALE as int;
}

/// The base polynomial never increases on its domain.
pub proof fn lemma_exp_base_mono(u1: int, u2: int)
    requires
        0 <= u1 <= u2 <= EXP_STEP as int,
    ensures
        exp_base_spec(u2) <= exp_base_spec(u1),
{
    let ps = PRICE_SCALE as int;
    let t = 2 * ps;
    let d = u2 - u1;
    let f1 = (u1 * u1) / t;
    let f2 = (u2 * u2) / t;
    lemma_fundamental_div_mod(u1 * u1, t);
    lemma_fundamental_div_mod(u2 * u2, t);
    let r1 = (u1 * u1) % t;
    let r2 = (u2 * u2) % t;
    assert(f2 - f1 <= d) by (nonlinear_arith)
        requires
            d == u2 - u1,
            0 <= u1 <= u2 <= EXP_STEP as int,
            u1 * u1 == t * f1 + r1,
            u2 * u2 == t * f2 + r2,
            0 <= r1 < t,
            0 <= r2 < t,
            t == 2048 * EXP_STEP as int,
            EXP_STEP as int > 0;
}

/// Scaled `exp(-u)` never increases.
pub proof fn lemma_expneg_mono(u1: int, u2: int)
    requires
        0 <= u1 <= u2,
    ensures
        expneg_spec(u2) <= expneg_spec(u1),
    decreases u2,
{
    let ps = PRICE_SCALE as int;
    let step = EXP_STEP as int;
    lemma_expneg_range(u1);
    lemma_expneg_range(u2);
    if u2 >= EXP_FLOOR as int || u1 == u2 {
    } else if u2 <= step {
        if u1 == 0 {
            lemma_exp_base_range(u2);
        } else {
            lemma_exp_base_mono(u1, u2);
        }
    } else {
        // u2 is in the recursive branch.
        let h2 = expneg_spec(u2 - step);
        let c = exp_base_spec(step);
        lemma_expneg_range(u2 - step);
        lemma_exp_base_range(step);
        if u1 > step {
            let h1 = expneg_spec(u1 - step);
            lemma_expneg_range(u1 - step);
            lemma_expneg_mono(u1 - step, u2 - step);
            assert(h2 * c <= h1 * c) by (nonlinear_arith)
                requires h2 <= h1, 0 <= c;
            lemma_div_is_ordered(h2 * c, h1 * c, ps);
        } else {
            // expneg(u2) <= exp_base(step) <= exp_base(u1).
            assert(h2 * c <= ps * c) by (nonlinear_arith)
                requires h2 <= ps, 0 <= c;
            lemma_div_is_ordered(h2 * c, ps * c, ps);
            assert((ps * c) / ps == c) by (nonlinear_arith)
                requires ps == PRICE_SCALE as int;
            if u1 == 0 {
                lemma_exp_base_range(step);
            } else {
                lemma_exp_base_mono(u1, step);
            }
        }
    }
}

/// The base polynomial, evaluated.
fn exp_base(u: u64) -> (r: u64)
    requires
        u <= EXP_STEP,
    ensures
        r as int == exp_base_spec(u as int),
        r <= PRICE_SCALE,
{
    proof {
        lemma_exp_base_range(u as int);
        assert((u as int) * (u as int) <= (EXP_STEP as int) * (EXP_STEP as int))
            by (nonlinear_arith)
            requires 0 <= u as int <= EXP_STEP as int;
    }
    let sq: u64 = u * u;
    let tail: u64 = sq / (2 * PRICE_SCALE);
    PRICE_SCALE - u + tail
}

/// Scaled `exp(-u)`, evaluated: peels `EXP_STEP` off `u` per factor.
fn expneg(u: u64) -> (r: u64)
    ensures
        r as int == expneg_spec(u as int),
        r <= PRICE_SCALE,
{
    proof {
        lemma_expneg_range(u as int);
    }
    if u >= EXP_FLOOR {
        return 0;
    }
    let mut x: u64 = u;
    let mut k: u64 = 0;
    while x > EXP_STEP
        invariant
            x as int + k as int * EXP_STEP as int == u as int,
            x <= u,
            u < EXP_FLOOR,
            k >= 1 ==> x >= 1,
        decreases x,
    {
        x = x - EXP_STEP;
        k = k + 1;
    }
    let c: u64 = exp_base(EXP_STEP);
    let mut acc: u64 = exp_base(x);
    let mut i: u64 = 0;
    proof {
        lemma_expneg_range(x as int);
    }
    while i < k
        invariant
            i <= k,
            x <= EXP_STEP,
            k >= 1 ==> x >= 1,
            x as int + k as int * EXP_STEP as int == u as int,
            u < EXP_FLOOR,
            c as int == exp_base_spec(EXP_STEP as int),
            c <= PRICE_SCALE,
            acc as int == expneg_spec(x as int + i as int * EXP_STEP as int),
            acc <= PRICE_SCALE,
        decreases k - i,
    {
        proof {
            let ps = PRICE_SCALE as int;
            assert(acc as int * c as int <= ps * ps) by (nonlinear_arith)
                requires 0 <= acc as int <= ps, 0 <= c as int <= ps, ps == PRICE_SCALE as int;
            assert(0 <= acc as int * c as int) by (nonlinear_arith)
                requires 0 <= acc as int, 0 <= c as int;
        }
        let prod: u128 = (acc as u128) * (c as u128);
        proof {
            let ps = PRICE_SCALE as int;
            lemma_div_pos_is_pos(prod as int, ps);
            lemma_div_is_ordered(prod as int, ps * ps, ps);
            assert((ps * ps) / ps == ps) by (nonlinear_arith)
                requires ps == PRICE_SCALE as int;
        }
        let next: u64 = (prod / (PRICE_SCALE as u128)) as u64;
        proof {
            let ps = PRICE_SCALE as int;
            let es = EXP_STEP as int;
            let y = x as int + (i as int + 1) * es;
            assert((i as int + 1) * es == i as int * es + es) by (nonlinear_arith);
            assert(y - es == x as int + i as int * es);
            assert((i as int + 1) * es <= k as int * es) by (nonlinear_arith)
                requires i as int + 1 <= k as int, es >= 0;
            assert(y <= u as int);
            assert(x >= 1);
            assert(y > es);
            assert(y < EXP_FLOOR as int);
            assert(expneg_spec(y) == (expneg_spec(y - es) * exp_base_spec(es)) / ps);
            assert(next as int == expneg_spec(y));
        }
        acc = next;
        i = i + 1;
    }
    acc
}

/// One side's scaled exponential factor given the share difference: one for
/// the side with the larger share count, `exp(-|d|/b)` for the other.
pub open spec fn side_spec(d: int, b: int) -> int {
    if d >= 0 {
        PRICE_SCALE as int
    } else {
        expneg_spec(((-d) * PRICE_SCALE as int) / b)
    }
}

/// The scaled LMSR price of the outcome whose share difference to the other
/// outcome is `d`, in a market of liquidity `b`.
pub open spec fn price_of_diff(d: int, b: int) -> int {
    (side_spec(d, b) * PRICE_SCALE as int) / (side_spec(d, b) + side_spec(-d, b))
}

/// Ordering of integer fractions: `x1/y1 <= x2/y2` whenever the cross
/// products are so ordered.
proof fn lemma_frac_mono(x1: int, y1: int, x2: int, y2: int)
    requires
        0 <= x1,
        0 <= x2,
        1 <= y1,
        1 <= y2,
        x1 * y2 <= x2 * y1,
    ensures
        x1 / y1 <= x2 / y2,
{
    let q1 = x1 / y1;
    let r1 = x1 % y1;
    let q2 = x2 / y2;
    let r2 = x2 % y2;
    lemma_fundamental_div_mod(x1, y1);
    lemma_fundamental_div_mod(x2, y2);
    assert(q1 <= q2) by (nonlinear_arith)
        requires
            x1 == y1 * q1 + r1,
            x2 == y2 * q2 + r2,
            0 <= r1 < y1,
            0 <= r2 < y2,
            x1 * y2 <= x2 * y1,
            1 <= y1,
            1 <= y2;
}

/// Splitting one whole into two floored shares loses at most one unit:
/// if the two numerators add to `PRICE_SCALE * t`, the floored shares add to
/// `PRICE_SCALE` or `PRICE_SCALE - 1`.
proof fn lemma_floor_pair(own: int, other: int)
    requires
        0 <= own,
        0 <= other,
        1 <= own + other,
    ensures
        PRICE_SCALE as int - 1
            <= (own * PRICE_SCALE as int) / (own + other)
                + (other * PRICE_SCALE as int) / (own + other),
        (own * PRICE_SCALE as int) / (own + other)
            + (other * PRICE_SCALE as int) / (own + other) <= PRICE_SCALE as int,
{
    let ps = PRICE_SCALE as int;
    let t = own + other;
    let n1 = own * ps;
    let n2 = other * ps;
    let q1 = n1 / t;
    let r1 = n1 % t;
    let q2 = n2 / t;
    let r2 = n2 % t;
    lemma_fundamental_div_mod(n1, t);
    lemma_fundamental_div_mod(n2, t);
    assert(ps - 1 <= q1 + q2 <= ps) by (nonlinear_arith)
        requires
            n1 + n2 == t * ps,
            n1 == t * q1 + r1,
            n2 == t * q2 + r2,
            0 <= r1 < t,
            0 <= r2 < t,
            1 <= t;
}

/// The side factor never decreases with the share difference.
proof fn lemma_side_mono(d1: int, d2: int, b: int)
    requires
        1 <= b,
        d1 <= d2,
    ensures
        side_spec(d1, b) <= side_spec(d2, b),
{
    let ps = PRICE_SCALE as int;
    if d2 >= 0 {
        if d1 < 0 {
            lemma_expneg_range(((-d1) * ps) / b);
        }
    } else {
        lemma_div_is_ordered((-d2) * ps, (-d1) * ps, b);
        lemma_div_pos_is_pos((-d2) * ps, b);
        lemma_expneg_mono(((-d2) * ps) / b, ((-d1) * ps) / b);
    }
}

/// The side factors are in `[0, 1]` and at least one of them is exactly 1,
/// so their sum is positive.
proof fn lemma_side_range(d: int, b: int)
    requires
        1 <= b,
    ensures
        0 <= side_spec(d, b) <= PRICE_SCALE as int,
        side_spec(d, b) + side_spec(-d, b) >= PRICE_SCALE as int,
{
    let ps = PRICE_SCALE as int;
    if d < 0 {
        lemma_expneg_range(((-d) * ps) / b);
    }
    if -d < 0 {
        lemma_expneg_range((d * ps) / b);
    }
}

/// The prices of the two outcomes of one market state add to 1, up to a
/// single price unit (`10^-12`) lost to rounding.
pub proof fn lemma_price_of_diff_sum(d: int, b: int)
    requires
        1 <= b,
    ensures
        PRICE_SCALE as int - 1 <= price_of_diff(d, b) + price_of_diff(-d, b),
        price_of_diff(d, b) + price_of_diff(-d, b) <= PRICE_SCALE as int,
{
    lemma_side_range(d, b);
    lemma_side_range(-d, b);
    lemma_floor_pair(side_spec(d, b), side_spec(-d, b));
}

/// The price of a side never decreases as its share difference grows.
pub proof fn lemma_price_of_diff_mono(d1: int, d2: int, b: int)
    requires
        1 <= b,
        d1 <= d2,
    ensures
        price_of_diff(d1, b) <= price_of_diff(d2, b),
{
    let ps = PRICE_SCALE as int;
    let own1 = side_spec(d1, b);
    let oth1 = side_spec(-d1, b);
    let own2 = side_spec(d2, b);
    let oth2 = side_spec(-d2, b);
    lemma_side_mono(d1, d2, b);
    lemma_side_mono(-d2, -d1, b);
    lemma_side_range(d1, b);
    lemma_side_range(d2, b);
    assert((own1 * ps) * (own2 + oth2) <= (own2 * ps) * (own1 + oth1))
        by (nonlinear_arith)
        requires
            own1 <= own2,
            oth2 <= oth1,
            0 <= own1,
            0 <= own2,
            0 <= oth2,
            0 <= ps;
    assert(0 <= own1 * ps) by (nonlinear_arith)
        requires 0 <= own1, 0 <= ps;
    assert(0 <= own2 * ps) by (nonlinear_arith)
        requires 0 <= own2, 0 <= ps;
    lemma_frac_mono(own1 * ps, own1 + oth1, own2 * ps, own2 + oth2);
}

/// A binary LMSR market: liquidity and the two outcome share counts, all in
/// micro units.
pub struct LmsrMarket {
    /// Liquidity parameter; strictly positive.
    pub b: i64,
    /// Shares outstanding on the Pass outcome.
    pub q_pass: i64,
    /// Shares outstanding on the Reject outcome.
    pub q_reject: i64,
}

impl LmsrMarket {
    /// Well-formed: liquidity is strictly positive.
    pub open spec fn wf(self) -> bool {
        1 <= self.b
    }

    /// The share difference that determines the Pass price.
    pub open spec fn diff(self) -> int {
        self.q_pass as int - self.q_reject as int
    }

    /// The scaled price of an outcome of this market.
    pub open spec fn price_spec(self, outcome: int) -> int {
        if outcome == OUTCOME_PASS as int {
            price_of_diff(self.diff(), self.b as int)
        } else {
            price_of_diff(-self.diff(), self.b as int)
        }
    }

    /// A fresh market: no shares outstanding on either outcome.
    pub fn new(b: i64) -> (m: LmsrMarket)
        requires
            1 <= b,
        ensures
            m.wf(),
            m.b == b,
            m.q_pass == 0,
            m.q_reject == 0,
    {
        LmsrMarket { b, q_pass: 0, q_reject: 0 }
    }

    /// The scaled exponential factor of the side whose share difference is `d`.
    fn side_factor(&self, d: i128) -> (r: u64)
        requires
            self.wf(),
            -0x20000000000000000 < d < 0x20000000000000000,
        ensures
            r as int == side_spec(d as int, self.b as int),
            r <= PRICE_SCALE,
    {
        if d >= 0 {
            PRICE_SCALE
        } else {
            proof {
                assert((-d as int) * (PRICE_SCALE as int)
                    <= 0x20000000000000000 * (PRICE_SCALE as int)) by (nonlinear_arith)
                    requires 0 < -d as int <= 0x20000000000000000;
                assert(0 <= (-d as int) * (PRICE_SCALE as int)) by (nonlinear_arith)
                    requires 0 < -d as int;
            }
            let num: i128 = (-d) * (PRICE_SCALE as i128);
            let arg: i128 = num / (self.b as i128);
            proof {
                lemma_div_pos_is_pos(num as int, self.b as int);
                lemma_expneg_range(arg as int);
            }
            if arg >= EXP_FLOOR as i128 {
                0
            } else {
                expneg(arg as u64)
            }
        }
    }

    /// The instantaneous price of `outcome`, at the price scale: exactly the
    /// LMSR price of the current share counts. Unknown outcome ids are
    /// rejected.
    pub fn price(&self, outcome: u64) -> (r: Result<u64, SimError>)
        requires
            self.wf(),
        ensures
            outcome <= 1 ==> r == Ok::<u64, SimError>(
                self.price_spec(outcome as int) as u64),
            outcome > 1 ==> r == Err::<u64, SimError>(SimError::UnknownOutcome),
            r is Ok ==> r.unwrap() <= PRICE_SCALE,
    {
        if outcome > 1 {
            return Err(SimError::UnknownOutcome);
        }
        let d: i128 = (self.q_pass as i128) - (self.q_reject as i128);
        let dd: i128 = if outcome == OUTCOME_PASS { d } else { -d };
        let own: u64 = self.side_factor(dd);
        let other: u64 = self.side_factor(-dd);
        proof {
            assert(own as int + other as int >= 1);
        }
        let num: u128 = (own as u128) * (PRICE_SCALE as u128);
        let den: u128 = (own as u128) + (other as u128);
        let p: u128 = num / den;
        proof {
            let ps = PRICE_SCALE as int;
            let o = own as int;
            let t = own as int + other as int;
            assert(o * ps <= t * ps) by (nonlinear_arith)
                requires o <= t, 0 <= ps;
            lemma_div_is_ordered(o * ps, t * ps, t);
            assert((t * ps) / t == ps) by (nonlinear_arith)
                requires t >= 1, ps == PRICE_SCALE as int;
            lemma_div_pos_is_pos(o * ps, t);
        }
        Ok(p as u64)
    }

    /// Moves `delta` micro-shares (negative to sell) onto an outcome; the
    /// share count saturates only at the far ends of the i64 range. Unknown
    /// outcome ids are rejected and change nothing.
    pub fn buy(&mut self, outcome: u64, delta: i64) -> (r: Result<(), SimError>)
        requires
            old(self).wf(),
        ensures
            final(self).wf(),
            final(self).b == old(self).b,
            outcome > 1 ==> r == Err::<(), SimError>(SimError::UnknownOutcome)
                && *final(self) == *old(self),
            outcome == OUTCOME_PASS as u64 ==> r == Ok::<(), SimError>(())
                && final(self).q_pass as int == crate::fixed::sat_add_spec(
                    old(self).q_pass as int, delta as int)
                && final(self).q_reject == old(self).q_reject,
            outcome == OUTCOME_REJECT as u64 ==> r == Ok::<(), SimError>(())
                && final(self).q_reject as int == crate::fixed::sat_add_spec(
                    old(self).q_reject as int, delta as int)
                && final(self).q_pass == old(self).q_pass,
    {
        if outcome == OUTCOME_PASS {
            self.q_pass = crate::fixed::sat_add(self.q_pass, delta);
            Ok(())
        } else if outcome == OUTCOME_REJECT {
            self.q_reject = crate::fixed::sat_add(self.q_reject, delta);
            Ok(())
        } else {
            Err(SimError::UnknownOutcome)
        }
    }
}

/// In every reachable market state the two outcome prices sum to one, up to
/// a single unit of the price scale (an error of `10^-12`, well inside
/// `10^-9`) lost when each price is rounded down.
pub proof fn lemma_price_sum(m: LmsrMarket)
    requires
        m.wf(),
    ensures
        PRICE_SCALE as int - 1
            <= m.price_spec(OUTCOME_PASS as int) + m.price_spec(OUTCOME_REJECT as int),
        m.price_spec(OUTCOME_PASS as int) + m.price_spec(OUTCOME_REJECT as int)
            <= PRICE_SCALE as int,
{
    lemma_price_of_diff_sum(m.diff(), m.b as int);
}

/// A market with equal share counts — a fresh one in particular — prices
/// both outcomes at exactly one half.
pub proof fn lemma_balanced_market_is_even(m: LmsrMarket)
    requires
        m.wf(),
        m.q_pass == m.q_reject,
    ensures
        m.price_spec(OUTCOME_PASS as int) == PRICE_SCALE as int / 2,
        m.price_spec(OUTCOME_REJECT as int) == PRICE_SCALE as int / 2,
{
    let ps = PRICE_SCALE as int;
    assert((ps * ps) / (ps + ps) == ps / 2) by (nonlinear_arith)
        requires ps == PRICE_SCALE as int;
}

/// The price of an outcome never decreases when shares of that outcome are
/// added, and never increases when shares of the other outcome are added.
/// (The real-valued LMSR price is strictly monotone; at a finite price scale
/// a small enough trade can leave the rounded price unchanged, so the bound
/// proved here is the non-strict one.)
pub proof fn lemma_price_monotone(m1: LmsrMarket, m2: LmsrMarket)
    requires
        m1.wf(),
        m2.wf(),
        m1.b == m2.b,
        m1.diff() <= m2.diff(),
    ensures
        m1.price_spec(OUTCOME_PASS as int) <= m2.price_spec(OUTCOME_PASS as int),
        m2.price_spec(OUTCOME_REJECT as int) <= m1.price_spec(OUTCOME_REJECT as int),
{
    lemma_price_of_diff_mono(m1.diff(), m2.diff(), m1.b as int);
    lemma_price_of_diff_mono(-m2.diff(), -m1.diff(), m1.b as int);
}

} // verus!
