//! Fixed-point arithmetic helpers shared by the engines: saturating sums,
//! the quadratic vote cost, and an integer square root.

use vstd::prelude::*;

verus! {

/// Saturating i64 addition, as a mathematical function.
pub open spec fn sat_add_spec(a: int, b: int) -> int {
    if a + b > i64::MAX as int {
        i64::MAX as int
    } else if a + b < i64::MIN as int {
        i64::MIN as int
    } else {
        a + b
    }
}

/// Saturating i64 addition; exact whenever the exact sum fits.
pub fn sat_add(a: i64, b: i64) -> (r: i64)
    ensures
        r as int == sat_add_spec(a as int, b as int),
{
    let s: i128 = a as i128 + b as i128;
    if s > i64::MAX as i128 {
        i64::MAX
    } else if s < i64::MIN as i128 {
        i64::MIN
    } else {
        s as i64
    }
}

/// Clamping a wide value into the i64 range, as a mathematical function.
pub open spec fn sat_i64_spec(x: int) -> int {
    if x > i64::MAX as int {
        i64::MAX as int
    } else if x < i64::MIN as int {
        i64::MIN as int
    } else {
        x
    }
}

/// Clamps a wide value into the i64 range; exact whenever the value fits.
pub fn sat_to_i64(x: i128) -> (r: i64)
    ensures
        r as int == sat_i64_spec(x as int),
{
    if x > i64::MAX as i128 {
        i64::MAX
    } else if x < i64::MIN as i128 {
        i64::MIN
    } else {
        x as i64
    }
}

/// Largest vote magnitude (in micro-votes) whose quadratic cost still fits in
/// an i64 credit amount.
pub const MAX_VOTE: i64 = 3_000_000_000_000;

/// Quadratic cost of a vote increment of `v` micro-votes, in micro-credits:
/// the fixed-point rendering of `v * v` over the micro scale.
pub open spec fn cost_spec(v: int) -> int {
    (v * v) / (crate::MICRO as int)
}

/// Quadratic cost of a vote increment; `v` is bounded so that the square fits.
pub fn cost_of(v: i64) -> (r: i64)
    requires
        -MAX_VOTE <= v <= MAX_VOTE,
    ensures
        r as int == cost_spec(v as int),
        0 <= r,
{
    proof {
        assert((v as int) * (v as int) <= (MAX_VOTE as int) * (MAX_VOTE as int))
            by (nonlinear_arith)
            requires -MAX_VOTE <= v <= MAX_VOTE;
        assert((v as int) * (v as int) >= 0) by (nonlinear_arith);
    }
    let sq: i128 = (v as i128) * (v as i128);
    let c: i128 = sq / (crate::MICRO as i128);
    proof {
        assert(0 <= c <= 9_000_000_000_000_000_000i128);
    }
    c as i64
}

/// `r` is the integer square root of `n`.
pub open spec fn is_isqrt(r: int, n: int) -> bool {
    0 <= r && r * r <= n && (r + 1) * (r + 1) > n
}

/// The floor square root as a mathematical function.
pub open spec fn sqrt_floor(n: int) -> int {
    choose|r: int| is_isqrt(r, n)
}

/// The floor square root is unique, so any witness pins `sqrt_floor`.
pub proof fn lemma_sqrt_floor(r: int, n: int)
    requires
        is_isqrt(r, n),
    ensures
        sqrt_floor(n) == r,
{
    assert(exists|x: int| is_isqrt(x, n)) by {
        assert(is_isqrt(r, n));
    }
    let picked = choose|x: int| is_isqrt(x, n);
    assert(picked == r) by (nonlinear_arith)
        requires
            0 <= picked,
            picked * picked <= n,
            (picked + 1) * (picked + 1) > n,
            0 <= r,
            r * r <= n,
            (r + 1) * (r + 1) > n;
}

/// Two to the fiftieth power: an upper bound for every square root this crate
/// takes.
pub const SQRT_BOUND: u64 = 1_125_899_906_842_624;

/// Integer square root: the floor of the real square root.
pub fn isqrt(n: u128) -> (r: u64)
    requires
        (n as int) < (SQRT_BOUND as int) * (SQRT_BOUND as int),
    ensures
        (r as int) * (r as int) <= n as int,
        (r as int + 1) * (r as int + 1) > n as int,
{
    let mut lo: u64 = 0;
    let mut hi: u64 = SQRT_BOUND;
    while lo + 1 < hi
        invariant
            lo < hi,
            hi <= SQRT_BOUND,
            (lo as int) * (lo as int) <= n as int,
            (hi as int) * (hi as int) > n as int,
        decreases hi - lo,
    {
        let mid: u64 = lo + (hi - lo) / 2;
        proof {
            assert((mid as int) * (mid as int) <= (SQRT_BOUND as int) * (SQRT_BOUND as int))
                by (nonlinear_arith)
                requires 0 <= mid as int <= SQRT_BOUND as int;
            assert((SQRT_BOUND as int) * (SQRT_BOUND as int) < u128::MAX as int);
        }
        let sq: u128 = (mid as u128) * (mid as u128);
        if sq <= n {
            lo = mid;
        } else {
            hi = mid;
        }
    }
    lo
}

} // verus!
