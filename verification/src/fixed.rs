//! Fixed-point arithmetic helpers: saturation to the coordinate range,
//! truncating division, and an integer square root.

use vstd::prelude::*;

verus! {

/// Number of fixed-point units per pixel (coordinates are micro-pixels).
pub const SCALE: i64 = 1_000_000;

/// Largest magnitude a stored coordinate may take (2^30 units, about
/// 1073 pixels). Every coordinate written by the simulation is saturated
/// into `[-POS_LIMIT, POS_LIMIT]`, which keeps all intermediate products
/// of the solver well inside `i128`.
pub const POS_LIMIT: i64 = 1_073_741_824;

/// Saturate a value into the coordinate range.
pub open spec fn clamp(v: int) -> int {
    if v > POS_LIMIT as int {
        POS_LIMIT as int
    } else if v < -(POS_LIMIT as int) {
        -(POS_LIMIT as int)
    } else {
        v
    }
}

/// Division that truncates toward zero (the behaviour of `/` on machine
/// integers), for a positive divisor.
pub open spec fn div_trunc(a: int, b: int) -> int
    recommends
        b > 0,
{
    if a >= 0 {
        a / b
    } else {
        -((-a) / b)
    }
}

/// `r` is the integer square root of `n`, rounded down.
pub open spec fn is_sqrt(n: int, r: int) -> bool {
    0 <= r && r * r <= n && n < (r + 1) * (r + 1)
}

/// The integer square root of `n`, rounded down.
pub open spec fn sqrt_floor(n: int) -> int {
    choose|r: int| is_sqrt(n, r)
}

/// Any root satisfying `is_sqrt` is the unique value of `sqrt_floor`.
pub proof fn lemma_sqrt_floor(n: int, r: int)
    requires
        is_sqrt(n, r),
    ensures
        sqrt_floor(n) == r,
{
    let c = choose|x: int| is_sqrt(n, x);
    assert(is_sqrt(n, c));
    assert(c == r) by (nonlinear_arith)
        requires
            0 <= c,
            c * c <= n,
            n < (c + 1) * (c + 1),
            0 <= r,
            r * r <= n,
            n < (r + 1) * (r + 1),
    ;
}

/// Saturate a wide intermediate value into the coordinate range.
pub fn clamp_i128(v: i128) -> (r: i64)
    ensures
        r as int == clamp(v as int),
        -POS_LIMIT <= r <= POS_LIMIT,
{
    if v > POS_LIMIT as i128 {
        POS_LIMIT
    } else if v < -POS_LIMIT as i128 {
        -POS_LIMIT
    } else {
        v as i64
    }
}

/// Division truncating toward zero on wide intermediates.
pub fn div_trunc_i128(a: i128, b: i128) -> (r: i128)
    requires
        b > 0,
        a > i128::MIN,
    ensures
        r == div_trunc(a as int, b as int),
{
    if a >= 0 {
        ((a as u128) / (b as u128)) as i128
    } else {
        let m: u128 = ((-a) as u128) / (b as u128);
        -(m as i128)
    }
}

/// Integer square root of a 64-bit value, rounded down, by bisection.
pub fn isqrt_u64(n: u64) -> (r: u64)
    ensures
        is_sqrt(n as int, r as int),
        r as int == sqrt_floor(n as int),
{
    let mut lo: u64 = 0;
    let mut hi: u64 = 4_294_967_296;
    assert((n as int) < 4_294_967_296 * 4_294_967_296);
    while hi - lo > 1
        invariant
            lo < hi <= 4_294_967_296,
            (lo as int) * (lo as int) <= n as int,
            (n as int) < (hi as int) * (hi as int),
        decreases hi - lo,
    {
        let mid: u64 = lo + (hi - lo) / 2;
        assert((mid as int) * (mid as int) <= 4_294_967_296 * 4_294_967_296) by (nonlinear_arith)
            requires
                0 <= mid <= 4_294_967_296,
        ;
        let sq: u128 = (mid as u128) * (mid as u128);
        if sq <= n as u128 {
            lo = mid;
        } else {
            hi = mid;
        }
    }
    proof {
        lemma_sqrt_floor(n as int, lo as int);
    }
    lo
}

} // verus!
