//! Move-ordering history tables. Every table is updated with the "gravity" rule
//! `v += bonus - v * |bonus| / limit`, which keeps each entry within `±limit` as long as
//! the bonuses do.
pub mod butterfly;
pub mod capture;
pub mod continuation;
pub mod correction;
pub mod killer;

use vstd::prelude::*;

verus! {

/// Division rounding toward zero, as Rust's `/` on signed integers does.
pub open spec fn trunc_div(a: int, d: int) -> int {
    if a >= 0 { a / d } else { -((-a) / d) }
}

pub open spec fn abs(x: int) -> int {
    if x < 0 { -x } else { x }
}

/// The entry after a gravity update of `v` with `bonus` and limit `limit`.
pub open spec fn gravity(v: int, bonus: int, limit: int) -> int {
    v + bonus - trunc_div(v * abs(bonus), limit)
}

/// A gravity update keeps an entry within `±limit` when the bonus is within it.
pub proof fn lemma_gravity_bounded(v: int, bonus: int, limit: int)
    requires
        limit > 0,
        -limit <= v <= limit,
        -limit <= bonus <= limit,
    ensures
        -limit <= gravity(v, bonus, limit) <= limit,
{
    let b = abs(bonus);
    let p = v * b;
    if v >= 0 {
        assert(0 <= p <= v * limit) by (nonlinear_arith)
            requires v >= 0, 0 <= b <= limit, p == v * b;
        let q = p / limit;
        assert(0 <= q <= v) by (nonlinear_arith)
            requires 0 <= p <= v * limit, limit > 0, q == p / limit;
        if bonus >= 0 {
            // (limit - v) * (limit - b) >= 0 gives p >= limit * (v + b - limit)
            assert(p >= limit * (v + b - limit)) by (nonlinear_arith)
                requires 0 <= v <= limit, 0 <= b <= limit, p == v * b;
            assert(q >= v + b - limit) by (nonlinear_arith)
                requires p >= limit * (v + b - limit), limit > 0, q == p / limit;
        } else {
            assert(p <= limit * (v - (limit - b)) + limit * limit - limit * b + limit * b) by (nonlinear_arith)
                requires 0 <= v <= limit, 0 <= b <= limit, p == v * b;
            assert(q * limit <= p) by (nonlinear_arith)
                requires limit > 0, q == p / limit, p >= 0;
            assert(v * (limit - b) >= 0) by (nonlinear_arith)
                requires 0 <= v, b <= limit;
        }
    } else {
        let n = -v;
        let pn = n * b;
        assert(p == -pn) by (nonlinear_arith)
            requires p == v * b, n == -v, pn == n * b;
        assert(0 <= pn <= n * limit) by (nonlinear_arith)
            requires n > 0, 0 <= b <= limit, pn == n * b;
        let q = pn / limit;
        assert(0 <= q <= n) by (nonlinear_arith)
            requires 0 <= pn <= n * limit, limit > 0, q == pn / limit;
        assert(trunc_div(p, limit) == -q);
        if bonus < 0 {
            assert(pn >= limit * (n + b - limit)) by (nonlinear_arith)
                requires 0 <= n <= limit, 0 <= b <= limit, pn == n * b;
            assert(q >= n + b - limit) by (nonlinear_arith)
                requires pn >= limit * (n + b - limit), limit > 0, q == pn / limit;
        } else {
            assert(q * limit <= pn) by (nonlinear_arith)
                requires limit > 0, q == pn / limit, pn >= 0;
            assert(n * (limit - b) >= 0) by (nonlinear_arith)
                requires 0 <= n, b <= limit;
        }
    }
}

/// Applies a gravity update to `v`.
pub fn gravity_update(v: i32, bonus: i32, limit: i32) -> (r: i32)
    requires
        0 < limit <= 16384,
        -limit <= v <= limit,
        -limit <= bonus <= limit,
    ensures
        r == gravity(v as int, bonus as int, limit as int),
        -limit <= r <= limit,
{
    proof {
        lemma_gravity_bounded(v as int, bonus as int, limit as int);
    }
    let b = if bonus < 0 { -bonus } else { bonus };
    assert(-16384 * 16384 <= v * b <= 16384 * 16384) by (nonlinear_arith)
        requires -16384 <= v <= 16384, 0 <= b <= 16384;
    v + bonus - (v * b) / limit
}

} // verus!
