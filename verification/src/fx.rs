//! Fixed-point scalar arithmetic.
//!
//! A scalar is an `i64` counting raw ticks; one world unit is `FX_ONE`
//! ticks.  Products and quotients are computed in `i128` and truncated
//! toward zero, the conventional rounding for fixed-point code.  Each
//! executable operation is specified exactly in terms of the spec-level
//! truncating division `tdiv`, so callers can reason about results to
//! the last tick.

use vstd::arithmetic::div_mod::{
    lemma_div_is_ordered, lemma_div_pos_is_pos, lemma_fundamental_div_mod,
};
use vstd::arithmetic::mul::{lemma_mul_inequality, lemma_mul_is_commutative};
use vstd::prelude::*;

verus! {

/// One world unit, in raw ticks.
pub const FX_ONE: i64 = 1_000_000;

/// Half a world unit, in raw ticks.
pub const FX_HALF: i64 = 500_000;

/// Smallest time delta (raw ticks of a second) the solver and the PID
/// controller accept before treating the step as degenerate.
pub const DT_EPSILON: i64 = 1_000;

/// Magnitude cap on the raw arguments of the arithmetic helpers; large
/// enough for every quantity the simulation forms, small enough that an
/// `i128` product can never wrap.
pub const FX_ARG_LIM: i64 = 4_000_000_000_000_000_000;

/// Magnitude of an integer.
pub open spec fn iabs(a: int) -> int {
    if a >= 0 {
        a
    } else {
        -a
    }
}

/// Division truncated toward zero, the rounding of Rust's `/` operator.
/// Only ever used with a positive divisor.
pub open spec fn tdiv(a: int, b: int) -> int {
    if a >= 0 {
        a / b
    } else {
        -((-a) / b)
    }
}

/// Raw value of the fixed-point product of raw values `a` and `b`.
pub open spec fn fx_mul_spec(a: int, b: int) -> int {
    tdiv(a * b, FX_ONE as int)
}

/// Raw value of the fixed-point quotient of raw values `a` and `b`.
pub open spec fn fx_div_spec(a: int, b: int) -> int {
    tdiv(a * (FX_ONE as int), b)
}

/// Truncating division never changes sign.
pub proof fn lemma_tdiv_sign(a: int, b: int)
    requires
        b >= 1,
    ensures
        a >= 0 ==> tdiv(a, b) >= 0,
        a <= 0 ==> tdiv(a, b) <= 0,
{
    if a >= 0 {
        lemma_div_pos_is_pos(a, b);
    } else {
        lemma_div_pos_is_pos(-a, b);
    }
}

/// Negating the dividend negates the truncated quotient.
pub proof fn lemma_tdiv_neg(a: int, b: int)
    requires
        b >= 1,
    ensures
        tdiv(-a, b) == -tdiv(a, b),
{
    if a == 0 {
    } else if a > 0 {
        lemma_div_pos_is_pos(a, b);
    } else {
        lemma_div_pos_is_pos(-a, b);
    }
}

/// The two-sided multiplicative bound of a truncated quotient:
/// `|q| * b <= |a| < (|q| + 1) * b`.
pub proof fn lemma_tdiv_mul_bound(a: int, b: int)
    requires
        b >= 1,
    ensures
        iabs(tdiv(a, b)) * b <= iabs(a),
        iabs(a) < (iabs(tdiv(a, b)) + 1) * b,
        iabs(tdiv(a, b)) <= iabs(a),
{
    let m = iabs(a);
    let q = m / b;
    lemma_fundamental_div_mod(m, b);
    lemma_div_pos_is_pos(m, b);
    if a >= 0 {
        assert(tdiv(a, b) == q);
    } else {
        assert(tdiv(a, b) == -q);
    }
    assert(iabs(tdiv(a, b)) == q);
    assert(q * b <= m) by {
        assert(m == b * q + m % b);
        lemma_mul_is_commutative(b, q);
    }
    assert(m < (q + 1) * b) by {
        assert(m == b * q + m % b);
        assert(m % b < b);
        lemma_mul_is_commutative(b, q);
        assert((q + 1) * b == q * b + b) by (nonlinear_arith);
    }
    assert(q <= q * b) by {
        lemma_mul_inequality(1, b, q);
        lemma_mul_is_commutative(b, q);
    }
}

/// Bounds on both factors bound the fixed-point product:
/// `|a| <= ca` and `|b| <= cb` give `|fx_mul_spec(a, b)| * FX_ONE <= ca * cb`.
pub proof fn lemma_fxm_bound(a: int, b: int, ca: int, cb: int)
    requires
        iabs(a) <= ca,
        iabs(b) <= cb,
    ensures
        iabs(fx_mul_spec(a, b)) * (FX_ONE as int) <= ca * cb,
        iabs(fx_mul_spec(a, b)) <= ca * cb,
{
    let s = FX_ONE as int;
    assert(iabs(a * b) <= ca * cb) by (nonlinear_arith)
        requires
            iabs(a) <= ca,
            iabs(b) <= cb,
    ;
    lemma_tdiv_mul_bound(a * b, s);
    assert(iabs(tdiv(a * b, s)) * s <= iabs(a * b));
    assert(iabs(tdiv(a * b, s)) <= iabs(tdiv(a * b, s)) * s) by {
        lemma_mul_inequality(1, s, iabs(tdiv(a * b, s)));
        lemma_mul_is_commutative(s, iabs(tdiv(a * b, s)));
    }
}

/// A zero factor gives a zero fixed-point product.
pub proof fn lemma_fxm_zero(a: int)
    ensures
        fx_mul_spec(a, 0) == 0,
        fx_mul_spec(0, a) == 0,
{
    assert(a * 0 == 0) by (nonlinear_arith);
    assert(0 * a == 0) by (nonlinear_arith);
}

/// The fixed-point product commutes.
pub proof fn lemma_fxm_comm(a: int, b: int)
    ensures
        fx_mul_spec(a, b) == fx_mul_spec(b, a),
{
    lemma_mul_is_commutative(a, b);
}

/// Negating a factor negates the fixed-point product.
pub proof fn lemma_fxm_neg(a: int, b: int)
    ensures
        fx_mul_spec(-a, b) == -fx_mul_spec(a, b),
        fx_mul_spec(a, -b) == -fx_mul_spec(a, b),
{
    assert((-a) * b == -(a * b)) by (nonlinear_arith);
    assert(a * (-b) == -(a * b)) by (nonlinear_arith);
    lemma_tdiv_neg(a * b, FX_ONE as int);
}

/// Sign and magnitude bounds of the fixed-point quotient.
pub proof fn lemma_fxd_bound(a: int, b: int)
    requires
        1 <= b,
    ensures
        iabs(fx_div_spec(a, b)) <= iabs(a) * (FX_ONE as int),
        iabs(fx_div_spec(a, b)) * b <= iabs(a) * (FX_ONE as int),
        a >= 0 ==> fx_div_spec(a, b) >= 0,
        a <= 0 ==> fx_div_spec(a, b) <= 0,
{
    let s = FX_ONE as int;
    lemma_tdiv_mul_bound(a * s, b);
    assert(iabs(a * s) == iabs(a) * s) by (nonlinear_arith)
        requires
            s >= 0,
    ;
    let q = tdiv(a * s, b);
    assert(iabs(q) * 1 <= iabs(q) * b) by (nonlinear_arith)
        requires
            1 <= b,
            0 <= iabs(q),
    ;
    if a >= 0 {
        assert(a * s >= 0) by (nonlinear_arith)
            requires
                a >= 0,
                s >= 0,
        ;
        lemma_tdiv_sign(a * s, b);
    } else {
        assert(a * s <= 0) by (nonlinear_arith)
            requires
                a <= 0,
                s >= 0,
        ;
        lemma_tdiv_sign(a * s, b);
    }
}

/// Dividing a value by something at least as large gives at most one
/// unit.
pub proof fn lemma_fxd_unit(a: int, b: int)
    requires
        1 <= b,
        iabs(a) <= b,
    ensures
        iabs(fx_div_spec(a, b)) <= FX_ONE as int,
{
    let s = FX_ONE as int;
    lemma_tdiv_mul_bound(a * s, b);
    assert(iabs(a * s) == iabs(a) * s) by (nonlinear_arith)
        requires
            s >= 0,
    ;
    let q = tdiv(a * s, b);
    assert(iabs(q) * b <= iabs(a) * s);
    assert(iabs(q) <= s) by (nonlinear_arith)
        requires
            iabs(q) * b <= iabs(a) * s,
            iabs(a) <= b,
            1 <= b,
            0 <= iabs(q),
            0 <= s,
    ;
}

/// The fixed-point square of a value is nonnegative.
pub proof fn lemma_fxm_sq_nonneg(a: int)
    ensures
        fx_mul_spec(a, a) >= 0,
{
    assert(a * a >= 0) by (nonlinear_arith);
    lemma_tdiv_sign(a * a, FX_ONE as int);
}

/// A nonnegative pair has a nonnegative fixed-point product.
pub proof fn lemma_fxm_nonneg(a: int, b: int)
    requires
        0 <= a,
        0 <= b,
    ensures
        fx_mul_spec(a, b) >= 0,
{
    assert(a * b >= 0) by (nonlinear_arith)
        requires
            0 <= a,
            0 <= b,
    ;
    lemma_tdiv_sign(a * b, FX_ONE as int);
}

/// Saturation bound used for diagnostic outputs and rotation-vector
/// scalars whose exact value can exceed the representable range.
pub const FX_SAT: i64 = 1_000_000_000_000_000_000;

/// Clamp a raw value into the saturation band.
pub open spec fn sat_fx(a: int) -> int {
    if a > FX_SAT as int {
        FX_SAT as int
    } else if a < -(FX_SAT as int) {
        -(FX_SAT as int)
    } else {
        a
    }
}

/// Fixed-point product of two raw scalars, truncated toward zero.
pub fn fx_mul(a: i64, b: i64) -> (r: i64)
    requires
        -FX_ARG_LIM <= a <= FX_ARG_LIM,
        -FX_ARG_LIM <= b <= FX_ARG_LIM,
        -FX_ARG_LIM <= fx_mul_spec(a as int, b as int) <= FX_ARG_LIM,
    ensures
        r == fx_mul_spec(a as int, b as int),
{
    proof {
        let lim = FX_ARG_LIM as int;
        assert(iabs(a as int) <= lim && iabs(b as int) <= lim);
        assert(iabs((a as int) * (b as int)) <= lim * lim) by (nonlinear_arith)
            requires
                iabs(a as int) <= lim,
                iabs(b as int) <= lim,
        ;
    }
    let p: i128 = (a as i128) * (b as i128);
    let q: i128 = p / (FX_ONE as i128);
    proof {
        lemma_tdiv_mul_bound(p as int, FX_ONE as int);
        if p >= 0 {
        } else {
            lemma_tdiv_neg(p as int, FX_ONE as int);
        }
    }
    q as i64
}

/// Fixed-point product clamped into the saturation band; used where a
/// degenerate configuration could push the exact product out of range.
pub fn fx_mul_sat(a: i64, b: i64) -> (r: i64)
    requires
        -FX_ARG_LIM <= a <= FX_ARG_LIM,
        -FX_ARG_LIM <= b <= FX_ARG_LIM,
    ensures
        r == sat_fx(fx_mul_spec(a as int, b as int)),
        -FX_SAT <= r <= FX_SAT,
{
    proof {
        let lim = FX_ARG_LIM as int;
        assert(iabs((a as int) * (b as int)) <= lim * lim) by (nonlinear_arith)
            requires
                iabs(a as int) <= lim,
                iabs(b as int) <= lim,
        ;
    }
    let p: i128 = (a as i128) * (b as i128);
    let q: i128 = p / (FX_ONE as i128);
    proof {
        lemma_tdiv_mul_bound(p as int, FX_ONE as int);
        if p >= 0 {
        } else {
            lemma_tdiv_neg(p as int, FX_ONE as int);
        }
    }
    if q > FX_SAT as i128 {
        FX_SAT
    } else if q < -(FX_SAT as i128) {
        -FX_SAT
    } else {
        q as i64
    }
}

/// Fixed-point quotient clamped into the saturation band; used for
/// the force and torque diagnostics, whose division by the tiny
/// squared time delta can exceed the representable range.
pub fn fx_div_sat(a: i64, b: i64) -> (r: i64)
    requires
        -FX_ARG_LIM <= a <= FX_ARG_LIM,
        1 <= b,
    ensures
        r == sat_fx(fx_div_spec(a as int, b as int)),
        -FX_SAT <= r <= FX_SAT,
{
    proof {
        let lim = FX_ARG_LIM as int;
        assert(iabs((a as int) * (FX_ONE as int)) <= lim * (FX_ONE as int)) by (nonlinear_arith)
            requires
                iabs(a as int) <= lim,
        ;
    }
    let p: i128 = (a as i128) * (FX_ONE as i128);
    let q: i128 = p / (b as i128);
    proof {
        lemma_tdiv_mul_bound(p as int, b as int);
        if p >= 0 {
        } else {
            lemma_tdiv_neg(p as int, b as int);
        }
    }
    if q > FX_SAT as i128 {
        FX_SAT
    } else if q < -(FX_SAT as i128) {
        -FX_SAT
    } else {
        q as i64
    }
}

/// Fixed-point quotient of raw scalar `a` by positive raw scalar `b`,
/// truncated toward zero.
pub fn fx_div(a: i64, b: i64) -> (r: i64)
    requires
        -FX_ARG_LIM <= a <= FX_ARG_LIM,
        1 <= b,
        -FX_ARG_LIM <= fx_div_spec(a as int, b as int) <= FX_ARG_LIM,
    ensures
        r == fx_div_spec(a as int, b as int),
{
    proof {
        let lim = FX_ARG_LIM as int;
        assert(iabs((a as int) * (FX_ONE as int)) <= lim * (FX_ONE as int)) by (nonlinear_arith)
            requires
                iabs(a as int) <= lim,
        ;
    }
    let p: i128 = (a as i128) * (FX_ONE as i128);
    let q: i128 = p / (b as i128);
    proof {
        lemma_tdiv_mul_bound(p as int, b as int);
        if p >= 0 {
        } else {
            lemma_tdiv_neg(p as int, b as int);
        }
    }
    q as i64
}

} // verus!
