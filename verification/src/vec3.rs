//! Three-component fixed-point vectors.
//!
//! Components are raw fixed-point scalars (see [`crate::fx`]).  Lengths
//! are computed with an exact integer square root over `u128`, so the
//! norm of a vector is the floor of its real norm, off by less than one
//! raw tick.

use crate::fx::{
    fx_div, fx_div_spec, fx_mul, fx_mul_spec, iabs, lemma_fxm_bound, lemma_tdiv_mul_bound, FX_ONE,
    FX_ARG_LIM,
};
use vstd::arithmetic::mul::{lemma_mul_inequality, lemma_mul_is_commutative};
use vstd::prelude::*;

verus! {

/// A vector of three raw fixed-point scalars.
#[derive(Clone, Copy, PartialEq, Eq, Structural, Debug)]
pub struct Vec3 {
    pub x: i64,
    pub y: i64,
    pub z: i64,
}

/// Spec-level triple of a vector's components.
pub struct Vec3View {
    pub x: int,
    pub y: int,
    pub z: int,
}

impl View for Vec3 {
    type V = Vec3View;

    open spec fn view(&self) -> Vec3View {
        Vec3View { x: self.x as int, y: self.y as int, z: self.z as int }
    }
}

/// Componentwise magnitude bound.
pub open spec fn v3_bounded(v: Vec3View, lim: int) -> bool {
    iabs(v.x) <= lim && iabs(v.y) <= lim && iabs(v.z) <= lim
}

pub open spec fn v3_zero() -> Vec3View {
    Vec3View { x: 0, y: 0, z: 0 }
}

pub open spec fn v3_add(a: Vec3View, b: Vec3View) -> Vec3View {
    Vec3View { x: a.x + b.x, y: a.y + b.y, z: a.z + b.z }
}

pub open spec fn v3_sub(a: Vec3View, b: Vec3View) -> Vec3View {
    Vec3View { x: a.x - b.x, y: a.y - b.y, z: a.z - b.z }
}

/// Componentwise fixed-point scaling by a raw scalar.
pub open spec fn v3_scale(a: Vec3View, s: int) -> Vec3View {
    Vec3View {
        x: fx_mul_spec(a.x, s),
        y: fx_mul_spec(a.y, s),
        z: fx_mul_spec(a.z, s),
    }
}

/// Componentwise fixed-point division by a positive raw scalar.
pub open spec fn v3_div(a: Vec3View, s: int) -> Vec3View {
    Vec3View {
        x: fx_div_spec(a.x, s),
        y: fx_div_spec(a.y, s),
        z: fx_div_spec(a.z, s),
    }
}

/// Fixed-point cross product.
pub open spec fn v3_cross(a: Vec3View, b: Vec3View) -> Vec3View {
    Vec3View {
        x: fx_mul_spec(a.y, b.z) - fx_mul_spec(a.z, b.y),
        y: fx_mul_spec(a.z, b.x) - fx_mul_spec(a.x, b.z),
        z: fx_mul_spec(a.x, b.y) - fx_mul_spec(a.y, b.x),
    }
}

/// Fixed-point dot product.
pub open spec fn v3_dot(a: Vec3View, b: Vec3View) -> int {
    fx_mul_spec(a.x, b.x) + fx_mul_spec(a.y, b.y) + fx_mul_spec(a.z, b.z)
}

/// Exact sum of squared raw components (raw-squared units, no rescale).
pub open spec fn v3_norm_sq(a: Vec3View) -> int {
    a.x * a.x + a.y * a.y + a.z * a.z
}

/// Floor of the square root of a nonnegative integer, pinned by its
/// defining inequalities.
pub open spec fn sqrt_floor(n: int) -> int {
    choose|r: int| 0 <= r && #[trigger] (r * r) <= n && n < (r + 1) * (r + 1)
}

/// Floor of the length of a vector, in raw ticks.
pub open spec fn v3_len_spec(a: Vec3View) -> int {
    sqrt_floor(v3_norm_sq(a))
}

/// Two integers satisfying the floor-square-root inequalities for the
/// same radicand are equal.
pub proof fn lemma_sqrt_floor_unique(n: int, r1: int, r2: int)
    requires
        0 <= r1 && r1 * r1 <= n && n < (r1 + 1) * (r1 + 1),
        0 <= r2 && r2 * r2 <= n && n < (r2 + 1) * (r2 + 1),
    ensures
        r1 == r2,
{
    assert(r1 == r2) by (nonlinear_arith)
        requires
            0 <= r1 && r1 * r1 <= n && n < (r1 + 1) * (r1 + 1),
            0 <= r2 && r2 * r2 <= n && n < (r2 + 1) * (r2 + 1),
    ;
}

/// A witness that satisfies the inequalities pins down `sqrt_floor`.
pub proof fn lemma_sqrt_floor_is(n: int, r: int)
    requires
        0 <= r && r * r <= n && n < (r + 1) * (r + 1),
    ensures
        sqrt_floor(n) == r,
        sqrt_floor(n) * sqrt_floor(n) <= n < (sqrt_floor(n) + 1) * (sqrt_floor(n) + 1),
{
    let c = choose|q: int| 0 <= q && #[trigger] (q * q) <= n && n < (q + 1) * (q + 1);
    assert(0 <= r && r * r <= n && n < (r + 1) * (r + 1));
    assert(0 <= c && c * c <= n && n < (c + 1) * (c + 1));
    lemma_sqrt_floor_unique(n, c, r);
}

/// Every nonnegative integer has a floor square root, so the chosen
/// value satisfies its defining inequalities.
pub proof fn lemma_sqrt_floor_props(n: int)
    requires
        0 <= n,
    ensures
        0 <= sqrt_floor(n),
        sqrt_floor(n) * sqrt_floor(n) <= n,
        n < (sqrt_floor(n) + 1) * (sqrt_floor(n) + 1),
    decreases n,
{
    if n == 0 {
        lemma_sqrt_floor_is(0, 0);
    } else {
        lemma_sqrt_floor_props(n - 1);
        let r = sqrt_floor(n - 1);
        if n < (r + 1) * (r + 1) {
            lemma_sqrt_floor_is(n, r);
        } else {
            assert(n == (r + 1) * (r + 1));
            assert((r + 1) * (r + 1) < (r + 2) * (r + 2)) by (nonlinear_arith)
                requires
                    r >= 0,
            ;
            lemma_sqrt_floor_is(n, r + 1);
        }
    }
}

/// Floor square root of a `u128`, by bisection.
pub fn isqrt_u128(n: u128) -> (r: u64)
    ensures
        (r as int) * (r as int) <= n as int,
        (n as int) < (r as int + 1) * (r as int + 1),
        r as int == sqrt_floor(n as int),
{
    let mut lo: u128 = 0;
    let mut hi: u128 = 1u128 << 64;
    proof {
        assert((1u128 << 64) as int == 0x1_0000_0000_0000_0000) by (bit_vector);
        assert((n as int) < hi as int * hi as int) by (nonlinear_arith)
            requires
                hi as int == 0x1_0000_0000_0000_0000,
                n as int <= 0xffff_ffff_ffff_ffff_ffff_ffff_ffff_ffff,
        ;
    }
    while hi - lo > 1
        invariant
            0 <= lo < hi <= 0x1_0000_0000_0000_0000,
            (lo as int) * (lo as int) <= n as int,
            (n as int) < (hi as int) * (hi as int),
        decreases hi - lo,
    {
        let mid: u128 = lo + (hi - lo) / 2;
        proof {
            assert(lo < mid < hi);
            assert(mid * mid <= 0xffff_ffff_ffff_ffff * 0xffff_ffff_ffff_ffff)
                by (nonlinear_arith)
                requires
                    0 <= mid <= 0xffff_ffff_ffff_ffff,
            ;
        }
        let sq: u128 = mid * mid;
        if sq <= n {
            lo = mid;
        } else {
            hi = mid;
        }
    }
    proof {
        assert(hi == lo + 1);
        lemma_sqrt_floor_is(n as int, lo as int);
    }
    lo as u64
}

/// Exact squared norm of a vector, computed in `u128`.
pub fn v3_norm_sq_exec(v: &Vec3) -> (r: u128)
    requires
        v3_bounded(v@, FX_ARG_LIM as int),
    ensures
        r as int == v3_norm_sq(v@),
{
    proof {
        let lim = FX_ARG_LIM as int;
        assert(0 <= (v@.x * v@.x) <= lim * lim && 0 <= (v@.y * v@.y) <= lim * lim && 0 <= (v@.z
            * v@.z) <= lim * lim) by (nonlinear_arith)
            requires
                iabs(v@.x) <= lim,
                iabs(v@.y) <= lim,
                iabs(v@.z) <= lim,
        ;
    }
    let xx: i128 = (v.x as i128) * (v.x as i128);
    let yy: i128 = (v.y as i128) * (v.y as i128);
    let zz: i128 = (v.z as i128) * (v.z as i128);
    (xx as u128) + (yy as u128) + (zz as u128)
}

/// Floor of the vector's length, in raw ticks.
pub fn v3_len(v: &Vec3) -> (r: i64)
    requires
        v3_bounded(v@, FX_ARG_LIM as int),
    ensures
        r as int == v3_len_spec(v@),
        0 <= r,
        (r as int) * (r as int) <= v3_norm_sq(v@) < (r as int + 1) * (r as int + 1),
        iabs(v@.x) <= r && iabs(v@.y) <= r && iabs(v@.z) <= r,
{
    let nsq = v3_norm_sq_exec(v);
    let r = isqrt_u128(nsq);
    proof {
        let ri = r as int;
        let n = nsq as int;
        assert(iabs(v@.x) <= ri && iabs(v@.y) <= ri && iabs(v@.z) <= ri) by (nonlinear_arith)
            requires
                n == v@.x * v@.x + v@.y * v@.y + v@.z * v@.z,
                ri >= 0,
                n < (ri + 1) * (ri + 1),
        ;
        let lim = FX_ARG_LIM as int;
        assert(n <= 3 * (lim * lim)) by (nonlinear_arith)
            requires
                n == v@.x * v@.x + v@.y * v@.y + v@.z * v@.z,
                iabs(v@.x) <= lim,
                iabs(v@.y) <= lim,
                iabs(v@.z) <= lim,
        ;
        assert(ri < 0x7fff_ffff_ffff_ffff) by (nonlinear_arith)
            requires
                ri * ri <= n,
                n <= 3 * ((FX_ARG_LIM as int) * (FX_ARG_LIM as int)),
                0 <= ri,
        ;
    }
    r as i64
}

} // verus!
