//! Fixed-point quaternions.
//!
//! Rotations are unit-scaled quaternions whose components are raw
//! fixed-point scalars: the identity rotation is `(0, 0, 0, FX_ONE)`.
//! Products truncate toward zero componentwise; `quat_normalize` brings
//! a drifted quaternion back to unit scale with an exact integer square
//! root.

use crate::fx::{
    fx_div, fx_div_spec, fx_mul, fx_mul_spec, iabs, lemma_fxm_bound, lemma_fxm_comm,
    lemma_fxm_neg, lemma_fxm_zero, FX_HALF, FX_ONE, FX_ARG_LIM,
};
use crate::vec3::{sqrt_floor, lemma_sqrt_floor_is, v3_bounded, v3_zero, Vec3, Vec3View};
use vstd::prelude::*;

verus! {

/// A quaternion of four raw fixed-point scalars; `w` is the real part.
#[derive(Clone, Copy, PartialEq, Eq, Structural, Debug)]
pub struct Quat {
    pub x: i64,
    pub y: i64,
    pub z: i64,
    pub w: i64,
}

/// Spec-level quadruple of a quaternion's components.
pub struct QuatView {
    pub x: int,
    pub y: int,
    pub z: int,
    pub w: int,
}

impl View for Quat {
    type V = QuatView;

    open spec fn view(&self) -> QuatView {
        QuatView { x: self.x as int, y: self.y as int, z: self.z as int, w: self.w as int }
    }
}

/// Componentwise magnitude bound.
pub open spec fn q4_bounded(q: QuatView, lim: int) -> bool {
    iabs(q.x) <= lim && iabs(q.y) <= lim && iabs(q.z) <= lim && iabs(q.w) <= lim
}

pub open spec fn imax(a: int, b: int) -> int {
    if a >= b {
        a
    } else {
        b
    }
}

/// Largest component magnitude of a quaternion.
pub open spec fn q4_max(q: QuatView) -> int {
    imax(imax(iabs(q.x), iabs(q.y)), imax(iabs(q.z), iabs(q.w)))
}

/// The multiplication routine accepts argument pairs whose largest
/// component product stays within the fixed-point helpers' range.
pub open spec fn q4_pair_ok(a: QuatView, b: QuatView) -> bool {
    q4_max(a) * q4_max(b) <= (Q_PAIR_LIM as int) * (FX_ONE as int)
}

/// Cap on the largest component product `quat_mul` accepts; keeps each
/// of the four summed terms, and so their sum, inside `i64`.
pub const Q_PAIR_LIM: i64 = 2_000_000_000_000_000_000;

pub open spec fn q_identity() -> QuatView {
    QuatView { x: 0, y: 0, z: 0, w: FX_ONE as int }
}

/// Hamilton product in fixed point.
pub open spec fn q_mul(a: QuatView, b: QuatView) -> QuatView {
    QuatView {
        x: fx_mul_spec(a.w, b.x) + fx_mul_spec(a.x, b.w) + fx_mul_spec(a.y, b.z) - fx_mul_spec(
            a.z,
            b.y,
        ),
        y: fx_mul_spec(a.w, b.y) - fx_mul_spec(a.x, b.z) + fx_mul_spec(a.y, b.w) + fx_mul_spec(
            a.z,
            b.x,
        ),
        z: fx_mul_spec(a.w, b.z) + fx_mul_spec(a.x, b.y) - fx_mul_spec(a.y, b.x) + fx_mul_spec(
            a.z,
            b.w,
        ),
        w: fx_mul_spec(a.w, b.w) - fx_mul_spec(a.x, b.x) - fx_mul_spec(a.y, b.y) - fx_mul_spec(
            a.z,
            b.z,
        ),
    }
}

/// Conjugate; the inverse of a unit-scaled quaternion.
pub open spec fn q_conj(q: QuatView) -> QuatView {
    QuatView { x: -q.x, y: -q.y, z: -q.z, w: q.w }
}

/// Vector (imaginary) part.
pub open spec fn q_xyz(q: QuatView) -> Vec3View {
    Vec3View { x: q.x, y: q.y, z: q.z }
}

/// A vector embedded as a pure quaternion.
pub open spec fn q_of_vec(v: Vec3View) -> QuatView {
    QuatView { x: v.x, y: v.y, z: v.z, w: 0 }
}

/// Sum of squared raw components.
pub open spec fn q4_norm_sq(q: QuatView) -> int {
    q.x * q.x + q.y * q.y + q.z * q.z + q.w * q.w
}

/// Rescale to unit length; a vanished quaternion falls back to the
/// identity rather than dividing by zero.
pub open spec fn q_normalize_spec(q: QuatView) -> QuatView {
    let n = sqrt_floor(q4_norm_sq(q));
    if n == 0 {
        q_identity()
    } else {
        QuatView {
            x: fx_div_spec(q.x, n),
            y: fx_div_spec(q.y, n),
            z: fx_div_spec(q.z, n),
            w: fx_div_spec(q.w, n),
        }
    }
}

/// Rotation of a vector by a unit-scaled quaternion: `q v q*`.
pub open spec fn q_rotate(q: QuatView, v: Vec3View) -> Vec3View {
    q_xyz(q_mul(q_mul(q, q_of_vec(v)), q_conj(q)))
}

/// Small-angle rotation update: add half the rotation vector's quaternion
/// product and renormalize.  A zero rotation vector leaves the rotation
/// untouched.
pub open spec fn q_apply_rotvec(q: QuatView, v: Vec3View) -> QuatView {
    if v == v3_zero() {
        q
    } else {
        let h = Vec3View {
            x: fx_mul_spec(v.x, FX_HALF as int),
            y: fx_mul_spec(v.y, FX_HALF as int),
            z: fx_mul_spec(v.z, FX_HALF as int),
        };
        let d = q_mul(q_of_vec(h), q);
        q_normalize_spec(
            QuatView { x: q.x + d.x, y: q.y + d.y, z: q.z + d.z, w: q.w + d.w },
        )
    }
}

/// Bounded factors bound every component of the Hamilton product.
pub proof fn lemma_qmul_bound(a: QuatView, b: QuatView, la: int, lb: int)
    requires
        q4_bounded(a, la),
        q4_bounded(b, lb),
        0 <= la,
        0 <= lb,
    ensures
        iabs(q_mul(a, b).x) * (FX_ONE as int) <= 4 * (la * lb),
        iabs(q_mul(a, b).y) * (FX_ONE as int) <= 4 * (la * lb),
        iabs(q_mul(a, b).z) * (FX_ONE as int) <= 4 * (la * lb),
        iabs(q_mul(a, b).w) * (FX_ONE as int) <= 4 * (la * lb),
{
    lemma_fxm_bound(a.w, b.x, la, lb);
    lemma_fxm_bound(a.x, b.w, la, lb);
    lemma_fxm_bound(a.y, b.z, la, lb);
    lemma_fxm_bound(a.z, b.y, la, lb);
    lemma_fxm_bound(a.w, b.y, la, lb);
    lemma_fxm_bound(a.x, b.z, la, lb);
    lemma_fxm_bound(a.y, b.w, la, lb);
    lemma_fxm_bound(a.z, b.x, la, lb);
    lemma_fxm_bound(a.w, b.z, la, lb);
    lemma_fxm_bound(a.x, b.y, la, lb);
    lemma_fxm_bound(a.y, b.x, la, lb);
    lemma_fxm_bound(a.z, b.w, la, lb);
    lemma_fxm_bound(a.w, b.w, la, lb);
    lemma_fxm_bound(a.x, b.x, la, lb);
    lemma_fxm_bound(a.y, b.y, la, lb);
    lemma_fxm_bound(a.z, b.z, la, lb);
}

/// The vector part of `q q*` vanishes exactly: truncation applies to the
/// same products on both sides of each cancelling pair.
pub proof fn lemma_qmul_conj_xyz_zero(q: QuatView)
    ensures
        q_xyz(q_mul(q, q_conj(q))) == v3_zero(),
{
    let c = q_conj(q);
    lemma_fxm_neg(q.w, q.x);
    lemma_fxm_neg(q.y, q.z);
    lemma_fxm_neg(q.z, q.y);
    lemma_fxm_comm(q.x, q.w);
    lemma_fxm_comm(q.z, q.y);
    lemma_fxm_neg(q.w, q.y);
    lemma_fxm_neg(q.x, q.z);
    lemma_fxm_comm(q.y, q.w);
    lemma_fxm_comm(q.x, q.z);
    lemma_fxm_neg(q.w, q.z);
    lemma_fxm_neg(q.y, q.x);
    lemma_fxm_comm(q.z, q.w);
    lemma_fxm_comm(q.y, q.x);
    assert(q_mul(q, c).x == 0);
    assert(q_mul(q, c).y == 0);
    assert(q_mul(q, c).z == 0);
}

/// Rotating the zero vector gives the zero vector exactly.
pub proof fn lemma_qrot_zero(q: QuatView)
    ensures
        q_rotate(q, v3_zero()) == v3_zero(),
{
    let zq = q_of_vec(v3_zero());
    lemma_fxm_zero(q.w);
    lemma_fxm_zero(q.x);
    lemma_fxm_zero(q.y);
    lemma_fxm_zero(q.z);
    assert(q_mul(q, zq) == QuatView { x: 0, y: 0, z: 0, w: 0 });
    let c = q_conj(q);
    lemma_fxm_zero(c.x);
    lemma_fxm_zero(c.y);
    lemma_fxm_zero(c.z);
    lemma_fxm_zero(c.w);
    assert(q_mul(QuatView { x: 0, y: 0, z: 0, w: 0 }, c) == QuatView { x: 0, y: 0, z: 0, w: 0 });
}

/// Rotating a bounded vector by a unit-scaled quaternion multiplies the
/// componentwise bound by at most sixteen.
pub proof fn lemma_qrot_bound(q: QuatView, v: Vec3View, lv: int)
    requires
        q4_bounded(q, FX_ONE as int),
        v3_bounded(v, lv),
        0 <= lv,
    ensures
        v3_bounded(q_rotate(q, v), 16 * lv),
{
    let s = FX_ONE as int;
    let t = q_mul(q, q_of_vec(v));
    lemma_qmul_bound(q, q_of_vec(v), s, lv);
    assert(q4_bounded(t, 4 * lv)) by {
        assert(4 * (s * lv) == (4 * lv) * s) by (nonlinear_arith);
    }
    lemma_qmul_bound(t, q_conj(q), 4 * lv, s);
    assert(v3_bounded(q_rotate(q, v), 16 * lv)) by {
        assert(4 * ((4 * lv) * s) == (16 * lv) * s) by (nonlinear_arith);
    }
}

/// The identity rotation.
pub fn quat_identity() -> (r: Quat)
    ensures
        r@ == q_identity(),
{
    Quat { x: 0, y: 0, z: 0, w: FX_ONE }
}

/// Hamilton product.
pub fn quat_mul(a: &Quat, b: &Quat) -> (r: Quat)
    requires
        q4_pair_ok(a@, b@),
        q4_bounded(a@, FX_ARG_LIM as int),
        q4_bounded(b@, FX_ARG_LIM as int),
    ensures
        r@ == q_mul(a@, b@),
{
    proof {
        let ma = q4_max(a@);
        let mb = q4_max(b@);
        let plim = (Q_PAIR_LIM as int) * (FX_ONE as int);
        assert forall|u: int, t: int|
            iabs(u) <= ma && iabs(t) <= mb implies -Q_PAIR_LIM <= #[trigger] fx_mul_spec(u, t)
            <= Q_PAIR_LIM by {
            lemma_fxm_bound(u, t, ma, mb);
            assert(iabs(fx_mul_spec(u, t)) * (FX_ONE as int) <= plim);
        }
    }
    let rx = fx_mul(a.w, b.x) + fx_mul(a.x, b.w) + fx_mul(a.y, b.z) - fx_mul(a.z, b.y);
    let ry = fx_mul(a.w, b.y) - fx_mul(a.x, b.z) + fx_mul(a.y, b.w) + fx_mul(a.z, b.x);
    let rz = fx_mul(a.w, b.z) + fx_mul(a.x, b.y) - fx_mul(a.y, b.x) + fx_mul(a.z, b.w);
    let rw = fx_mul(a.w, b.w) - fx_mul(a.x, b.x) - fx_mul(a.y, b.y) - fx_mul(a.z, b.z);
    Quat { x: rx, y: ry, z: rz, w: rw }
}

/// Conjugate.
pub fn quat_conj(q: &Quat) -> (r: Quat)
    requires
        q.x > i64::MIN,
        q.y > i64::MIN,
        q.z > i64::MIN,
    ensures
        r@ == q_conj(q@),
{
    Quat { x: -q.x, y: -q.y, z: -q.z, w: q.w }
}

/// Componentwise limit accepted by `quat_normalize`.
pub const Q_NORM_LIM: i64 = 2_500_000_000_000_000_000;

/// Rescale a drifted quaternion to unit length.
pub fn quat_normalize(q: &Quat) -> (r: Quat)
    requires
        q4_bounded(q@, Q_NORM_LIM as int),
    ensures
        r@ == q_normalize_spec(q@),
        q4_bounded(r@, FX_ONE as int),
{
    proof {
        let lim = Q_NORM_LIM as int;
        assert(0 <= q@.x * q@.x <= lim * lim && 0 <= q@.y * q@.y <= lim * lim && 0 <= q@.z * q@.z
            <= lim * lim && 0 <= q@.w * q@.w <= lim * lim) by (nonlinear_arith)
            requires
                iabs(q@.x) <= lim,
                iabs(q@.y) <= lim,
                iabs(q@.z) <= lim,
                iabs(q@.w) <= lim,
        ;
    }
    let xx: i128 = (q.x as i128) * (q.x as i128);
    let yy: i128 = (q.y as i128) * (q.y as i128);
    let zz: i128 = (q.z as i128) * (q.z as i128);
    let ww: i128 = (q.w as i128) * (q.w as i128);
    let nsq: u128 = (xx as u128) + (yy as u128) + (zz as u128) + (ww as u128);
    let n64 = crate::vec3::isqrt_u128(nsq);
    proof {
        let n = n64 as int;
        let lim = Q_NORM_LIM as int;
        assert(n <= 2 * lim) by (nonlinear_arith)
            requires
                n * n <= nsq as int,
                nsq as int <= 4 * (lim * lim),
                0 <= n,
                lim == Q_NORM_LIM as int,
        ;
        if n64 > 0 {
            assert forall|c: int| iabs(c) <= lim && c * c <= nsq as int implies iabs(
                #[trigger] fx_div_spec(c, n),
            ) <= FX_ONE as int && -FX_ARG_LIM <= fx_div_spec(c, n) <= FX_ARG_LIM by {
                assert(iabs(c) <= n) by (nonlinear_arith)
                    requires
                        c * c <= nsq as int,
                        (nsq as int) < (n + 1) * (n + 1),
                        0 <= n,
                ;
                crate::fx::lemma_tdiv_mul_bound(c * (FX_ONE as int), n);
                assert(iabs(c * (FX_ONE as int)) == iabs(c) * (FX_ONE as int)) by (nonlinear_arith)
                ;
                let d = fx_div_spec(c, n);
                assert(iabs(d) * n <= iabs(c) * (FX_ONE as int));
                assert(iabs(d) <= FX_ONE as int) by (nonlinear_arith)
                    requires
                        iabs(d) * n <= iabs(c) * (FX_ONE as int),
                        iabs(c) <= n,
                        0 < n,
                        0 <= iabs(d),
                ;
            }
        }
    }
    if n64 == 0 {
        Quat { x: 0, y: 0, z: 0, w: FX_ONE }
    } else {
        let n: i64 = n64 as i64;
        Quat {
            x: fx_div(q.x, n),
            y: fx_div(q.y, n),
            z: fx_div(q.z, n),
            w: fx_div(q.w, n),
        }
    }
}

/// Componentwise limit accepted by `quat_rotate`'s vector argument.
pub const Q_ROT_VEC_LIM: i64 = 1_000_000_000_000;

/// Rotate a vector by a unit-scaled quaternion.
pub fn quat_rotate(q: &Quat, v: &Vec3) -> (r: Vec3)
    requires
        q4_bounded(q@, FX_ONE as int),
        v3_bounded(v@, Q_ROT_VEC_LIM as int),
    ensures
        r@ == q_rotate(q@, v@),
        v3_bounded(r@, 16 * (Q_ROT_VEC_LIM as int)),
{
    let vq = Quat { x: v.x, y: v.y, z: v.z, w: 0 };
    proof {
        let s = FX_ONE as int;
        let lv = Q_ROT_VEC_LIM as int;
        assert(q4_max(q@) * q4_max(vq@) <= (Q_PAIR_LIM as int) * s) by (nonlinear_arith)
            requires
                0 <= q4_max(q@) <= s,
                0 <= q4_max(vq@) <= lv,
                s == FX_ONE as int,
                lv == Q_ROT_VEC_LIM as int,
        ;
    }
    let t = quat_mul(q, &vq);
    proof {
        let s = FX_ONE as int;
        let lv = Q_ROT_VEC_LIM as int;
        lemma_qmul_bound(q@, vq@, s, lv);
        assert(q4_bounded(t@, 4 * lv)) by {
            assert(4 * (s * lv) == (4 * lv) * s) by (nonlinear_arith);
        }
        let c = q_conj(q@);
        assert(q4_max(t@) * q4_max(c) <= (Q_PAIR_LIM as int) * s) by (nonlinear_arith)
            requires
                0 <= q4_max(t@) <= 4 * (Q_ROT_VEC_LIM as int),
                0 <= q4_max(c) <= s,
                s == FX_ONE as int,
        ;
        lemma_qmul_bound(t@, c, 4 * lv, s);
        assert(q4_bounded(q_mul(t@, c), 16 * lv)) by {
            assert(4 * ((4 * lv) * s) == (16 * lv) * s) by (nonlinear_arith);
        }
    }
    let cj = quat_conj(q);
    let rq = quat_mul(&t, &cj);
    Vec3 { x: rq.x, y: rq.y, z: rq.z }
}

/// Componentwise limit accepted by `quat_apply_rotvec`'s rotation vector.
pub const Q_ROTVEC_LIM: i64 = 1_000_000_000_000_000_000;

/// Apply a small-angle rotation vector to a unit-scaled rotation and
/// renormalize.  The zero vector is an exact no-op.
pub fn quat_apply_rotvec(q: &Quat, v: &Vec3) -> (r: Quat)
    requires
        q4_bounded(q@, FX_ONE as int),
        v3_bounded(v@, Q_ROTVEC_LIM as int),
    ensures
        r@ == q_apply_rotvec(q@, v@),
        q4_bounded(r@, FX_ONE as int) || r@ == q@,
{
    if v.x == 0 && v.y == 0 && v.z == 0 {
        proof {
            assert(v@ == v3_zero());
        }
        return *q;
    }
    proof {
        let lv = Q_ROTVEC_LIM as int;
        lemma_fxm_bound(v@.x, FX_HALF as int, lv, FX_HALF as int);
        lemma_fxm_bound(v@.y, FX_HALF as int, lv, FX_HALF as int);
        lemma_fxm_bound(v@.z, FX_HALF as int, lv, FX_HALF as int);
    }
    let hx = fx_mul(v.x, FX_HALF);
    let hy = fx_mul(v.y, FX_HALF);
    let hz = fx_mul(v.z, FX_HALF);
    let hq = Quat { x: hx, y: hy, z: hz, w: 0 };
    proof {
        let s = FX_ONE as int;
        let lh = (Q_ROTVEC_LIM as int) / 2;
        assert(iabs(hq@.x) * s <= (Q_ROTVEC_LIM as int) * (FX_HALF as int));
        assert(q4_bounded(hq@, lh)) by (nonlinear_arith)
            requires
                iabs(hq@.x) * (FX_ONE as int) <= (Q_ROTVEC_LIM as int) * (FX_HALF as int),
                iabs(hq@.y) * (FX_ONE as int) <= (Q_ROTVEC_LIM as int) * (FX_HALF as int),
                iabs(hq@.z) * (FX_ONE as int) <= (Q_ROTVEC_LIM as int) * (FX_HALF as int),
                hq@.w == 0,
                lh == (Q_ROTVEC_LIM as int) / 2,
        ;
        assert(q4_max(hq@) * q4_max(q@) <= (Q_PAIR_LIM as int) * s) by (nonlinear_arith)
            requires
                0 <= q4_max(hq@) <= (Q_ROTVEC_LIM as int) / 2,
                0 <= q4_max(q@) <= s,
                s == FX_ONE as int,
        ;
    }
    let d = quat_mul(&hq, q);
    proof {
        let s = FX_ONE as int;
        let lh = (Q_ROTVEC_LIM as int) / 2;
        lemma_qmul_bound(hq@, q@, lh, s);
        assert(q4_bounded(d@, 4 * lh)) by {
            assert(4 * (lh * s) == (4 * lh) * s) by (nonlinear_arith);
        }
    }
    let sum = Quat { x: q.x + d.x, y: q.y + d.y, z: q.z + d.z, w: q.w + d.w };
    let r = quat_normalize(&sum);
    proof {
        assert(v@ != v3_zero());
    }
    r
}

} // verus!
