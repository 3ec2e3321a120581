//! The fixed joint with a rotation offset.
//!
//! The joint couples two bodies and, each physics substep, corrects
//! both their orientations (toward alignment of the two effective
//! frames, body rotation times local rotation offset) and their
//! positions (driving the two world anchor points together).  Each
//! correction is scaled by the joint's compliance following the
//! position-based-dynamics rule: the effective inverse stiffness of a
//! substep is the compliance divided by the squared time delta, so
//! zero compliance cancels the whole error in one application and
//! larger compliance yields a spring-like partial correction.
//!
//! Per-substep Lagrange multiplier accumulators record how much
//! correction was applied; they are cleared at the start of every
//! substep, before any constraint is solved, and the solver requires
//! that discipline.

use crate::body::{Body, BodyRef, BodyRefView, BodyView};
use crate::fx::{
    fx_div, fx_div_sat, fx_div_spec, fx_mul, fx_mul_sat, fx_mul_spec, iabs, lemma_fxm_bound,
    lemma_fxm_zero, lemma_tdiv_mul_bound, lemma_tdiv_sign, sat_fx, DT_EPSILON, FX_ONE,
    FX_ARG_LIM, FX_SAT,
};
use crate::quat::{
    q4_bounded, q4_max, q_apply_rotvec, q_conj, q_identity, q_mul, q_rotate, lemma_qmul_bound,
    lemma_qrot_bound, quat_apply_rotvec, quat_conj, quat_identity, quat_mul, quat_rotate, Quat,
    QuatView, Q_PAIR_LIM,
};
use crate::vec3::{
    sqrt_floor, v3_add, v3_bounded, v3_cross, v3_div, v3_dot, v3_len, v3_len_spec,
    v3_norm_sq, v3_scale, v3_sub, v3_zero, Vec3, Vec3View,
};
use vstd::prelude::*;

verus! {

/// Componentwise cap on local anchors.
pub const ANCHOR_LIM: i64 = 100_000_000;

/// Cap on compliance.
pub const COMPLIANCE_LIM: i64 = 1_000_000_000;

/// Cap on the damping factors.
pub const DAMPING_LIM: i64 = 1_000_000_000;

/// Positions beyond this cap make the solve step a no-op: the
/// configuration is outside the fixed-point envelope the corrections
/// are sized for.
pub const POS_SOLVE_LIM: i64 = 100_000_000_000;

/// A fixed joint: drives the two local anchor points together and the
/// two effective rotations (body rotation times local offset) into
/// alignment.
#[derive(Clone, Copy, PartialEq, Eq, Structural, Debug)]
pub struct FixedJointWithRotation {
    /// First body constrained by the joint.
    pub entity1: BodyRef,
    /// Second body constrained by the joint.
    pub entity2: BodyRef,
    /// Attachment point on the first body, in its local frame.
    pub local_anchor1: Vec3,
    /// Attachment point on the second body, in its local frame.
    pub local_anchor2: Vec3,
    /// Rotation offset on the first body.
    pub local_rotation1: Quat,
    /// Rotation offset on the second body.
    pub local_rotation2: Quat,
    /// Linear damping applied by the joint.
    pub damping_linear: i64,
    /// Angular damping applied by the joint.
    pub damping_angular: i64,
    /// Lagrange multiplier accumulator of the positional correction.
    pub position_lagrange: i64,
    /// Lagrange multiplier accumulator of the alignment correction.
    pub align_lagrange: i64,
    /// Inverse stiffness; zero is perfectly rigid.
    pub compliance: i64,
    /// Force exerted by the joint, for diagnostics.
    pub force: Vec3,
    /// Torque exerted while aligning the bodies, for diagnostics.
    pub align_torque: Vec3,
}

/// Spec-level image of a joint.
pub struct JointView {
    pub entity1: BodyRefView,
    pub entity2: BodyRefView,
    pub local_anchor1: Vec3View,
    pub local_anchor2: Vec3View,
    pub local_rotation1: QuatView,
    pub local_rotation2: QuatView,
    pub damping_linear: int,
    pub damping_angular: int,
    pub position_lagrange: int,
    pub align_lagrange: int,
    pub compliance: int,
    pub force: Vec3View,
    pub align_torque: Vec3View,
}

impl View for FixedJointWithRotation {
    type V = JointView;

    open spec fn view(&self) -> JointView {
        JointView {
            entity1: self.entity1@,
            entity2: self.entity2@,
            local_anchor1: self.local_anchor1@,
            local_anchor2: self.local_anchor2@,
            local_rotation1: self.local_rotation1@,
            local_rotation2: self.local_rotation2@,
            damping_linear: self.damping_linear as int,
            damping_angular: self.damping_angular as int,
            position_lagrange: self.position_lagrange as int,
            align_lagrange: self.align_lagrange as int,
            compliance: self.compliance as int,
            force: self.force@,
            align_torque: self.align_torque@,
        }
    }
}

/// Range discipline for a joint's configuration.
pub open spec fn joint_wf(j: JointView) -> bool {
    &&& v3_bounded(j.local_anchor1, ANCHOR_LIM as int)
    &&& v3_bounded(j.local_anchor2, ANCHOR_LIM as int)
    &&& q4_bounded(j.local_rotation1, FX_ONE as int)
    &&& q4_bounded(j.local_rotation2, FX_ONE as int)
    &&& 0 <= j.compliance <= COMPLIANCE_LIM as int
    &&& 0 <= j.damping_linear <= DAMPING_LIM as int
    &&& 0 <= j.damping_angular <= DAMPING_LIM as int
}

/// Twice the vector part of `r1 * inverse(r2)`: the small-angle
/// orientation error between the two effective frames.
pub open spec fn delta_q_spec(r1: QuatView, r2: QuatView) -> Vec3View {
    let p = q_mul(r1, q_conj(r2));
    Vec3View { x: 2 * p.x, y: 2 * p.y, z: 2 * p.z }
}

/// Effective inverse stiffness of one substep: the compliance
/// divided by the squared time delta.
pub open spec fn alpha_spec(compliance: int, dt: int) -> int {
    fx_div_spec(compliance, fx_mul_spec(dt, dt))
}

/// The orientation-alignment half of the solve step.  Returns the
/// joint and both bodies after the angular correction.
pub open spec fn angular_pass(
    j: JointView,
    b1: BodyView,
    b2: BodyView,
    dt: int,
) -> (JointView, BodyView, BodyView) {
    let rot1 = q_mul(b1.rotation, j.local_rotation1);
    let rot2 = q_mul(b2.rotation, j.local_rotation2);
    let dq = delta_q_spec(rot1, rot2);
    let theta = sqrt_floor(v3_norm_sq(dq));
    if theta == 0 {
        (j, b1, b2)
    } else {
        let axis = v3_div(dq, theta);
        let dtsq = fx_mul_spec(dt, dt);
        let alpha = alpha_spec(j.compliance, dt);
        let tot = b1.inverse_inertia + b2.inverse_inertia + alpha;
        if tot < 1 {
            (j, b1, b2)
        } else {
            let dlambda = -fx_div_spec(theta + fx_mul_spec(alpha, j.align_lagrange), tot);
            let lagrange = j.align_lagrange + dlambda;
            let s1 = sat_fx(fx_mul_spec(b1.inverse_inertia, dlambda));
            let s2 = sat_fx(fx_mul_spec(b2.inverse_inertia, dlambda));
            let rv1 = Vec3View {
                x: sat_fx(fx_mul_spec(axis.x, s1)),
                y: sat_fx(fx_mul_spec(axis.y, s1)),
                z: sat_fx(fx_mul_spec(axis.z, s1)),
            };
            let rv2 = Vec3View {
                x: sat_fx(fx_mul_spec(axis.x, -s2)),
                y: sat_fx(fx_mul_spec(axis.y, -s2)),
                z: sat_fx(fx_mul_spec(axis.z, -s2)),
            };
            let torque = v3_scale(axis, sat_fx(fx_div_spec(lagrange, dtsq)));
            (
                JointView { align_lagrange: lagrange, align_torque: torque, ..j },
                BodyView { rotation: q_apply_rotvec(b1.rotation, rv1), ..b1 },
                BodyView { rotation: q_apply_rotvec(b2.rotation, rv2), ..b2 },
            )
        }
    }
}

/// The anchor-alignment half of the solve step.  Returns the joint and
/// both bodies after the positional correction.
pub open spec fn positional_pass(
    j: JointView,
    b1: BodyView,
    b2: BodyView,
    dt: int,
) -> (JointView, BodyView, BodyView) {
    let r1 = q_rotate(b1.rotation, j.local_anchor1);
    let r2 = q_rotate(b2.rotation, j.local_anchor2);
    let c = v3_sub(v3_add(b1.position, r1), v3_add(b2.position, r2));
    let mag = sqrt_floor(v3_norm_sq(c));
    if mag == 0 {
        (j, b1, b2)
    } else {
        let n = v3_div(c, mag);
        let dtsq = fx_mul_spec(dt, dt);
        let alpha = alpha_spec(j.compliance, dt);
        let cr1 = v3_cross(r1, n);
        let cr2 = v3_cross(r2, n);
        let w1 = b1.inverse_mass + fx_mul_spec(b1.inverse_inertia, v3_dot(cr1, cr1));
        let w2 = b2.inverse_mass + fx_mul_spec(b2.inverse_inertia, v3_dot(cr2, cr2));
        let tot = w1 + w2 + alpha;
        if tot < 1 {
            (j, b1, b2)
        } else {
            let dlambda = -fx_div_spec(mag + fx_mul_spec(alpha, j.position_lagrange), tot);
            let lagrange = j.position_lagrange + dlambda;
            let p = v3_scale(n, dlambda);
            let s1 = sat_fx(fx_mul_spec(b1.inverse_inertia, dlambda));
            let s2 = sat_fx(fx_mul_spec(b2.inverse_inertia, dlambda));
            let rv1 = Vec3View {
                x: sat_fx(fx_mul_spec(cr1.x, s1)),
                y: sat_fx(fx_mul_spec(cr1.y, s1)),
                z: sat_fx(fx_mul_spec(cr1.z, s1)),
            };
            let rv2 = Vec3View {
                x: sat_fx(fx_mul_spec(cr2.x, -s2)),
                y: sat_fx(fx_mul_spec(cr2.y, -s2)),
                z: sat_fx(fx_mul_spec(cr2.z, -s2)),
            };
            let force = v3_scale(n, sat_fx(fx_div_spec(lagrange, dtsq)));
            (
                JointView { position_lagrange: lagrange, force: force, ..j },
                BodyView {
                    position: v3_add(b1.position, v3_scale(p, b1.inverse_mass)),
                    rotation: q_apply_rotvec(b1.rotation, rv1),
                    ..b1
                },
                BodyView {
                    position: v3_sub(b2.position, v3_scale(p, b2.inverse_mass)),
                    rotation: q_apply_rotvec(b2.rotation, rv2),
                    ..b2
                },
            )
        }
    }
}

/// Whether a body's position is inside the envelope the solve step is
/// sized for.
pub open spec fn in_solve_range(b: BodyView) -> bool {
    v3_bounded(b.position, POS_SOLVE_LIM as int)
}

/// The whole solve step: a degenerate time delta or an out-of-range
/// configuration is a no-op; otherwise the angular correction runs
/// first and the positional correction follows on its output.
pub open spec fn solve_spec(
    j: JointView,
    b1: BodyView,
    b2: BodyView,
    dt: int,
) -> (JointView, BodyView, BodyView) {
    if dt < DT_EPSILON as int || dt > FX_ONE as int || !in_solve_range(b1) || !in_solve_range(b2) {
        (j, b1, b2)
    } else {
        let (j1, c1, c2) = angular_pass(j, b1, b2, dt);
        positional_pass(j1, c1, c2, dt)
    }
}

/// An aligned pair of effective frames makes the angular correction an
/// exact no-op: every term of the orientation error cancels under the
/// same truncation on both sides.
pub proof fn lemma_angular_aligned_noop(j: JointView, b1: BodyView, b2: BodyView, dt: int)
    requires
        q_mul(b1.rotation, j.local_rotation1) == q_mul(b2.rotation, j.local_rotation2),
    ensures
        angular_pass(j, b1, b2, dt) == (j, b1, b2),
{
    let r = q_mul(b1.rotation, j.local_rotation1);
    crate::quat::lemma_qmul_conj_xyz_zero(r);
    let dq = delta_q_spec(r, r);
    assert(dq == v3_zero());
    assert(v3_norm_sq(dq) == 0);
    crate::vec3::lemma_sqrt_floor_is(0, 0);
}

/// Coincident world anchor points make the positional correction an
/// exact no-op.
pub proof fn lemma_positional_coincident_noop(j: JointView, b1: BodyView, b2: BodyView, dt: int)
    requires
        v3_add(b1.position, q_rotate(b1.rotation, j.local_anchor1)) == v3_add(
            b2.position,
            q_rotate(b2.rotation, j.local_anchor2),
        ),
    ensures
        positional_pass(j, b1, b2, dt) == (j, b1, b2),
{
    let c = v3_sub(
        v3_add(b1.position, q_rotate(b1.rotation, j.local_anchor1)),
        v3_add(b2.position, q_rotate(b2.rotation, j.local_anchor2)),
    );
    assert(c == v3_zero());
    assert(v3_norm_sq(c) == 0);
    crate::vec3::lemma_sqrt_floor_is(0, 0);
}

/// Idempotence of the solve step: once the anchor points coincide and
/// the effective rotations are aligned, a further solve call changes
/// neither the joint nor either body — the correction is exactly
/// zero, not merely small.
pub proof fn lemma_solve_idempotent_when_aligned(
    j: JointView,
    b1: BodyView,
    b2: BodyView,
    dt: int,
)
    requires
        q_mul(b1.rotation, j.local_rotation1) == q_mul(b2.rotation, j.local_rotation2),
        v3_add(b1.position, q_rotate(b1.rotation, j.local_anchor1)) == v3_add(
            b2.position,
            q_rotate(b2.rotation, j.local_anchor2),
        ),
    ensures
        solve_spec(j, b1, b2, dt) == (j, b1, b2),
{
    if dt < DT_EPSILON as int || dt > FX_ONE as int || !in_solve_range(b1) || !in_solve_range(b2) {
    } else {
        lemma_angular_aligned_noop(j, b1, b2, dt);
        lemma_positional_coincident_noop(j, b1, b2, dt);
    }
}

/// Core estimate of one positional correction along one axis, for a
/// nonnegative error component `a`: the two bodies' combined movement
/// `g1 + g2` never exceeds `a` (no overshoot), and with zero
/// compliance it falls short of `a` by at most a few ticks of
/// truncation error.
proof fn lemma_pull_core(a: int, mag: int, m1: int, m2: int, alphav: int, tot: int)
    requires
        0 <= a <= mag,
        1 <= mag,
        0 <= m1,
        0 <= m2,
        0 <= alphav,
        tot == m1 + m2 + alphav,
        1 <= tot,
    ensures
        ({
            let n = fx_div_spec(a, mag);
            let dl = fx_div_spec(mag, tot);
            let u = fx_mul_spec(n, dl);
            let g1 = fx_mul_spec(u, m1);
            let g2 = fx_mul_spec(u, m2);
            &&& 0 <= n <= FX_ONE as int
            &&& 0 <= dl
            &&& 0 <= u
            &&& 0 <= g1
            &&& 0 <= g2
            &&& g1 + g2 <= a
            &&& (alphav == 0 ==> (FX_ONE as int) * (a - g1 - g2) <= mag + 2 * tot + 2 * (
            FX_ONE as int))
        }),
{
    let s = FX_ONE as int;
    let n = fx_div_spec(a, mag);
    let dl = fx_div_spec(mag, tot);
    let u = fx_mul_spec(n, dl);
    let g1 = fx_mul_spec(u, m1);
    let g2 = fx_mul_spec(u, m2);

    crate::fx::lemma_fxd_bound(a, mag);
    crate::fx::lemma_fxd_unit(a, mag);
    crate::fx::lemma_fxd_bound(mag, tot);
    assert(0 <= n <= s);
    assert(0 <= dl);
    crate::fx::lemma_fxm_nonneg(n, dl);
    crate::fx::lemma_fxm_nonneg(u, m1);
    crate::fx::lemma_fxm_nonneg(u, m2);

    // Two-sided multiplicative bounds for each truncation.
    lemma_tdiv_mul_bound(a * s, mag);
    lemma_tdiv_mul_bound(mag * s, tot);
    lemma_tdiv_mul_bound(n * dl, s);
    lemma_tdiv_mul_bound(u * m1, s);
    lemma_tdiv_mul_bound(u * m2, s);
    assert(iabs(a * s) == a * s && iabs(mag * s) == mag * s && iabs(n * dl) == n * dl && iabs(
        u * m1,
    ) == u * m1 && iabs(u * m2) == u * m2) by (nonlinear_arith)
        requires
            0 <= a,
            0 <= mag,
            0 <= n,
            0 <= dl,
            0 <= u,
            0 <= m1,
            0 <= m2,
            0 <= s,
    ;
    assert(n * mag <= a * s);
    assert(a * s < (n + 1) * mag);
    assert(dl * tot <= mag * s);
    assert(mag * s < (dl + 1) * tot);
    assert(u * s <= n * dl);
    assert(n * dl < (u + 1) * s);
    assert(g1 * s <= u * m1);
    assert(u * m1 < (g1 + 1) * s);
    assert(g2 * s <= u * m2);
    assert(u * m2 < (g2 + 1) * s);

    // No overshoot: (g1 + g2) * s <= u * tot and u * tot <= a * s.
    assert(u * tot * s <= a * s * s) by (nonlinear_arith)
        requires
            u * s <= n * dl,
            dl * tot <= mag * s,
            n * mag <= a * s,
            0 <= n,
            0 <= dl,
            0 <= u,
            0 <= tot,
            0 <= mag,
            0 <= a,
            0 < s,
    ;
    assert(u * tot <= a * s) by (nonlinear_arith)
        requires
            u * tot * s <= a * s * s,
            0 < s,
    ;
    assert((g1 + g2) * s <= u * tot) by (nonlinear_arith)
        requires
            g1 * s <= u * m1,
            g2 * s <= u * m2,
            tot == m1 + m2 + alphav,
            0 <= alphav,
            0 <= u,
    ;
    assert(g1 + g2 <= a) by (nonlinear_arith)
        requires
            (g1 + g2) * s <= u * tot,
            u * tot <= a * s,
            0 < s,
    ;

    // With zero compliance the total weight is exactly the divisor, so
    // the correction reaches the error up to truncation losses.
    if alphav == 0 {
        assert(u * tot * s > a * s * s - mag * s - 2 * (tot * s)) by (nonlinear_arith)
            requires
                n * dl < (u + 1) * s,
                mag * s < (dl + 1) * tot,
                a * s < (n + 1) * mag,
                n <= s,
                0 <= n,
                0 <= dl,
                0 <= u,
                1 <= tot,
                1 <= mag,
                0 <= a,
                0 < s,
        ;
        assert(u * tot > a * s - mag - 2 * tot) by (nonlinear_arith)
            requires
                u * tot * s > a * s * s - mag * s - 2 * (tot * s),
                0 < s,
        ;
        assert((g1 + g2) * s > u * tot - 2 * s) by (nonlinear_arith)
            requires
                u * m1 < (g1 + 1) * s,
                u * m2 < (g2 + 1) * s,
                tot == m1 + m2,
                0 <= u,
        ;
        assert(s * (a - g1 - g2) <= mag + 2 * tot + 2 * s) by (nonlinear_arith)
            requires
                (g1 + g2) * s > u * tot - 2 * s,
                u * tot > a * s - mag - 2 * tot,
                0 < s,
        ;
    }
}

/// Signed version of the core estimate: along one axis, the corrected
/// error keeps its sign and shrinks; with zero compliance it lands
/// within a few ticks of zero.
proof fn lemma_pull_component(ci: int, mag: int, m1: int, m2: int, alphav: int, tot: int)
    requires
        iabs(ci) <= mag,
        1 <= mag,
        0 <= m1,
        0 <= m2,
        0 <= alphav,
        tot == m1 + m2 + alphav,
        1 <= tot,
    ensures
        ({
            let n = fx_div_spec(ci, mag);
            let p = fx_mul_spec(n, -fx_div_spec(mag, tot));
            let c1 = fx_mul_spec(p, m1);
            let c2 = fx_mul_spec(p, m2);
            &&& iabs(ci + c1 + c2) <= iabs(ci)
            &&& (ci >= 0 ==> -ci <= c1 <= 0 && -ci <= c2 <= 0)
            &&& (ci <= 0 ==> 0 <= c1 <= -ci && 0 <= c2 <= -ci)
            &&& (alphav == 0 ==> (FX_ONE as int) * iabs(ci + c1 + c2) <= mag + 2 * tot + 2 * (
            FX_ONE as int))
        }),
{
    let s = FX_ONE as int;
    let dl = fx_div_spec(mag, tot);
    crate::fx::lemma_fxd_bound(mag, tot);
    if ci >= 0 {
        lemma_pull_core(ci, mag, m1, m2, alphav, tot);
        let n = fx_div_spec(ci, mag);
        let u = fx_mul_spec(n, dl);
        crate::fx::lemma_fxm_neg(n, dl);
        let p = fx_mul_spec(n, -dl);
        assert(p == -u);
        crate::fx::lemma_fxm_neg(u, m1);
        crate::fx::lemma_fxm_neg(u, m2);
        assert(fx_mul_spec(p, m1) == -fx_mul_spec(u, m1));
        assert(fx_mul_spec(p, m2) == -fx_mul_spec(u, m2));
    } else {
        let a = -ci;
        lemma_pull_core(a, mag, m1, m2, alphav, tot);
        let np = fx_div_spec(a, mag);
        let u = fx_mul_spec(np, dl);
        assert(ci * s == -(a * s)) by (nonlinear_arith)
            requires
                ci == -a,
        ;
        crate::fx::lemma_tdiv_neg(a * s, mag);
        let n = fx_div_spec(ci, mag);
        assert(n == -np);
        crate::fx::lemma_fxm_neg(np, dl);
        crate::fx::lemma_fxm_neg(np, -dl);
        let p = fx_mul_spec(n, -dl);
        assert(p == u);
        assert(fx_mul_spec(p, m1) == fx_mul_spec(u, m1));
        assert(fx_mul_spec(p, m2) == fx_mul_spec(u, m2));
    }
}

/// Convergence of the positional solve.  For every compliance at
/// least zero, a two-body system with a positional offset, anchors at
/// the body origins and aligned effective rotations has each
/// component of its anchor-point error shrink monotonically under one
/// reset-then-solve step.  With zero compliance and at least one
/// movable body the error lands within a few truncation ticks of zero
/// in that single substep; positive compliance yields the partial,
/// asymptotic correction of the compliance scaling.
#[verifier::rlimit(80)]
pub proof fn lemma_solve_converges_anchors(j: JointView, b1: BodyView, b2: BodyView, dt: int)
    requires
        j.local_anchor1 == v3_zero(),
        j.local_anchor2 == v3_zero(),
        j.position_lagrange == 0,
        q_mul(b1.rotation, j.local_rotation1) == q_mul(b2.rotation, j.local_rotation2),
        0 <= j.compliance,
        0 <= b1.inverse_mass,
        0 <= b2.inverse_mass,
        DT_EPSILON as int <= dt <= FX_ONE as int,
        in_solve_range(b1),
        in_solve_range(b2),
    ensures
        ({
            let (j2, n1, n2) = solve_spec(j, b1, b2, dt);
            let e0 = v3_sub(b1.position, b2.position);
            let e1 = v3_sub(n1.position, n2.position);
            &&& iabs(e1.x) <= iabs(e0.x)
            &&& iabs(e1.y) <= iabs(e0.y)
            &&& iabs(e1.z) <= iabs(e0.z)
            &&& in_solve_range(n1)
            &&& in_solve_range(n2)
            &&& n1.rotation == b1.rotation
            &&& n2.rotation == b2.rotation
            &&& n1.inverse_mass == b1.inverse_mass
            &&& n2.inverse_mass == b2.inverse_mass
            &&& n1.inverse_inertia == b1.inverse_inertia
            &&& n2.inverse_inertia == b2.inverse_inertia
            &&& j2.local_anchor1 == j.local_anchor1
            &&& j2.local_anchor2 == j.local_anchor2
            &&& j2.local_rotation1 == j.local_rotation1
            &&& j2.local_rotation2 == j.local_rotation2
            &&& j2.compliance == j.compliance
            &&& (j.compliance == 0 && b1.inverse_mass + b2.inverse_mass >= 1 ==> {
                let bound = v3_len_spec(e0) + 2 * (b1.inverse_mass + b2.inverse_mass) + 2 * (
                FX_ONE as int);
                &&& (FX_ONE as int) * iabs(e1.x) <= bound
                &&& (FX_ONE as int) * iabs(e1.y) <= bound
                &&& (FX_ONE as int) * iabs(e1.z) <= bound
            })
        }),
{
    let s = FX_ONE as int;
    lemma_angular_aligned_noop(j, b1, b2, dt);
    crate::quat::lemma_qrot_zero(b1.rotation);
    crate::quat::lemma_qrot_zero(b2.rotation);
    let e0 = v3_sub(b1.position, b2.position);
    assert(v3_add(b1.position, q_rotate(b1.rotation, j.local_anchor1)) == b1.position);
    assert(v3_add(b2.position, q_rotate(b2.rotation, j.local_anchor2)) == b2.position);
    let nsq = v3_norm_sq(e0);
    assert(0 <= e0.x * e0.x <= nsq && 0 <= e0.y * e0.y <= nsq && 0 <= e0.z * e0.z <= nsq)
        by (nonlinear_arith)
        requires
            nsq == e0.x * e0.x + e0.y * e0.y + e0.z * e0.z,
    ;
    crate::vec3::lemma_sqrt_floor_props(nsq);
    let mag = sqrt_floor(nsq);
    if mag == 0 {
        assert(nsq < 1) by (nonlinear_arith)
            requires
                nsq < (mag + 1) * (mag + 1),
                mag == 0,
        ;
        assert(nsq == 0);
        assert(e0.x == 0 && e0.y == 0 && e0.z == 0) by (nonlinear_arith)
            requires
                e0.x * e0.x + e0.y * e0.y + e0.z * e0.z == 0,
                0 <= e0.x * e0.x,
                0 <= e0.y * e0.y,
                0 <= e0.z * e0.z,
        ;
    } else {
        assert(iabs(e0.x) <= mag && iabs(e0.y) <= mag && iabs(e0.z) <= mag) by (nonlinear_arith)
            requires
                e0.x * e0.x <= nsq,
                e0.y * e0.y <= nsq,
                e0.z * e0.z <= nsq,
                nsq < (mag + 1) * (mag + 1),
                0 <= mag,
        ;
        // The zero anchors silence the rotational terms of the
        // generalized inverse masses.
        let n = v3_div(e0, mag);
        crate::fx::lemma_fxm_zero(n.z);
        crate::fx::lemma_fxm_zero(n.y);
        crate::fx::lemma_fxm_zero(n.x);
        let cr = v3_cross(v3_zero(), n);
        assert(cr == v3_zero());
        assert(v3_dot(cr, cr) == 0) by {
            crate::fx::lemma_fxm_zero(0);
        }
        crate::fx::lemma_fxm_zero(b1.inverse_inertia);
        crate::fx::lemma_fxm_zero(b2.inverse_inertia);
        // The substep's inverse stiffness is nonnegative and vanishes
        // with the compliance.
        assert((dt * dt) >= s) by (nonlinear_arith)
            requires
                dt >= DT_EPSILON as int,
                DT_EPSILON == 1_000,
                s == 1_000_000,
        ;
        lemma_tdiv_mul_bound(dt * dt, s);
        lemma_tdiv_sign(dt * dt, s);
        let dtsq = fx_mul_spec(dt, dt);
        assert(dtsq >= 1) by {
            assert(iabs(dt * dt) == dt * dt);
            assert(iabs(dtsq) * s <= dt * dt);
            assert(dt * dt < (iabs(dtsq) + 1) * s);
        }
        crate::fx::lemma_fxd_bound(j.compliance, dtsq);
        let alphav = fx_div_spec(j.compliance, dtsq);
        assert(0 <= alphav);
        if j.compliance == 0 {
            assert(iabs(alphav) <= 0 * s) by {
                crate::fx::lemma_fxd_bound(0, dtsq);
            }
            assert(alphav == 0) by (nonlinear_arith)
                requires
                    iabs(alphav) <= 0 * s,
            ;
        }
        let w1 = b1.inverse_mass + fx_mul_spec(b1.inverse_inertia, 0);
        let w2 = b2.inverse_mass + fx_mul_spec(b2.inverse_inertia, 0);
        assert(w1 == b1.inverse_mass && w2 == b2.inverse_mass);
        let tot = w1 + w2 + alphav;
        if tot < 1 {
        } else {
            crate::fx::lemma_fxm_zero(alphav);
            lemma_pull_component(e0.x, mag, w1, w2, alphav, tot);
            lemma_pull_component(e0.y, mag, w1, w2, alphav, tot);
            lemma_pull_component(e0.z, mag, w1, w2, alphav, tot);
            // The vanished torque arms keep both rotations untouched.
            let dlambda = -fx_div_spec(mag + fx_mul_spec(alphav, j.position_lagrange), tot);
            let s1 = sat_fx(fx_mul_spec(b1.inverse_inertia, dlambda));
            let s2 = sat_fx(fx_mul_spec(b2.inverse_inertia, dlambda));
            crate::fx::lemma_fxm_zero(s1);
            crate::fx::lemma_fxm_zero(-s2);
        }
    }
}

/// One substep's reset-then-solve cycle for a single joint: clear the
/// per-substep accumulators, then solve once.
pub open spec fn reset_solve_spec(
    j: JointView,
    b1: BodyView,
    b2: BodyView,
    dt: int,
) -> (JointView, BodyView, BodyView) {
    solve_spec(JointView { position_lagrange: 0, align_lagrange: 0, ..j }, b1, b2, dt)
}

/// `k` consecutive substeps of one joint against its two bodies, each
/// run under the reset discipline.
pub open spec fn iterate_reset_solve(
    j: JointView,
    b1: BodyView,
    b2: BodyView,
    dt: int,
    k: nat,
) -> (JointView, BodyView, BodyView)
    decreases k,
{
    if k == 0 {
        (j, b1, b2)
    } else {
        let (j1, c1, c2) = iterate_reset_solve(j, b1, b2, dt, (k - 1) as nat);
        reset_solve_spec(j1, c1, c2, dt)
    }
}

/// Convergence under repeated solve calls: for every compliance at
/// least zero, any number of reset-then-solve substeps drives each
/// component of the anchor-point error monotonically toward zero,
/// never past it.
pub proof fn lemma_repeated_solves_monotone(
    j: JointView,
    b1: BodyView,
    b2: BodyView,
    dt: int,
    k: nat,
)
    requires
        j.local_anchor1 == v3_zero(),
        j.local_anchor2 == v3_zero(),
        q_mul(b1.rotation, j.local_rotation1) == q_mul(b2.rotation, j.local_rotation2),
        0 <= j.compliance,
        0 <= b1.inverse_mass,
        0 <= b2.inverse_mass,
        DT_EPSILON as int <= dt <= FX_ONE as int,
        in_solve_range(b1),
        in_solve_range(b2),
    ensures
        ({
            let (j2, n1, n2) = iterate_reset_solve(j, b1, b2, dt, k);
            let e0 = v3_sub(b1.position, b2.position);
            let e1 = v3_sub(n1.position, n2.position);
            &&& iabs(e1.x) <= iabs(e0.x)
            &&& iabs(e1.y) <= iabs(e0.y)
            &&& iabs(e1.z) <= iabs(e0.z)
            &&& in_solve_range(n1)
            &&& in_solve_range(n2)
            &&& n1.rotation == b1.rotation
            &&& n2.rotation == b2.rotation
            &&& n1.inverse_mass == b1.inverse_mass
            &&& n2.inverse_mass == b2.inverse_mass
            &&& j2.local_anchor1 == j.local_anchor1
            &&& j2.local_anchor2 == j.local_anchor2
            &&& j2.local_rotation1 == j.local_rotation1
            &&& j2.local_rotation2 == j.local_rotation2
            &&& j2.compliance == j.compliance
        }),
    decreases k,
{
    if k == 0 {
    } else {
        lemma_repeated_solves_monotone(j, b1, b2, dt, (k - 1) as nat);
        let (jm, m1, m2) = iterate_reset_solve(j, b1, b2, dt, (k - 1) as nat);
        let jc = JointView { position_lagrange: 0, align_lagrange: 0, ..jm };
        lemma_solve_converges_anchors(jc, m1, m2, dt);
    }
}

/// A positional correction never overshoots the anchor error: a
/// body's share of the impulse, scaled by its inverse mass, stays
/// within the error magnitude because that inverse mass is part of the
/// total the impulse was divided by.
proof fn lemma_corr_bound(p_i: int, m: int, dl: int, tot: int, mag: int, w: int)
    requires
        iabs(p_i) <= dl,
        0 <= dl,
        dl * tot <= mag * (FX_ONE as int),
        0 <= m <= w,
        w <= tot,
        1 <= tot,
        0 <= mag,
    ensures
        iabs(fx_mul_spec(p_i, m)) <= mag,
{
    lemma_fxm_bound(p_i, m, dl, m);
    assert(dl * m <= dl * tot) by (nonlinear_arith)
        requires
            m <= tot,
            0 <= dl,
    ;
    assert(iabs(fx_mul_spec(p_i, m)) * (FX_ONE as int) <= mag * (FX_ONE as int));
}

impl FixedJointWithRotation {
    /// A rigid default joint between two bodies: anchors at the body
    /// origins, identity rotation offsets, zero compliance, damping
    /// of one on both channels.
    pub fn new(entity1: BodyRef, entity2: BodyRef) -> (r: FixedJointWithRotation)
        ensures
            r@.entity1 == entity1@,
            r@.entity2 == entity2@,
            r@.local_anchor1 == v3_zero(),
            r@.local_anchor2 == v3_zero(),
            r@.local_rotation1 == q_identity(),
            r@.local_rotation2 == q_identity(),
            r@.damping_linear == FX_ONE as int,
            r@.damping_angular == FX_ONE as int,
            r@.position_lagrange == 0,
            r@.align_lagrange == 0,
            r@.compliance == 0,
            r@.force == v3_zero(),
            r@.align_torque == v3_zero(),
            joint_wf(r@),
    {
        FixedJointWithRotation {
            entity1,
            entity2,
            local_anchor1: Vec3 { x: 0, y: 0, z: 0 },
            local_anchor2: Vec3 { x: 0, y: 0, z: 0 },
            local_rotation1: quat_identity(),
            local_rotation2: quat_identity(),
            damping_linear: FX_ONE,
            damping_angular: FX_ONE,
            position_lagrange: 0,
            align_lagrange: 0,
            compliance: 0,
            force: Vec3 { x: 0, y: 0, z: 0 },
            align_torque: Vec3 { x: 0, y: 0, z: 0 },
        }
    }

    /// The pair of bodies the joint couples.
    pub fn entities(&self) -> (r: [BodyRef; 2])
        ensures
            r[0] == self.entity1,
            r[1] == self.entity2,
    {
        [self.entity1, self.entity2]
    }

    /// Zero the per-substep accumulators.  Runs once at the start of
    /// every substep, for every constraint, before any constraint is
    /// solved.
    pub fn clear_lagrange_multipliers(&mut self)
        ensures
            final(self)@ == (JointView { position_lagrange: 0, align_lagrange: 0, ..old(self)@ }),
            final(self)@.position_lagrange == 0,
            final(self)@.align_lagrange == 0,
    {
        self.position_lagrange = 0;
        self.align_lagrange = 0;
    }

    /// Set the compliance.
    pub fn with_compliance(self, compliance: i64) -> (r: FixedJointWithRotation)
        ensures
            r@ == (JointView { compliance: compliance as int, ..self@ }),
    {
        FixedJointWithRotation { compliance, ..self }
    }

    /// Set the attachment point on the first body.
    pub fn with_local_anchor_1(self, anchor: Vec3) -> (r: FixedJointWithRotation)
        ensures
            r@ == (JointView { local_anchor1: anchor@, ..self@ }),
    {
        FixedJointWithRotation { local_anchor1: anchor, ..self }
    }

    /// Set the attachment point on the second body.
    pub fn with_local_anchor_2(self, anchor: Vec3) -> (r: FixedJointWithRotation)
        ensures
            r@ == (JointView { local_anchor2: anchor@, ..self@ }),
    {
        FixedJointWithRotation { local_anchor2: anchor, ..self }
    }

    /// Set the linear damping factor.
    pub fn with_linear_velocity_damping(self, damping: i64) -> (r: FixedJointWithRotation)
        ensures
            r@ == (JointView { damping_linear: damping as int, ..self@ }),
    {
        FixedJointWithRotation { damping_linear: damping, ..self }
    }

    /// Set the angular damping factor.
    pub fn with_angular_velocity_damping(self, damping: i64) -> (r: FixedJointWithRotation)
        ensures
            r@ == (JointView { damping_angular: damping as int, ..self@ }),
    {
        FixedJointWithRotation { damping_angular: damping, ..self }
    }

    /// Set the rotation offset on the first body.
    pub fn with_rotation_1(self, rotation: Quat) -> (r: FixedJointWithRotation)
        ensures
            r@ == (JointView { local_rotation1: rotation@, ..self@ }),
    {
        FixedJointWithRotation { local_rotation1: rotation, ..self }
    }

    /// Set the rotation offset on the second body.
    pub fn with_rotation_2(self, rotation: Quat) -> (r: FixedJointWithRotation)
        ensures
            r@ == (JointView { local_rotation2: rotation@, ..self@ }),
    {
        FixedJointWithRotation { local_rotation2: rotation, ..self }
    }

    /// The orientation error between two effective frames: twice the
    /// vector part of `rot1 * inverse(rot2)`.
    fn get_delta_q(&self, rot1: &Quat, rot2: &Quat) -> (r: Vec3)
        requires
            q4_bounded(rot1@, 4 * (FX_ONE as int)),
            q4_bounded(rot2@, 4 * (FX_ONE as int)),
        ensures
            r@ == delta_q_spec(rot1@, rot2@),
            v3_bounded(r@, 130_000_000),
    {
        proof {
            let s4 = 4 * (FX_ONE as int);
            assert(q4_max(rot1@) * q4_max(q_conj(rot2@)) <= (Q_PAIR_LIM as int) * (FX_ONE as int))
                by (nonlinear_arith)
                requires
                    0 <= q4_max(rot1@) <= 4 * (FX_ONE as int),
                    0 <= q4_max(q_conj(rot2@)) <= 4 * (FX_ONE as int),
            ;
            lemma_qmul_bound(rot1@, q_conj(rot2@), s4, s4);
        }
        let c = quat_conj(rot2);
        let p = quat_mul(rot1, &c);
        proof {
            assert(iabs(p@.x) <= 64_000_000 && iabs(p@.y) <= 64_000_000 && iabs(p@.z)
                <= 64_000_000) by (nonlinear_arith)
                requires
                    iabs(p@.x) * (FX_ONE as int) <= 4 * ((4 * (FX_ONE as int)) * (4 * (
                    FX_ONE as int))),
                    iabs(p@.y) * (FX_ONE as int) <= 4 * ((4 * (FX_ONE as int)) * (4 * (
                    FX_ONE as int))),
                    iabs(p@.z) * (FX_ONE as int) <= 4 * ((4 * (FX_ONE as int)) * (4 * (
                    FX_ONE as int))),
                    FX_ONE == 1_000_000,
            ;
        }
        Vec3 { x: 2 * p.x, y: 2 * p.y, z: 2 * p.z }
    }

    /// The orientation-alignment half of the solve step: rotate both
    /// bodies toward alignment of their effective frames, in
    /// proportion to their inverse inertias and the compliance.
    fn align_orientation(&mut self, body1: &mut Body, body2: &mut Body, dt: i64)
        requires
            joint_wf(old(self)@),
            old(self)@.align_lagrange == 0,
            q4_bounded(old(body1)@.rotation, FX_ONE as int),
            q4_bounded(old(body2)@.rotation, FX_ONE as int),
            0 <= old(body1)@.inverse_inertia <= crate::body::INV_MASS_LIM as int,
            0 <= old(body2)@.inverse_inertia <= crate::body::INV_MASS_LIM as int,
            DT_EPSILON <= dt <= FX_ONE,
        ensures
            (final(self)@, final(body1)@, final(body2)@) == angular_pass(
                old(self)@,
                old(body1)@,
                old(body2)@,
                dt as int,
            ),
            q4_bounded(final(body1)@.rotation, FX_ONE as int),
            q4_bounded(final(body2)@.rotation, FX_ONE as int),
    {
        proof {
            let s = FX_ONE as int;
            assert(q4_max(body1@.rotation) * q4_max(self@.local_rotation1) <= (Q_PAIR_LIM as int)
                * s) by (nonlinear_arith)
                requires
                    0 <= q4_max(body1@.rotation) <= FX_ONE as int,
                    0 <= q4_max(self@.local_rotation1) <= FX_ONE as int,
                    s == FX_ONE as int,
            ;
            assert(q4_max(body2@.rotation) * q4_max(self@.local_rotation2) <= (Q_PAIR_LIM as int)
                * s) by (nonlinear_arith)
                requires
                    0 <= q4_max(body2@.rotation) <= FX_ONE as int,
                    0 <= q4_max(self@.local_rotation2) <= FX_ONE as int,
                    s == FX_ONE as int,
            ;
            lemma_qmul_bound(body1@.rotation, self@.local_rotation1, s, s);
            lemma_qmul_bound(body2@.rotation, self@.local_rotation2, s, s);
        }
        let rot1 = quat_mul(&body1.rotation, &self.local_rotation1);
        let rot2 = quat_mul(&body2.rotation, &self.local_rotation2);
        let dq = self.get_delta_q(&rot1, &rot2);
        let theta = v3_len(&dq);
        if theta == 0 {
            return ;
        }
        proof {
            assert(v3_norm_sq(dq@) <= 3 * (130_000_000 * 130_000_000)) by (nonlinear_arith)
                requires
                    iabs(dq@.x) <= 130_000_000,
                    iabs(dq@.y) <= 130_000_000,
                    iabs(dq@.z) <= 130_000_000,
            ;
            assert(theta as int <= 300_000_000) by (nonlinear_arith)
                requires
                    (theta as int) * (theta as int) <= v3_norm_sq(dq@),
                    v3_norm_sq(dq@) <= 3 * (130_000_000 * 130_000_000),
                    0 <= theta as int,
            ;
            crate::fx::lemma_fxd_unit(dq@.x, theta as int);
            crate::fx::lemma_fxd_unit(dq@.y, theta as int);
            crate::fx::lemma_fxd_unit(dq@.z, theta as int);
        }
        let axis = Vec3 {
            x: fx_div(dq.x, theta),
            y: fx_div(dq.y, theta),
            z: fx_div(dq.z, theta),
        };
        proof {
            lemma_fxm_bound(dt as int, dt as int, FX_ONE as int, FX_ONE as int);
            lemma_tdiv_mul_bound((dt as int) * (dt as int), FX_ONE as int);
            assert((dt as int) * (dt as int) >= (FX_ONE as int)) by (nonlinear_arith)
                requires
                    dt >= DT_EPSILON,
                    DT_EPSILON == 1_000,
                    FX_ONE == 1_000_000,
            ;
            lemma_tdiv_sign((dt as int) * (dt as int), FX_ONE as int);
        }
        let dtsq = fx_mul(dt, dt);
        proof {
            assert(dtsq >= 1);
            crate::fx::lemma_fxd_bound(self@.compliance, dtsq as int);
        }
        let alpha = fx_div(self.compliance, dtsq);
        let tot = body1.inverse_inertia + body2.inverse_inertia + alpha;
        if tot < 1 {
            return ;
        }
        proof {
            lemma_fxm_zero(alpha as int);
            crate::fx::lemma_fxd_bound((theta + fx_mul_spec(alpha as int, 0)) as int, tot as int);
        }
        let excess = fx_mul(alpha, self.align_lagrange);
        let dl = fx_div(theta + excess, tot);
        let dlambda = -dl;
        let lagrange = self.align_lagrange + dlambda;
        let s1 = fx_mul_sat(body1.inverse_inertia, dlambda);
        let s2 = fx_mul_sat(body2.inverse_inertia, dlambda);
        let rv1 = Vec3 {
            x: fx_mul_sat(axis.x, s1),
            y: fx_mul_sat(axis.y, s1),
            z: fx_mul_sat(axis.z, s1),
        };
        let rv2 = Vec3 {
            x: fx_mul_sat(axis.x, -s2),
            y: fx_mul_sat(axis.y, -s2),
            z: fx_mul_sat(axis.z, -s2),
        };
        proof {
            crate::fx::lemma_fxd_bound(lagrange as int, dtsq as int);
        }
        let ts = fx_div_sat(lagrange, dtsq);
        proof {
            lemma_fxm_bound(axis@.x, ts as int, FX_ONE as int, FX_SAT as int);
            lemma_fxm_bound(axis@.y, ts as int, FX_ONE as int, FX_SAT as int);
            lemma_fxm_bound(axis@.z, ts as int, FX_ONE as int, FX_SAT as int);
        }
        let torque = Vec3 {
            x: fx_mul(axis.x, ts),
            y: fx_mul(axis.y, ts),
            z: fx_mul(axis.z, ts),
        };
        self.align_lagrange = lagrange;
        self.align_torque = torque;
        let q1 = quat_apply_rotvec(&body1.rotation, &rv1);
        let q2 = quat_apply_rotvec(&body2.rotation, &rv2);
        body1.rotation = q1;
        body2.rotation = q2;
        proof {
            if q1@ == old(body1)@.rotation {
            }
            if q2@ == old(body2)@.rotation {
            }
        }
    }

    /// The anchor-alignment half of the solve step: move and rotate
    /// both bodies so their world anchor points approach coincidence,
    /// in proportion to their inverse masses and the compliance.
    #[verifier::rlimit(60)]
    fn align_position(&mut self, body1: &mut Body, body2: &mut Body, dt: i64)
        requires
            joint_wf(old(self)@),
            old(self)@.position_lagrange == 0,
            q4_bounded(old(body1)@.rotation, FX_ONE as int),
            q4_bounded(old(body2)@.rotation, FX_ONE as int),
            0 <= old(body1)@.inverse_mass <= crate::body::INV_MASS_LIM as int,
            0 <= old(body2)@.inverse_mass <= crate::body::INV_MASS_LIM as int,
            0 <= old(body1)@.inverse_inertia <= crate::body::INV_MASS_LIM as int,
            0 <= old(body2)@.inverse_inertia <= crate::body::INV_MASS_LIM as int,
            in_solve_range(old(body1)@),
            in_solve_range(old(body2)@),
            DT_EPSILON <= dt <= FX_ONE,
        ensures
            (final(self)@, final(body1)@, final(body2)@) == positional_pass(
                old(self)@,
                old(body1)@,
                old(body2)@,
                dt as int,
            ),
            q4_bounded(final(body1)@.rotation, FX_ONE as int),
            q4_bounded(final(body2)@.rotation, FX_ONE as int),
            v3_bounded(final(body1)@.position, crate::body::POS_LIM as int),
            v3_bounded(final(body2)@.position, crate::body::POS_LIM as int),
    {
        proof {
            lemma_qrot_bound(body1@.rotation, self@.local_anchor1, ANCHOR_LIM as int);
            lemma_qrot_bound(body2@.rotation, self@.local_anchor2, ANCHOR_LIM as int);
        }
        let r1 = quat_rotate(&body1.rotation, &self.local_anchor1);
        let r2 = quat_rotate(&body2.rotation, &self.local_anchor2);
        let a1 = Vec3 {
            x: body1.position.x + r1.x,
            y: body1.position.y + r1.y,
            z: body1.position.z + r1.z,
        };
        let a2 = Vec3 {
            x: body2.position.x + r2.x,
            y: body2.position.y + r2.y,
            z: body2.position.z + r2.z,
        };
        let c = Vec3 { x: a1.x - a2.x, y: a1.y - a2.y, z: a1.z - a2.z };
        let mag = v3_len(&c);
        if mag == 0 {
            return ;
        }
        proof {
            assert(v3_norm_sq(c@) <= 3 * (204_000_000_000 * 204_000_000_000)) by (nonlinear_arith)
                requires
                    iabs(c@.x) <= 204_000_000_000,
                    iabs(c@.y) <= 204_000_000_000,
                    iabs(c@.z) <= 204_000_000_000,
            ;
            assert(mag as int <= 400_000_000_000) by (nonlinear_arith)
                requires
                    (mag as int) * (mag as int) <= v3_norm_sq(c@),
                    v3_norm_sq(c@) <= 3 * (204_000_000_000 * 204_000_000_000),
                    0 <= mag as int,
            ;
            crate::fx::lemma_fxd_unit(c@.x, mag as int);
            crate::fx::lemma_fxd_unit(c@.y, mag as int);
            crate::fx::lemma_fxd_unit(c@.z, mag as int);
        }
        let n = Vec3 { x: fx_div(c.x, mag), y: fx_div(c.y, mag), z: fx_div(c.z, mag) };
        proof {
            lemma_fxm_bound(dt as int, dt as int, FX_ONE as int, FX_ONE as int);
            lemma_tdiv_mul_bound((dt as int) * (dt as int), FX_ONE as int);
            assert((dt as int) * (dt as int) >= (FX_ONE as int)) by (nonlinear_arith)
                requires
                    dt >= DT_EPSILON,
                    DT_EPSILON == 1_000,
                    FX_ONE == 1_000_000,
            ;
            lemma_tdiv_sign((dt as int) * (dt as int), FX_ONE as int);
        }
        let dtsq = fx_mul(dt, dt);
        proof {
            assert(dtsq >= 1);
            crate::fx::lemma_fxd_bound(self@.compliance, dtsq as int);
        }
        let alpha = fx_div(self.compliance, dtsq);
        let cr1 = self.cross_arm(&r1, &n);
        let cr2 = self.cross_arm(&r2, &n);
        let dot1 = self.dot_sq(&cr1);
        let dot2 = self.dot_sq(&cr2);
        proof {
            crate::fx::lemma_fxm_nonneg(body1@.inverse_inertia, dot1 as int);
            crate::fx::lemma_fxm_nonneg(body2@.inverse_inertia, dot2 as int);
            lemma_fxm_bound(
                body1@.inverse_inertia,
                dot1 as int,
                crate::body::INV_MASS_LIM as int,
                31_000_000_000_000,
            );
            lemma_fxm_bound(
                body2@.inverse_inertia,
                dot2 as int,
                crate::body::INV_MASS_LIM as int,
                31_000_000_000_000,
            );
        }
        let w1 = body1.inverse_mass + fx_mul(body1.inverse_inertia, dot1);
        let w2 = body2.inverse_mass + fx_mul(body2.inverse_inertia, dot2);
        let tot = w1 + w2 + alpha;
        if tot < 1 {
            return ;
        }
        proof {
            lemma_fxm_zero(alpha as int);
            crate::fx::lemma_fxd_bound((mag + fx_mul_spec(alpha as int, 0)) as int, tot as int);
        }
        let excess = fx_mul(alpha, self.position_lagrange);
        let dl = fx_div(mag + excess, tot);
        let dlambda = -dl;
        let lagrange = self.position_lagrange + dlambda;
        proof {
            lemma_fxm_bound(n@.x, dlambda as int, FX_ONE as int, dl as int);
            lemma_fxm_bound(n@.y, dlambda as int, FX_ONE as int, dl as int);
            lemma_fxm_bound(n@.z, dlambda as int, FX_ONE as int, dl as int);
        }
        let p = Vec3 {
            x: fx_mul(n.x, dlambda),
            y: fx_mul(n.y, dlambda),
            z: fx_mul(n.z, dlambda),
        };
        proof {
            let toti = tot as int;
            let dli = dl as int;
            let magi = mag as int;
            assert(dli * toti <= magi * (FX_ONE as int));
            lemma_corr_bound(p@.x, body1@.inverse_mass, dli, toti, magi, w1 as int);
            lemma_corr_bound(p@.y, body1@.inverse_mass, dli, toti, magi, w1 as int);
            lemma_corr_bound(p@.z, body1@.inverse_mass, dli, toti, magi, w1 as int);
            lemma_corr_bound(p@.x, body2@.inverse_mass, dli, toti, magi, w2 as int);
            lemma_corr_bound(p@.y, body2@.inverse_mass, dli, toti, magi, w2 as int);
            lemma_corr_bound(p@.z, body2@.inverse_mass, dli, toti, magi, w2 as int);
        }
        let new_pos1 = Vec3 {
            x: body1.position.x + fx_mul(p.x, body1.inverse_mass),
            y: body1.position.y + fx_mul(p.y, body1.inverse_mass),
            z: body1.position.z + fx_mul(p.z, body1.inverse_mass),
        };
        let new_pos2 = Vec3 {
            x: body2.position.x - fx_mul(p.x, body2.inverse_mass),
            y: body2.position.y - fx_mul(p.y, body2.inverse_mass),
            z: body2.position.z - fx_mul(p.z, body2.inverse_mass),
        };
        let s1 = fx_mul_sat(body1.inverse_inertia, dlambda);
        let s2 = fx_mul_sat(body2.inverse_inertia, dlambda);
        let rv1 = Vec3 {
            x: fx_mul_sat(cr1.x, s1),
            y: fx_mul_sat(cr1.y, s1),
            z: fx_mul_sat(cr1.z, s1),
        };
        let rv2 = Vec3 {
            x: fx_mul_sat(cr2.x, -s2),
            y: fx_mul_sat(cr2.y, -s2),
            z: fx_mul_sat(cr2.z, -s2),
        };
        proof {
            crate::fx::lemma_fxd_bound(lagrange as int, dtsq as int);
        }
        let fs = fx_div_sat(lagrange, dtsq);
        proof {
            lemma_fxm_bound(n@.x, fs as int, FX_ONE as int, FX_SAT as int);
            lemma_fxm_bound(n@.y, fs as int, FX_ONE as int, FX_SAT as int);
            lemma_fxm_bound(n@.z, fs as int, FX_ONE as int, FX_SAT as int);
        }
        let force = Vec3 { x: fx_mul(n.x, fs), y: fx_mul(n.y, fs), z: fx_mul(n.z, fs) };
        self.position_lagrange = lagrange;
        self.force = force;
        body1.position = new_pos1;
        body2.position = new_pos2;
        let q1 = quat_apply_rotvec(&body1.rotation, &rv1);
        let q2 = quat_apply_rotvec(&body2.rotation, &rv2);
        body1.rotation = q1;
        body2.rotation = q2;
        proof {
            if q1@ == old(body1)@.rotation {
            }
            if q2@ == old(body2)@.rotation {
            }
        }
    }

    /// Fixed-point cross product of a rotated anchor arm with a unit
    /// direction.
    fn cross_arm(&self, r: &Vec3, n: &Vec3) -> (out: Vec3)
        requires
            v3_bounded(r@, 16 * (ANCHOR_LIM as int)),
            v3_bounded(n@, FX_ONE as int),
        ensures
            out@ == v3_cross(r@, n@),
            v3_bounded(out@, 3_200_000_000),
    {
        proof {
            let la = 16 * (ANCHOR_LIM as int);
            lemma_fxm_bound(r@.y, n@.z, la, FX_ONE as int);
            lemma_fxm_bound(r@.z, n@.y, la, FX_ONE as int);
            lemma_fxm_bound(r@.z, n@.x, la, FX_ONE as int);
            lemma_fxm_bound(r@.x, n@.z, la, FX_ONE as int);
            lemma_fxm_bound(r@.x, n@.y, la, FX_ONE as int);
            lemma_fxm_bound(r@.y, n@.x, la, FX_ONE as int);
        }
        Vec3 {
            x: fx_mul(r.y, n.z) - fx_mul(r.z, n.y),
            y: fx_mul(r.z, n.x) - fx_mul(r.x, n.z),
            z: fx_mul(r.x, n.y) - fx_mul(r.y, n.x),
        }
    }

    /// Fixed-point squared norm of a cross-product arm.
    fn dot_sq(&self, v: &Vec3) -> (out: i64)
        requires
            v3_bounded(v@, 3_200_000_000),
        ensures
            out as int == v3_dot(v@, v@),
            0 <= out <= 31_000_000_000_000,
    {
        proof {
            lemma_fxm_bound(v@.x, v@.x, 3_200_000_000, 3_200_000_000);
            lemma_fxm_bound(v@.y, v@.y, 3_200_000_000, 3_200_000_000);
            lemma_fxm_bound(v@.z, v@.z, 3_200_000_000, 3_200_000_000);
            crate::fx::lemma_fxm_sq_nonneg(v@.x);
            crate::fx::lemma_fxm_sq_nonneg(v@.y);
            crate::fx::lemma_fxm_sq_nonneg(v@.z);
        }
        fx_mul(v.x, v.x) + fx_mul(v.y, v.y) + fx_mul(v.z, v.z)
    }

    /// Whether a body's position sits inside the solve envelope.
    fn position_in_range(&self, b: &Body) -> (r: bool)
        ensures
            r == in_solve_range(b@),
    {
        b.position.x >= -POS_SOLVE_LIM && b.position.x <= POS_SOLVE_LIM && b.position.y
            >= -POS_SOLVE_LIM && b.position.y <= POS_SOLVE_LIM && b.position.z >= -POS_SOLVE_LIM
            && b.position.z <= POS_SOLVE_LIM
    }

    /// One solve step of the joint inside a physics substep: align the
    /// two effective frames, then drive the two world anchor points
    /// together, both corrections scaled by compliance and weighted by
    /// each body's inverse mass and inertia (an infinite-mass body
    /// does not move).  Requires the reset discipline: the per-substep
    /// accumulators were cleared before the first solve of the
    /// substep.  A degenerate time delta or an out-of-range
    /// configuration changes nothing.
    pub fn solve(&mut self, body1: &mut Body, body2: &mut Body, dt: i64)
        requires
            joint_wf(old(self)@),
            old(self)@.position_lagrange == 0,
            old(self)@.align_lagrange == 0,
            crate::body::body_wf(old(body1)@),
            crate::body::body_wf(old(body2)@),
        ensures
            (final(self)@, final(body1)@, final(body2)@) == solve_spec(
                old(self)@,
                old(body1)@,
                old(body2)@,
                dt as int,
            ),
            crate::body::body_wf(final(body1)@),
            crate::body::body_wf(final(body2)@),
            joint_wf(final(self)@),
    {
        if dt < DT_EPSILON || dt > FX_ONE {
            return ;
        }
        if !self.position_in_range(body1) || !self.position_in_range(body2) {
            return ;
        }
        self.align_orientation(body1, body2, dt);
        self.align_position(body1, body2, dt);
    }

    /// The attachment point on the first body.
    pub fn local_anchor_1(&self) -> (r: Vec3)
        ensures
            r == self.local_anchor1,
    {
        self.local_anchor1
    }

    /// The attachment point on the second body.
    pub fn local_anchor_2(&self) -> (r: Vec3)
        ensures
            r == self.local_anchor2,
    {
        self.local_anchor2
    }

    /// The linear damping factor.
    pub fn damping_linear(&self) -> (r: i64)
        ensures
            r == self.damping_linear,
    {
        self.damping_linear
    }

    /// The angular damping factor.
    pub fn damping_angular(&self) -> (r: i64)
        ensures
            r == self.damping_angular,
    {
        self.damping_angular
    }
}

} // verus!
