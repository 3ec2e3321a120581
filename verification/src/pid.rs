//! A three-axis proportional-integral-derivative controller.
//!
//! Retained as a reusable damping utility.  The update accumulates the
//! error integral, differentiates against the last error, and returns
//! the gain-weighted sum.  There is no reset operation: a caller that
//! switches targets must construct a fresh controller or accept the
//! carried-over integral.

use crate::fx::{fx_div, fx_div_spec, fx_mul, fx_mul_spec, iabs, lemma_fxm_bound, DT_EPSILON, FX_ONE};
use crate::vec3::{v3_add, v3_bounded, v3_div, v3_scale, v3_sub, v3_zero, Vec3, Vec3View};
use vstd::prelude::*;

verus! {

/// Cap on the gain factors.
pub const GAIN_LIM: i64 = 1_000_000_000;

/// Cap on error inputs.
pub const ERROR_LIM: i64 = 1_000_000_000_000;

/// Cap on the accumulated integral; each update moves it by at most
/// one error-times-second, so a caller has ample headroom before
/// integral windup reaches the cap.
pub const INTEGRAL_LIM: i64 = 1_000_000_000_000_000;

/// PID controller state: three gains and two accumulators.
#[derive(Clone, Copy, PartialEq, Eq, Structural, Debug)]
pub struct PIDController {
    pub p_factor: i64,
    pub i_factor: i64,
    pub d_factor: i64,
    pub integral: Vec3,
    pub last_error: Vec3,
}

/// Spec-level image of a controller.
pub struct PIDView {
    pub p_factor: int,
    pub i_factor: int,
    pub d_factor: int,
    pub integral: Vec3View,
    pub last_error: Vec3View,
}

impl View for PIDController {
    type V = PIDView;

    open spec fn view(&self) -> PIDView {
        PIDView {
            p_factor: self.p_factor as int,
            i_factor: self.i_factor as int,
            d_factor: self.d_factor as int,
            integral: self.integral@,
            last_error: self.last_error@,
        }
    }
}

/// Range discipline for a controller.
pub open spec fn pid_wf(c: PIDView) -> bool {
    &&& iabs(c.p_factor) <= GAIN_LIM as int
    &&& iabs(c.i_factor) <= GAIN_LIM as int
    &&& iabs(c.d_factor) <= GAIN_LIM as int
    &&& v3_bounded(c.integral, INTEGRAL_LIM as int)
    &&& v3_bounded(c.last_error, ERROR_LIM as int)
}

/// One update step: a near-zero time delta is degenerate and is
/// guarded to a no-op returning the zero vector, never a divide;
/// otherwise `integral += e * dt`, `derivative = (e - last) / dt`,
/// `last = e`, and the output is `p*e + i*integral + d*derivative`.
pub open spec fn pid_update_spec(c: PIDView, e: Vec3View, dt: int) -> (PIDView, Vec3View) {
    if dt < DT_EPSILON as int {
        (c, v3_zero())
    } else {
        let integral = v3_add(c.integral, v3_scale(e, dt));
        let derivative = v3_div(v3_sub(e, c.last_error), dt);
        let out = v3_add(
            v3_add(v3_scale(e, c.p_factor), v3_scale(integral, c.i_factor)),
            v3_scale(derivative, c.d_factor),
        );
        (PIDView { integral: integral, last_error: e, ..c }, out)
    }
}

impl PIDController {
    /// A controller with the given gains and zeroed accumulators.
    pub fn new(p_factor: i64, i_factor: i64, d_factor: i64) -> (r: PIDController)
        ensures
            r@.p_factor == p_factor as int,
            r@.i_factor == i_factor as int,
            r@.d_factor == d_factor as int,
            r@.integral == v3_zero(),
            r@.last_error == v3_zero(),
    {
        PIDController {
            p_factor,
            i_factor,
            d_factor,
            integral: Vec3 { x: 0, y: 0, z: 0 },
            last_error: Vec3 { x: 0, y: 0, z: 0 },
        }
    }

    /// One update step.  A time delta below the epsilon is degenerate
    /// input: the state is left untouched and the zero vector comes
    /// back, so no non-finite value can enter simulation state.
    pub fn update(&mut self, current_error: Vec3, delta_time: i64) -> (r: Vec3)
        requires
            pid_wf(old(self)@),
            v3_bounded(current_error@, ERROR_LIM as int),
            v3_bounded(old(self)@.integral, (INTEGRAL_LIM - 2 * ERROR_LIM) as int),
            delta_time <= FX_ONE,
        ensures
            (final(self)@, r@) == pid_update_spec(old(self)@, current_error@, delta_time as int),
            delta_time < DT_EPSILON ==> final(self)@ == old(self)@ && r@ == v3_zero(),
            pid_wf(final(self)@),
    {
        if delta_time < DT_EPSILON {
            return Vec3 { x: 0, y: 0, z: 0 };
        }
        proof {
            let e = current_error@;
            let lim = ERROR_LIM as int;
            lemma_fxm_bound(e.x, delta_time as int, lim, FX_ONE as int);
            lemma_fxm_bound(e.y, delta_time as int, lim, FX_ONE as int);
            lemma_fxm_bound(e.z, delta_time as int, lim, FX_ONE as int);
        }
        let scaled = Vec3 {
            x: fx_mul(current_error.x, delta_time),
            y: fx_mul(current_error.y, delta_time),
            z: fx_mul(current_error.z, delta_time),
        };
        let integral = Vec3 {
            x: self.integral.x + scaled.x,
            y: self.integral.y + scaled.y,
            z: self.integral.z + scaled.z,
        };
        let diff = Vec3 {
            x: current_error.x - self.last_error.x,
            y: current_error.y - self.last_error.y,
            z: current_error.z - self.last_error.z,
        };
        proof {
            crate::fx::lemma_fxd_bound(diff@.x, delta_time as int);
            crate::fx::lemma_fxd_bound(diff@.y, delta_time as int);
            crate::fx::lemma_fxd_bound(diff@.z, delta_time as int);
            assert(iabs(fx_div_spec(diff@.x, delta_time as int)) <= 2_000_000_000_000_000)
                by (nonlinear_arith)
                requires
                    iabs(fx_div_spec(diff@.x, delta_time as int)) * (delta_time as int) <= iabs(
                    diff@.x) * (FX_ONE as int),
                    iabs(diff@.x) <= 2_000_000_000_000,
                    delta_time >= 1_000,
                    FX_ONE == 1_000_000,
            ;
            assert(iabs(fx_div_spec(diff@.y, delta_time as int)) <= 2_000_000_000_000_000)
                by (nonlinear_arith)
                requires
                    iabs(fx_div_spec(diff@.y, delta_time as int)) * (delta_time as int) <= iabs(
                    diff@.y) * (FX_ONE as int),
                    iabs(diff@.y) <= 2_000_000_000_000,
                    delta_time >= 1_000,
                    FX_ONE == 1_000_000,
            ;
            assert(iabs(fx_div_spec(diff@.z, delta_time as int)) <= 2_000_000_000_000_000)
                by (nonlinear_arith)
                requires
                    iabs(fx_div_spec(diff@.z, delta_time as int)) * (delta_time as int) <= iabs(
                    diff@.z) * (FX_ONE as int),
                    iabs(diff@.z) <= 2_000_000_000_000,
                    delta_time >= 1_000,
                    FX_ONE == 1_000_000,
            ;
        }
        let derivative = Vec3 {
            x: fx_div(diff.x, delta_time),
            y: fx_div(diff.y, delta_time),
            z: fx_div(diff.z, delta_time),
        };
        proof {
            let g = GAIN_LIM as int;
            lemma_fxm_bound(current_error@.x, self@.p_factor, ERROR_LIM as int, g);
            lemma_fxm_bound(current_error@.y, self@.p_factor, ERROR_LIM as int, g);
            lemma_fxm_bound(current_error@.z, self@.p_factor, ERROR_LIM as int, g);
            lemma_fxm_bound(integral@.x, self@.i_factor, INTEGRAL_LIM as int, g);
            lemma_fxm_bound(integral@.y, self@.i_factor, INTEGRAL_LIM as int, g);
            lemma_fxm_bound(integral@.z, self@.i_factor, INTEGRAL_LIM as int, g);
            lemma_fxm_bound(derivative@.x, self@.d_factor, 2_000_000_000_000_000, g);
            lemma_fxm_bound(derivative@.y, self@.d_factor, 2_000_000_000_000_000, g);
            lemma_fxm_bound(derivative@.z, self@.d_factor, 2_000_000_000_000_000, g);
        }
        let out = Vec3 {
            x: fx_mul(current_error.x, self.p_factor) + fx_mul(integral.x, self.i_factor) + fx_mul(
                derivative.x,
                self.d_factor,
            ),
            y: fx_mul(current_error.y, self.p_factor) + fx_mul(integral.y, self.i_factor) + fx_mul(
                derivative.y,
                self.d_factor,
            ),
            z: fx_mul(current_error.z, self.p_factor) + fx_mul(integral.z, self.i_factor) + fx_mul(
                derivative.z,
                self.d_factor,
            ),
        };
        self.integral = integral;
        self.last_error = current_error;
        out
    }
}

} // verus!
