//! The PID stabilizer: exact update arithmetic and the degenerate
//! time-delta guard.

use grabcore::pid::PIDController;
use grabcore::vec3::Vec3;

#[test]
fn update_combines_the_three_terms_exactly() {
    // Gains p = 0.5, i = 0.25, d = 0.1; error 2.0 on x; dt = 0.5 s.
    let mut pid = PIDController::new(500_000, 250_000, 100_000);
    let out = pid.update(Vec3 { x: 2_000_000, y: 0, z: 0 }, 500_000);
    // integral = 2.0 * 0.5 = 1.0; derivative = (2.0 - 0.0) / 0.5 = 4.0;
    // out = 0.5*2.0 + 0.25*1.0 + 0.1*4.0 = 1.65.
    assert_eq!(pid.integral, Vec3 { x: 1_000_000, y: 0, z: 0 });
    assert_eq!(pid.last_error, Vec3 { x: 2_000_000, y: 0, z: 0 });
    assert_eq!(out, Vec3 { x: 1_650_000, y: 0, z: 0 });
}

#[test]
fn derivative_uses_the_previous_error() {
    let mut pid = PIDController::new(0, 0, 1_000_000);
    let _ = pid.update(Vec3 { x: 1_000_000, y: 0, z: 0 }, 500_000);
    // Error unchanged: derivative, and with pure d gains the whole
    // output, is zero.
    let out = pid.update(Vec3 { x: 1_000_000, y: 0, z: 0 }, 500_000);
    assert_eq!(out, Vec3 { x: 0, y: 0, z: 0 });
    // Error drops by 1.0 over 0.5 s: derivative is -2.0.
    let out = pid.update(Vec3 { x: 0, y: 0, z: 0 }, 500_000);
    assert_eq!(out, Vec3 { x: -2_000_000, y: 0, z: 0 });
}

#[test]
fn integral_accumulates_across_updates() {
    let mut pid = PIDController::new(0, 1_000_000, 0);
    let e = Vec3 { x: 1_000_000, y: -1_000_000, z: 0 };
    let _ = pid.update(e, 250_000);
    let out = pid.update(e, 250_000);
    // Two quarter-second steps of a unit error: integral 0.5.
    assert_eq!(pid.integral, Vec3 { x: 500_000, y: -500_000, z: 0 });
    assert_eq!(out, Vec3 { x: 500_000, y: -500_000, z: 0 });
}

#[test]
fn zero_time_delta_is_guarded_to_a_zero_output() {
    let mut pid = PIDController::new(500_000, 250_000, 100_000);
    let before = pid;
    let out = pid.update(Vec3 { x: 2_000_000, y: 0, z: 0 }, 0);
    assert_eq!(out, Vec3 { x: 0, y: 0, z: 0 });
    assert_eq!(pid, before);
    // Near-zero deltas below the epsilon are rejected the same way.
    let out = pid.update(Vec3 { x: 2_000_000, y: 0, z: 0 }, 999);
    assert_eq!(out, Vec3 { x: 0, y: 0, z: 0 });
    assert_eq!(pid, before);
}

#[test]
fn fresh_controller_starts_with_zero_accumulators() {
    let pid = PIDController::new(700_000, 0, 300_000);
    assert_eq!(pid.p_factor, 700_000);
    assert_eq!(pid.i_factor, 0);
    assert_eq!(pid.d_factor, 300_000);
    assert_eq!(pid.integral, Vec3 { x: 0, y: 0, z: 0 });
    assert_eq!(pid.last_error, Vec3 { x: 0, y: 0, z: 0 });
}
