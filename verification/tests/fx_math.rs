//! Exact-value checks of the fixed-point scalar, vector and
//! quaternion helpers.

use grabcore::fx::{fx_div, fx_mul, FX_ONE};
use grabcore::quat::{quat_identity, quat_mul, quat_normalize, quat_rotate, Quat};
use grabcore::vec3::{v3_len, Vec3};

#[test]
fn fixed_point_products_truncate_toward_zero() {
    // 1.5 * 1.5 == 2.25
    assert_eq!(fx_mul(1_500_000, 1_500_000), 2_250_000);
    assert_eq!(fx_mul(-1_500_000, 1_500_000), -2_250_000);
    assert_eq!(fx_mul(1_500_000, -1_500_000), -2_250_000);
    assert_eq!(fx_mul(-1_500_000, -1_500_000), 2_250_000);
    // A tick times a tick is below resolution and truncates to zero
    // from either side.
    assert_eq!(fx_mul(1, 1), 0);
    assert_eq!(fx_mul(-1, 1), 0);
}

#[test]
fn fixed_point_quotients_truncate_toward_zero() {
    // 1 / 3 rounds down, -1 / 3 rounds up (toward zero).
    assert_eq!(fx_div(1_000_000, 3_000_000), 333_333);
    assert_eq!(fx_div(-1_000_000, 3_000_000), -333_333);
    assert_eq!(fx_div(5_000_000, 2_000_000), 2_500_000);
}

#[test]
fn vector_length_is_floor_of_euclidean_norm() {
    let v = Vec3 { x: 3_000_000, y: 4_000_000, z: 0 };
    assert_eq!(v3_len(&v), 5_000_000);
    let unit = Vec3 { x: 1_000_000, y: 0, z: 0 };
    assert_eq!(v3_len(&unit), 1_000_000);
    // sqrt(2) in micro-units, floored.
    let diag = Vec3 { x: 1_000_000, y: 1_000_000, z: 0 };
    assert_eq!(v3_len(&diag), 1_414_213);
    let zero = Vec3 { x: 0, y: 0, z: 0 };
    assert_eq!(v3_len(&zero), 0);
}

#[test]
fn identity_rotation_is_neutral() {
    let id = quat_identity();
    let q = Quat { x: 0, y: FX_ONE, z: 0, w: 0 };
    let p = quat_mul(&q, &id);
    assert_eq!(p, q);
    let v = Vec3 { x: 250_000, y: -750_000, z: 1_000_000 };
    assert_eq!(quat_rotate(&id, &v), v);
}

#[test]
fn half_turn_about_y_flips_x_and_z() {
    let q = Quat { x: 0, y: FX_ONE, z: 0, w: 0 };
    let v = Vec3 { x: 1_000_000, y: 200_000, z: -500_000 };
    let r = quat_rotate(&q, &v);
    assert_eq!(r, Vec3 { x: -1_000_000, y: 200_000, z: 500_000 });
}

#[test]
fn normalize_rescales_to_unit_length() {
    let q = Quat { x: 0, y: 0, z: 0, w: 2_000_000 };
    assert_eq!(quat_normalize(&q), quat_identity());
    // The zero quaternion is degenerate input and falls back to the
    // identity instead of dividing by zero.
    let z = Quat { x: 0, y: 0, z: 0, w: 0 };
    assert_eq!(quat_normalize(&z), quat_identity());
}
