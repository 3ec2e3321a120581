//! The fixed joint's solve step: the rigid scenario, idempotence,
//! reset discipline, compliance scaling and the infinite-mass rule.

use grabcore::body::{Body, BodyArena, BodyRef};
use grabcore::fx::FX_ONE;
use grabcore::joint::FixedJointWithRotation;
use grabcore::quat::quat_identity;
use grabcore::vec3::{v3_len, Vec3};

fn unit_body(x: i64, y: i64, z: i64) -> Body {
    Body {
        position: Vec3 { x, y, z },
        rotation: quat_identity(),
        linear_velocity: Vec3 { x: 0, y: 0, z: 0 },
        angular_velocity: Vec3 { x: 0, y: 0, z: 0 },
        inverse_mass: FX_ONE,
        inverse_inertia: FX_ONE,
        sleeping_disabled: false,
    }
}

fn handle(i: usize) -> BodyRef {
    BodyRef { index: i, generation: 0 }
}

const DT_60HZ: i64 = 16_667;

#[test]
fn rigid_solve_closes_two_unit_gap_in_one_substep() {
    // Two bodies 2.0 units apart, compliance zero, default damping:
    // after one substep the anchor distance is within 1e-4 of zero.
    let mut b1 = unit_body(0, 0, 0);
    let mut b2 = unit_body(2_000_000, 0, 0);
    let mut j = FixedJointWithRotation::new(handle(0), handle(1));
    j.clear_lagrange_multipliers();
    j.solve(&mut b1, &mut b2, DT_60HZ);
    let gap = Vec3 {
        x: b1.position.x - b2.position.x,
        y: b1.position.y - b2.position.y,
        z: b1.position.z - b2.position.z,
    };
    assert!(v3_len(&gap) <= 100, "anchor error {} ticks", v3_len(&gap));
    // With equal unit masses the meeting point is the midpoint, hit
    // exactly at this resolution.
    assert_eq!(b1.position, Vec3 { x: 1_000_000, y: 0, z: 0 });
    assert_eq!(b2.position, Vec3 { x: 1_000_000, y: 0, z: 0 });
    // This substep's multiplier is the full one-unit-per-body
    // correction, and the reported force is the multiplier divided by
    // the squared substep delta, along the error direction.
    assert_eq!(j.position_lagrange, -1_000_000);
    assert_eq!(j.align_lagrange, 0);
    assert_eq!(j.force, Vec3 { x: 3_610_108_303, y: 0, z: 0 });
    // Aligned frames: the angular channel never fired.
    assert_eq!(j.align_torque, Vec3 { x: 0, y: 0, z: 0 });
}

#[test]
fn solve_is_idempotent_once_aligned() {
    let mut b1 = unit_body(0, 0, 0);
    let mut b2 = unit_body(2_000_000, 0, 0);
    let mut j = FixedJointWithRotation::new(handle(0), handle(1));
    j.clear_lagrange_multipliers();
    j.solve(&mut b1, &mut b2, DT_60HZ);
    let (j_snap, b1_snap, b2_snap) = (j, b1, b2);
    j.clear_lagrange_multipliers();
    j.solve(&mut b1, &mut b2, DT_60HZ);
    assert_eq!(b1, b1_snap);
    assert_eq!(b2, b2_snap);
    // The joint's accumulators were reset before the no-op solve.
    assert_eq!(j.position_lagrange, 0);
    assert_eq!(j.align_lagrange, 0);
    assert_eq!(j.entity1, j_snap.entity1);
    assert_eq!(j.entity2, j_snap.entity2);
}

#[test]
fn reset_zeroes_accumulators_regardless_of_prior_value() {
    let mut j = FixedJointWithRotation::new(handle(0), handle(1));
    j.position_lagrange = -987_654_321;
    j.align_lagrange = 123_456_789;
    j.clear_lagrange_multipliers();
    assert_eq!(j.position_lagrange, 0);
    assert_eq!(j.align_lagrange, 0);
}

#[test]
fn compliant_solve_converges_monotonically() {
    // Compliance 0.01 units per unit force: each substep takes a
    // partial bite out of the error, never overshooting.
    let mut b1 = unit_body(0, 0, 0);
    let mut b2 = unit_body(2_000_000, 0, 0);
    let mut j = FixedJointWithRotation::new(handle(0), handle(1)).with_compliance(10_000);
    let mut last = v3_len(&Vec3 {
        x: b1.position.x - b2.position.x,
        y: b1.position.y - b2.position.y,
        z: b1.position.z - b2.position.z,
    });
    for _ in 0..20 {
        j.clear_lagrange_multipliers();
        j.solve(&mut b1, &mut b2, DT_60HZ);
        let gap = v3_len(&Vec3 {
            x: b1.position.x - b2.position.x,
            y: b1.position.y - b2.position.y,
            z: b1.position.z - b2.position.z,
        });
        assert!(gap <= last, "error grew from {} to {}", last, gap);
        last = gap;
    }
    // Twenty substeps of a soft spring leave some error, but far less
    // than the starting gap.
    assert!(last < 2_000_000);
    assert!(last > 0);
}

#[test]
fn infinite_mass_bodies_do_not_move() {
    let mut b1 = unit_body(0, 0, 0);
    b1.inverse_mass = 0;
    b1.inverse_inertia = 0;
    let mut b2 = unit_body(2_000_000, 0, 0);
    b2.inverse_mass = 0;
    b2.inverse_inertia = 0;
    let mut j = FixedJointWithRotation::new(handle(0), handle(1));
    j.clear_lagrange_multipliers();
    j.solve(&mut b1, &mut b2, DT_60HZ);
    assert_eq!(b1.position, Vec3 { x: 0, y: 0, z: 0 });
    assert_eq!(b2.position, Vec3 { x: 2_000_000, y: 0, z: 0 });
}

#[test]
fn one_sided_infinite_mass_moves_only_the_movable_body() {
    let mut b1 = unit_body(0, 0, 0);
    b1.inverse_mass = 0;
    b1.inverse_inertia = 0;
    let mut b2 = unit_body(2_000_000, 0, 0);
    let mut j = FixedJointWithRotation::new(handle(0), handle(1));
    j.clear_lagrange_multipliers();
    j.solve(&mut b1, &mut b2, DT_60HZ);
    assert_eq!(b1.position, Vec3 { x: 0, y: 0, z: 0 });
    assert_eq!(b2.position, Vec3 { x: 0, y: 0, z: 0 });
}

#[test]
fn degenerate_time_delta_is_a_no_op() {
    let mut b1 = unit_body(0, 0, 0);
    let mut b2 = unit_body(2_000_000, 0, 0);
    let mut j = FixedJointWithRotation::new(handle(0), handle(1));
    j.clear_lagrange_multipliers();
    j.solve(&mut b1, &mut b2, 0);
    assert_eq!(b2.position, Vec3 { x: 2_000_000, y: 0, z: 0 });
    j.solve(&mut b1, &mut b2, 999);
    assert_eq!(b2.position, Vec3 { x: 2_000_000, y: 0, z: 0 });
}

#[test]
fn builders_set_their_fields_and_nothing_else() {
    let anchor = Vec3 { x: 100_000, y: 0, z: -200_000 };
    let j = FixedJointWithRotation::new(handle(3), handle(7))
        .with_compliance(42)
        .with_local_anchor_1(anchor)
        .with_linear_velocity_damping(500_000)
        .with_angular_velocity_damping(250_000);
    assert_eq!(j.entity1, handle(3));
    assert_eq!(j.entity2, handle(7));
    assert_eq!(j.compliance, 42);
    assert_eq!(j.local_anchor_1(), anchor);
    assert_eq!(j.local_anchor_2(), Vec3 { x: 0, y: 0, z: 0 });
    assert_eq!(j.damping_linear(), 500_000);
    assert_eq!(j.damping_angular(), 250_000);
    assert_eq!(j.local_rotation1, quat_identity());
    assert_eq!(j.local_rotation2, quat_identity());
    assert_eq!(j.position_lagrange, 0);
    assert_eq!(j.align_lagrange, 0);
    let e = j.entities();
    assert_eq!(e[0], handle(3));
    assert_eq!(e[1], handle(7));
}

#[test]
fn rotation_offset_aligns_effective_frames() {
    // Body two starts with an identity rotation; the joint asks for a
    // half-turn offset on body one's side, so solving turns body two
    // around rather than leaving the frames apart.
    let mut b1 = unit_body(0, 0, 0);
    b1.inverse_mass = 0;
    b1.inverse_inertia = 0;
    let mut b2 = unit_body(0, 0, 0);
    let half_turn = grabcore::quat::Quat { x: 0, y: FX_ONE, z: 0, w: 0 };
    let mut j = FixedJointWithRotation::new(handle(0), handle(1)).with_rotation_1(half_turn);
    for _ in 0..40 {
        j.clear_lagrange_multipliers();
        j.solve(&mut b1, &mut b2, DT_60HZ);
    }
    // Body one is pinned, so body two's rotation must approach the
    // half-turn; its y component dominates in magnitude.
    let q = b2.rotation;
    assert!(q.y.abs() > 900_000, "rotation y component {}", q.y);
    assert!(q.w.abs() < 450_000, "rotation w component {}", q.w);
}

#[test]
fn stale_handles_are_rejected_by_the_arena() {
    let mut arena = BodyArena::new();
    let r = arena.spawn(unit_body(0, 0, 0), false);
    assert!(arena.valid(&r));
    assert!(arena.body(&r).is_some());
    assert!(arena.despawn(&r));
    assert!(!arena.valid(&r));
    assert!(arena.body(&r).is_none());
    assert!(!arena.set_body(&r, unit_body(1, 2, 3)));
    assert!(!arena.despawn(&r));
    // A later spawn gets a fresh slot; the old handle stays dead.
    let r2 = arena.spawn(unit_body(5, 5, 5), true);
    assert!(arena.valid(&r2));
    assert!(!arena.valid(&r));
    assert!(arena.is_grabbable(&r2));
}
