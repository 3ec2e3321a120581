//! The substep dispatcher: reset before solve, sequential solving
//! over the arena, and the retirement of joints with stale handles.

use grabcore::body::{Body, BodyArena, BodyRef};
use grabcore::fx::FX_ONE;
use grabcore::joint::FixedJointWithRotation;
use grabcore::quat::quat_identity;
use grabcore::solver::{substep, JointArena};
use grabcore::vec3::Vec3;

const DT_60HZ: i64 = 16_667;

fn unit_body(x: i64, y: i64, z: i64) -> Body {
    Body {
        position: Vec3 { x, y, z },
        rotation: quat_identity(),
        linear_velocity: Vec3 { x: 0, y: 0, z: 0 },
        angular_velocity: Vec3 { x: 0, y: 0, z: 0 },
        inverse_mass: FX_ONE,
        inverse_inertia: FX_ONE,
        sleeping_disabled: false,
    }
}

#[test]
fn substep_solves_a_live_joint_against_its_bodies() {
    let mut bodies = BodyArena::new();
    let mut joints = JointArena::new();
    let a = bodies.spawn(unit_body(0, 0, 0), false);
    let b = bodies.spawn(unit_body(2_000_000, 0, 0), true);
    let jr = joints.spawn(FixedJointWithRotation::new(a, b));

    substep(&mut bodies, &mut joints, DT_60HZ);

    assert_eq!(bodies.body(&a).unwrap().position, Vec3 { x: 1_000_000, y: 0, z: 0 });
    assert_eq!(bodies.body(&b).unwrap().position, Vec3 { x: 1_000_000, y: 0, z: 0 });
    assert!(joints.valid(&jr));
}

#[test]
fn substep_clears_accumulators_before_solving() {
    let mut bodies = BodyArena::new();
    let mut joints = JointArena::new();
    let a = bodies.spawn(unit_body(0, 0, 0), false);
    let b = bodies.spawn(unit_body(2_000_000, 0, 0), true);
    let jr = joints.spawn(FixedJointWithRotation::new(a, b));
    // Poison the accumulators as a prior substep would have left them;
    // the reset phase must run before any solve reads them.
    joints.slots[jr.index].joint.position_lagrange = 777_777;
    joints.slots[jr.index].joint.align_lagrange = -55;

    substep(&mut bodies, &mut joints, DT_60HZ);

    // The solve then closed the gap exactly as from a clean start,
    // and the accumulator holds exactly this substep's multiplier.
    assert_eq!(bodies.body(&a).unwrap().position, Vec3 { x: 1_000_000, y: 0, z: 0 });
    let j = joints.joint(&jr).unwrap();
    assert_eq!(j.position_lagrange, -1_000_000);
    assert_eq!(j.align_lagrange, 0);
}

#[test]
fn substep_retires_joints_with_stale_handles() {
    let mut bodies = BodyArena::new();
    let mut joints = JointArena::new();
    let a = bodies.spawn(unit_body(0, 0, 0), false);
    let b = bodies.spawn(unit_body(2_000_000, 0, 0), true);
    let jr = joints.spawn(FixedJointWithRotation::new(a, b));
    bodies.despawn(&b);

    substep(&mut bodies, &mut joints, DT_60HZ);

    // The joint was never solved against the dangling handle and is
    // gone from the live set.
    assert!(!joints.valid(&jr));
    assert_eq!(bodies.body(&a).unwrap().position, Vec3 { x: 0, y: 0, z: 0 });
}

#[test]
fn substep_retires_self_referential_joints() {
    let mut bodies = BodyArena::new();
    let mut joints = JointArena::new();
    let a = bodies.spawn(unit_body(0, 0, 0), false);
    let jr = joints.spawn(FixedJointWithRotation::new(a, a));

    substep(&mut bodies, &mut joints, DT_60HZ);

    assert!(!joints.valid(&jr));
}

#[test]
fn substep_solves_joints_sequentially_in_slot_order() {
    // Three bodies chained by two joints sharing the middle body:
    // sequential corrections pull the chain together without a race
    // on the shared body.
    let mut bodies = BodyArena::new();
    let mut joints = JointArena::new();
    let a = bodies.spawn(unit_body(0, 0, 0), false);
    let b = bodies.spawn(unit_body(2_000_000, 0, 0), true);
    let c = bodies.spawn(unit_body(4_000_000, 0, 0), true);
    joints.spawn(FixedJointWithRotation::new(a, b));
    joints.spawn(FixedJointWithRotation::new(b, c));

    // First joint meets at 1.0; second then pulls b and c toward
    // their midpoint 2.5; iterating converges the chain.
    substep(&mut bodies, &mut joints, DT_60HZ);
    let b_pos = bodies.body(&b).unwrap().position.x;
    let c_pos = bodies.body(&c).unwrap().position.x;
    assert_eq!(b_pos, 2_500_000);
    assert_eq!(c_pos, 2_500_000);

    for _ in 0..40 {
        substep(&mut bodies, &mut joints, DT_60HZ);
    }
    let a_pos = bodies.body(&a).unwrap().position.x;
    let b_pos = bodies.body(&b).unwrap().position.x;
    let c_pos = bodies.body(&c).unwrap().position.x;
    assert!((a_pos - b_pos).abs() <= 200, "chain link one left {}", a_pos - b_pos);
    assert!((b_pos - c_pos).abs() <= 200, "chain link two left {}", b_pos - c_pos);
}

#[test]
fn joint_arena_rejects_stale_handles() {
    let mut bodies = BodyArena::new();
    let mut joints = JointArena::new();
    let a = bodies.spawn(unit_body(0, 0, 0), false);
    let b = bodies.spawn(unit_body(1_000_000, 0, 0), false);
    let jr = joints.spawn(FixedJointWithRotation::new(a, b));
    assert!(joints.valid(&jr));
    assert!(joints.joint(&jr).is_some());
    assert!(joints.despawn(&jr));
    assert!(!joints.valid(&jr));
    assert!(joints.joint(&jr).is_none());
    assert!(!joints.despawn(&jr));
}
