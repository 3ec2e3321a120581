//! The grab state machine: targeting, attraction, locking, release,
//! the abort path, the runaway clamp and stale-handle recovery.

use grabcore::body::{Body, BodyArena, BodyRef};
use grabcore::fx::{fx_mul, FX_ONE};
use grabcore::grab::{
    grabber_target_checking_system, grabbing_system, GrabInput, Grabber,
};
use grabcore::quat::quat_identity;
use grabcore::solver::JointArena;
use grabcore::vec3::Vec3;

const DT_60HZ: i64 = 16_667;

fn still_body(x: i64, y: i64, z: i64) -> Body {
    Body {
        position: Vec3 { x, y, z },
        rotation: quat_identity(),
        linear_velocity: Vec3 { x: 0, y: 0, z: 0 },
        angular_velocity: Vec3 { x: 0, y: 0, z: 0 },
        inverse_mass: FX_ONE,
        inverse_inertia: FX_ONE,
        sleeping_disabled: false,
    }
}

const HOLD: GrabInput = GrabInput { primary_held: true, secondary_held: false };
const RELEASE: GrabInput = GrabInput { primary_held: false, secondary_held: false };
const DROP: GrabInput = GrabInput { primary_held: true, secondary_held: true };

#[test]
fn target_check_picks_closest_grabbable_hit() {
    let mut bodies = BodyArena::new();
    let wall = bodies.spawn(still_body(1_000_000, 0, 0), false);
    let box_a = bodies.spawn(still_body(2_000_000, 0, 0), true);
    let box_b = bodies.spawn(still_body(3_000_000, 0, 0), true);
    let mut grabber = Grabber::new(1_000_000_000);
    // Hits arrive ordered by distance; the wall is first but carries
    // no marker, so the first grabbable hit wins.
    let hits = vec![wall, box_a, box_b];
    grabber_target_checking_system(&mut grabber, &bodies, &hits);
    assert_eq!(grabber.potential_target, Some(box_a));
}

#[test]
fn target_check_never_retains_a_stale_target() {
    let mut bodies = BodyArena::new();
    let box_a = bodies.spawn(still_body(2_000_000, 0, 0), true);
    let mut grabber = Grabber::new(1_000_000_000);
    grabber_target_checking_system(&mut grabber, &bodies, &vec![box_a]);
    assert_eq!(grabber.potential_target, Some(box_a));
    // Next tick the ray misses everything: the old target is dropped.
    grabber_target_checking_system(&mut grabber, &bodies, &vec![]);
    assert_eq!(grabber.potential_target, None);
}

#[test]
fn target_check_skips_destroyed_bodies() {
    let mut bodies = BodyArena::new();
    let gone = bodies.spawn(still_body(1_000_000, 0, 0), true);
    let alive = bodies.spawn(still_body(2_000_000, 0, 0), true);
    bodies.despawn(&gone);
    let mut grabber = Grabber::new(1_000_000_000);
    grabber_target_checking_system(&mut grabber, &bodies, &vec![gone, alive]);
    assert_eq!(grabber.potential_target, Some(alive));
}

#[test]
fn held_for_enough_ticks_reaches_locked_with_a_live_joint() {
    let mut bodies = BodyArena::new();
    let mut joints = JointArena::new();
    let hand = bodies.spawn(still_body(0, 0, 0), false);
    // Three units away, attraction speed 1000 units per second.
    let target = bodies.spawn(still_body(3_000_000, 0, 0), true);
    let mut grabber = Grabber::new(1_000_000_000);
    let hand_pos = Vec3 { x: 0, y: 0, z: 0 };

    grabber_target_checking_system(&mut grabber, &bodies, &vec![target]);
    assert_eq!(grabber.potential_target, Some(target));

    let mut locked_after = None;
    for tick in 0..60 {
        grabbing_system(
            &mut grabber,
            hand,
            hand_pos,
            HOLD,
            &mut bodies,
            &mut joints,
            DT_60HZ,
        );
        if grabber.grabbed_entity.is_some() {
            locked_after = Some(tick);
            break;
        }
        // The attraction set the body's velocity straight at the
        // grabber; integrate it for one tick as the engine would.
        let mut b = bodies.body(&target).unwrap();
        b.position.x += fx_mul(b.linear_velocity.x, DT_60HZ);
        b.position.y += fx_mul(b.linear_velocity.y, DT_60HZ);
        b.position.z += fx_mul(b.linear_velocity.z, DT_60HZ);
        assert!(b.linear_velocity.x < 0, "attraction must pull toward the hand");
        assert!(bodies.set_body(&target, b));
    }
    assert!(locked_after.is_some(), "never locked");
    assert_eq!(grabber.grabbed_entity, Some(target));
    let jr = grabber.joint.expect("a joint must exist once locked");
    assert!(joints.valid(&jr));
    let j = joints.joint(&jr).unwrap();
    assert_eq!(j.entity1, hand);
    assert_eq!(j.entity2, target);
    assert_eq!(j.compliance, 0);
    // Grabber-side anchor at the origin, half-turn offset about Y.
    assert_eq!(j.local_anchor_1(), Vec3 { x: 0, y: 0, z: 0 });
    assert_eq!(j.local_rotation1.y, FX_ONE);
    assert_eq!(j.local_rotation1.w, 0);
    let held = bodies.body(&target).unwrap();
    assert_eq!(held.linear_velocity, Vec3 { x: 0, y: 0, z: 0 });
    assert_eq!(held.angular_velocity, Vec3 { x: 0, y: 0, z: 0 });
    assert!(held.sleeping_disabled);

    // Secondary action: the joint is destroyed and the machine
    // returns to idle.
    grabbing_system(
        &mut grabber,
        hand,
        hand_pos,
        DROP,
        &mut bodies,
        &mut joints,
        DT_60HZ,
    );
    assert_eq!(grabber.grabbed_entity, None);
    assert_eq!(grabber.joint, None);
    assert!(!joints.valid(&jr));
    assert!(joints.joint(&jr).is_none());
    assert!(!bodies.body(&target).unwrap().sleeping_disabled);
}

#[test]
fn releasing_primary_before_lock_aborts_with_no_joint() {
    let mut bodies = BodyArena::new();
    let mut joints = JointArena::new();
    let hand = bodies.spawn(still_body(0, 0, 0), false);
    let target = bodies.spawn(still_body(3_000_000, 0, 0), true);
    let mut grabber = Grabber::new(1_000_000_000);
    let hand_pos = Vec3 { x: 0, y: 0, z: 0 };

    grabber_target_checking_system(&mut grabber, &bodies, &vec![target]);
    grabbing_system(&mut grabber, hand, hand_pos, HOLD, &mut bodies, &mut joints, DT_60HZ);
    assert_eq!(grabber.attracted_target, Some(target));
    assert_eq!(grabber.grabbed_entity, None);

    grabbing_system(&mut grabber, hand, hand_pos, RELEASE, &mut bodies, &mut joints, DT_60HZ);
    assert_eq!(grabber.attracted_target, None);
    assert_eq!(grabber.grabbed_entity, None);
    assert_eq!(grabber.joint, None);
    assert_eq!(joints.slot_count(), 0, "no joint was ever formed");
}

#[test]
fn runaway_linear_speed_is_clamped_to_zero_in_the_same_tick() {
    let mut bodies = BodyArena::new();
    let mut joints = JointArena::new();
    let hand = bodies.spawn(still_body(0, 0, 0), false);
    let target = bodies.spawn(still_body(500_000, 0, 0), true);
    let mut grabber = Grabber::new(1_000_000_000);
    let hand_pos = Vec3 { x: 0, y: 0, z: 0 };

    grabber_target_checking_system(&mut grabber, &bodies, &vec![target]);
    grabbing_system(&mut grabber, hand, hand_pos, HOLD, &mut bodies, &mut joints, DT_60HZ);
    assert!(grabber.grabbed_entity.is_some(), "within a unit, locks at once");

    // Drive the held body to 50 units per second, far past the clamp.
    let mut b = bodies.body(&target).unwrap();
    b.linear_velocity = Vec3 { x: 50_000_000, y: 0, z: 0 };
    assert!(bodies.set_body(&target, b));
    grabbing_system(&mut grabber, hand, hand_pos, HOLD, &mut bodies, &mut joints, DT_60HZ);
    assert_eq!(
        bodies.body(&target).unwrap().linear_velocity,
        Vec3 { x: 0, y: 0, z: 0 },
    );

    // A modest speed below the threshold is left alone.
    let mut b = bodies.body(&target).unwrap();
    b.linear_velocity = Vec3 { x: 5_000_000, y: 0, z: 0 };
    assert!(bodies.set_body(&target, b));
    grabbing_system(&mut grabber, hand, hand_pos, HOLD, &mut bodies, &mut joints, DT_60HZ);
    assert_eq!(
        bodies.body(&target).unwrap().linear_velocity,
        Vec3 { x: 5_000_000, y: 0, z: 0 },
    );
}

#[test]
fn runaway_spin_is_clamped_to_zero_in_the_same_tick() {
    let mut bodies = BodyArena::new();
    let mut joints = JointArena::new();
    let hand = bodies.spawn(still_body(0, 0, 0), false);
    let target = bodies.spawn(still_body(500_000, 0, 0), true);
    let mut grabber = Grabber::new(1_000_000_000);
    let hand_pos = Vec3 { x: 0, y: 0, z: 0 };
    grabber_target_checking_system(&mut grabber, &bodies, &vec![target]);
    grabbing_system(&mut grabber, hand, hand_pos, HOLD, &mut bodies, &mut joints, DT_60HZ);

    let mut b = bodies.body(&target).unwrap();
    b.angular_velocity = Vec3 { x: 0, y: 2_000_000, z: 0 };
    assert!(bodies.set_body(&target, b));
    grabbing_system(&mut grabber, hand, hand_pos, HOLD, &mut bodies, &mut joints, DT_60HZ);
    assert_eq!(
        bodies.body(&target).unwrap().angular_velocity,
        Vec3 { x: 0, y: 0, z: 0 },
    );
}

#[test]
fn destroyed_held_body_aborts_to_idle_without_a_fault() {
    let mut bodies = BodyArena::new();
    let mut joints = JointArena::new();
    let hand = bodies.spawn(still_body(0, 0, 0), false);
    let target = bodies.spawn(still_body(500_000, 0, 0), true);
    let mut grabber = Grabber::new(1_000_000_000);
    let hand_pos = Vec3 { x: 0, y: 0, z: 0 };
    grabber_target_checking_system(&mut grabber, &bodies, &vec![target]);
    grabbing_system(&mut grabber, hand, hand_pos, HOLD, &mut bodies, &mut joints, DT_60HZ);
    let jr = grabber.joint.expect("locked");

    bodies.despawn(&target);
    grabbing_system(&mut grabber, hand, hand_pos, HOLD, &mut bodies, &mut joints, DT_60HZ);
    assert_eq!(grabber.grabbed_entity, None);
    assert_eq!(grabber.joint, None);
    assert!(!joints.valid(&jr), "the orphaned joint is torn down");
}

#[test]
fn destroyed_attraction_target_aborts_the_attraction() {
    let mut bodies = BodyArena::new();
    let mut joints = JointArena::new();
    let hand = bodies.spawn(still_body(0, 0, 0), false);
    let target = bodies.spawn(still_body(3_000_000, 0, 0), true);
    let mut grabber = Grabber::new(1_000_000_000);
    let hand_pos = Vec3 { x: 0, y: 0, z: 0 };
    grabber_target_checking_system(&mut grabber, &bodies, &vec![target]);
    grabbing_system(&mut grabber, hand, hand_pos, HOLD, &mut bodies, &mut joints, DT_60HZ);
    assert_eq!(grabber.attracted_target, Some(target));

    bodies.despawn(&target);
    grabbing_system(&mut grabber, hand, hand_pos, HOLD, &mut bodies, &mut joints, DT_60HZ);
    assert_eq!(grabber.attracted_target, None);
    assert_eq!(grabber.grabbed_entity, None);
    assert_eq!(joints.slot_count(), 0);
}

#[test]
fn attraction_sets_velocity_toward_grabber_and_pins_rotation() {
    let mut bodies = BodyArena::new();
    let mut joints = JointArena::new();
    let hand = bodies.spawn(still_body(0, 0, 0), false);
    let target = bodies.spawn(still_body(0, 0, 2_000_000), true);
    let mut grabber = Grabber::new(1_000_000_000);
    let hand_pos = Vec3 { x: 0, y: 0, z: 0 };
    // Give the target a spin and an off rotation first.
    let mut b = bodies.body(&target).unwrap();
    b.rotation = grabcore::quat::Quat { x: 0, y: FX_ONE, z: 0, w: 0 };
    assert!(bodies.set_body(&target, b));

    grabber_target_checking_system(&mut grabber, &bodies, &vec![target]);
    grabbing_system(&mut grabber, hand, hand_pos, HOLD, &mut bodies, &mut joints, DT_60HZ);

    let b = bodies.body(&target).unwrap();
    // Velocity is set, not accumulated: dt * speed along the unit
    // direction from body to grabber, which is -z here.
    assert_eq!(b.linear_velocity, Vec3 { x: 0, y: 0, z: -16_667_000 });
    // Attraction flight ignores rotational dynamics: rotation is
    // pinned to the identity.
    assert_eq!(b.rotation, quat_identity());
}
