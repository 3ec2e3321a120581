//! The grab interaction state machine.
//!
//! Per grabber and per tick: a spatial ray query (run by the caller)
//! proposes a potential target; holding the primary action commits to
//! it and attracts it; within unit distance the machine locks on by
//! spawning a fixed joint with a half-turn rotation offset; the
//! secondary action releases it again.  The machine never follows a
//! stale handle: a destroyed body aborts the interaction back to the
//! idle state on the same tick.
//!
//! The ray-hit list and the grabber's own pose arrive as parameters
//! each tick; the machine performs no implicit global lookups.

use crate::body::{
    arena_wf, body_wf, ref_valid, BodyArena, BodyRef, BodySlotView, BodyView, VEL_LIM, POS_LIM,
};
use crate::fx::{fx_mul, fx_mul_spec, fx_div, lemma_fxm_bound, FX_ONE};
use crate::joint::{joint_wf, FixedJointWithRotation, JointView};
use crate::quat::{q_identity, Quat, QuatView};
use crate::solver::{
    joint_arena_wf, joint_at, joint_ref_valid, JointArena, JointRef, JointSlotView,
};
use crate::vec3::{
    sqrt_floor, v3_bounded, v3_div, v3_norm_sq, v3_scale, v3_sub, v3_zero, v3_len, Vec3, Vec3View,
};
use vstd::prelude::*;

verus! {

/// Squared speed above which a held body's linear velocity is zeroed:
/// ten units per second.
pub const RUNAWAY_LIN_SQ: i64 = 100_000_000_000_000;

/// Squared speed above which a held body's angular velocity is
/// zeroed: one radian per second.
pub const RUNAWAY_ANG_SQ: i64 = 1_000_000_000_000;

/// Squared distance below which an attracted body locks on: one world
/// unit.
pub const LOCK_DIST_SQ: i64 = 1_000_000_000_000;

/// The per-tick input the state machine reacts to.
#[derive(Clone, Copy, PartialEq, Eq, Structural, Debug)]
pub struct GrabInput {
    /// The primary action is held: commit to and attract a target.
    pub primary_held: bool,
    /// The secondary action is held: release a held body.
    pub secondary_held: bool,
}

/// Per-entity grabber state.
#[derive(Clone, Copy, PartialEq, Eq, Structural, Debug)]
pub struct Grabber {
    /// Attraction velocity scale.
    pub grabbing_speed: i64,
    /// Closest grabbable ray hit of the last tick, never kept stale.
    pub potential_target: Option<BodyRef>,
    /// The target committed to while the primary action is held.
    pub attracted_target: Option<BodyRef>,
    /// The body a joint currently couples, once locked.
    pub grabbed_entity: Option<BodyRef>,
    /// The live joint instance, exactly while a body is grabbed.
    pub joint: Option<JointRef>,
}

/// Spec-level image of a grabber.
pub struct GrabberView {
    pub grabbing_speed: int,
    pub potential_target: Option<BodyRef>,
    pub attracted_target: Option<BodyRef>,
    pub grabbed_entity: Option<BodyRef>,
    pub joint: Option<JointRef>,
}

impl View for Grabber {
    type V = GrabberView;

    open spec fn view(&self) -> GrabberView {
        GrabberView {
            grabbing_speed: self.grabbing_speed as int,
            potential_target: self.potential_target,
            attracted_target: self.attracted_target,
            grabbed_entity: self.grabbed_entity,
            joint: self.joint,
        }
    }
}

/// Invariant of a grabber: a grabbed body and a live joint reference
/// exist exactly together, and the attraction speed is a bounded
/// nonnegative scale.
pub open spec fn grabber_wf(g: GrabberView) -> bool {
    &&& (g.grabbed_entity is Some) <==> (g.joint is Some)
    &&& 0 <= g.grabbing_speed <= VEL_LIM as int
}

impl Grabber {
    /// An idle grabber with the given attraction speed.
    pub fn new(grabbing_speed: i64) -> (r: Grabber)
        requires
            0 <= grabbing_speed <= VEL_LIM,
        ensures
            r@.grabbing_speed == grabbing_speed as int,
            r@.potential_target is None,
            r@.attracted_target is None,
            r@.grabbed_entity is None,
            r@.joint is None,
            grabber_wf(r@),
    {
        Grabber {
            grabbing_speed,
            potential_target: None,
            attracted_target: None,
            grabbed_entity: None,
            joint: None,
        }
    }
}

impl Default for Grabber {
    /// An idle grabber that attracts at no speed until configured.
    fn default() -> (r: Grabber)
        ensures
            r@.grabbing_speed == 0,
            r@.potential_target is None,
            r@.attracted_target is None,
            r@.grabbed_entity is None,
            r@.joint is None,
            grabber_wf(r@),
    {
        Grabber::new(0)
    }
}

/// The first hit, in the caller's order, that resolves to a live body
/// carrying the grabbable marker.
pub open spec fn first_grabbable(bodies: Seq<BodySlotView>, hits: Seq<BodyRef>) -> Option<BodyRef>
    decreases hits.len(),
{
    if hits.len() == 0 {
        None
    } else if ref_valid(bodies, hits[0]@) && bodies[hits[0]@.index].grabbable {
        Some(hits[0])
    } else {
        first_grabbable(bodies, hits.drop_first())
    }
}

/// Recompute a grabber's potential target from this tick's ordered
/// ray hits: the closest hit whose body is alive and grabbable, or
/// nothing.  The previous potential target is never retained.  A
/// grabber that already holds a body keeps its state untouched.
pub fn grabber_target_checking_system(
    grabber: &mut Grabber,
    bodies: &BodyArena,
    hits: &Vec<BodyRef>,
)
    ensures
        old(grabber)@.grabbed_entity is Some ==> final(grabber)@ == old(grabber)@,
        old(grabber)@.grabbed_entity is None ==> final(grabber)@ == (GrabberView {
            potential_target: first_grabbable(bodies@, hits@),
            ..old(grabber)@
        }),
        grabber_wf(old(grabber)@) ==> grabber_wf(final(grabber)@),
{
    if grabber.grabbed_entity.is_some() {
        return ;
    }
    grabber.potential_target = None;
    let n = hits.len();
    let mut i: usize = 0;
    proof {
        assert(hits@.skip(0) =~= hits@);
    }
    while i < n
        invariant
            n == hits@.len(),
            i <= n,
            old(grabber)@.grabbed_entity is None,
            grabber.potential_target is None,
            grabber@ == (GrabberView { potential_target: None, ..old(grabber)@ }),
            first_grabbable(bodies@, hits@) == first_grabbable(bodies@, hits@.skip(i as int)),
        decreases n - i,
    {
        let hit = hits[i];
        let valid = bodies.valid(&hit);
        let grabbable = bodies.is_grabbable(&hit);
        proof {
            assert(hits@.skip(i as int)[0] == hits@[i as int]);
            assert(hits@.skip(i as int).drop_first() =~= hits@.skip(i as int + 1));
        }
        if valid && grabbable {
            grabber.potential_target = Some(hit);
            return ;
        }
        i += 1;
    }
    proof {
        assert(hits@.skip(n as int).len() == 0);
    }
}

/// The joint the machine spawns on lock: grabber-side anchor at its
/// local origin and a half-turn rotation offset about the vertical
/// axis, so the held body faces outward from the hand.
pub open spec fn lock_joint_view(grabber_ref: BodyRef, target: BodyRef) -> JointView {
    JointView {
        entity1: grabber_ref@,
        entity2: target@,
        local_anchor1: v3_zero(),
        local_anchor2: v3_zero(),
        local_rotation1: QuatView { x: 0, y: FX_ONE as int, z: 0, w: 0 },
        local_rotation2: q_identity(),
        damping_linear: FX_ONE as int,
        damping_angular: FX_ONE as int,
        position_lagrange: 0,
        align_lagrange: 0,
        compliance: 0,
        force: v3_zero(),
        align_torque: v3_zero(),
    }
}

/// A joint reference retired, if it is present and still resolves.
pub open spec fn retire_joint(
    joints: Seq<JointSlotView>,
    o: Option<JointRef>,
) -> Seq<JointSlotView> {
    if o is Some && joint_ref_valid(joints, o.unwrap()@) {
        let at = o.unwrap()@.index;
        joints.update(
            at,
            JointSlotView { generation: joints[at].generation + 1, alive: false, ..joints[at] },
        )
    } else {
        joints
    }
}

/// One tick of the grab state machine for one grabber.
///
/// Holding a body: clamp its runaway velocities, release it on the
/// secondary action, and abort to idle if its handle went stale.
/// Otherwise: without the primary action drop any committed target;
/// with it, commit to the potential target, abort if the committed
/// handle no longer resolves to a grabbable body, lock on within unit
/// distance (zeroing its motion, suppressing sleep and spawning the
/// joint), and otherwise fly the body toward the grabber at the
/// attraction speed with its rotation pinned upright.
pub open spec fn grab_tick_spec(
    g: GrabberView,
    bodies: Seq<BodySlotView>,
    joints: Seq<JointSlotView>,
    grabber_ref: BodyRef,
    grabber_pos: Vec3View,
    primary: bool,
    secondary: bool,
    dt: int,
) -> (GrabberView, Seq<BodySlotView>, Seq<JointSlotView>) {
    if g.grabbed_entity is Some {
        let held = g.grabbed_entity.unwrap();
        if !ref_valid(bodies, held@) {
            (
                GrabberView { grabbed_entity: None, joint: None, ..g },
                bodies,
                retire_joint(joints, g.joint),
            )
        } else {
            let b = bodies[held@.index].body;
            let lin = if v3_norm_sq(b.linear_velocity) > RUNAWAY_LIN_SQ as int {
                v3_zero()
            } else {
                b.linear_velocity
            };
            let ang = if v3_norm_sq(b.angular_velocity) > RUNAWAY_ANG_SQ as int {
                v3_zero()
            } else {
                b.angular_velocity
            };
            if secondary {
                let nb = BodyView {
                    linear_velocity: lin,
                    angular_velocity: ang,
                    sleeping_disabled: false,
                    ..b
                };
                (
                    GrabberView { grabbed_entity: None, joint: None, ..g },
                    bodies.update(held@.index, BodySlotView { body: nb, ..bodies[held@.index] }),
                    retire_joint(joints, g.joint),
                )
            } else {
                let nb = BodyView { linear_velocity: lin, angular_velocity: ang, ..b };
                (
                    g,
                    bodies.update(held@.index, BodySlotView { body: nb, ..bodies[held@.index] }),
                    joints,
                )
            }
        }
    } else if !primary {
        (GrabberView { attracted_target: None, ..g }, bodies, joints)
    } else {
        let target_opt = if g.attracted_target is Some {
            g.attracted_target
        } else {
            g.potential_target
        };
        if target_opt is None {
            (g, bodies, joints)
        } else {
            let t = target_opt.unwrap();
            if !ref_valid(bodies, t@) || !bodies[t@.index].grabbable {
                (GrabberView { attracted_target: None, ..g }, bodies, joints)
            } else {
                let b = bodies[t@.index].body;
                let dir = v3_sub(grabber_pos, b.position);
                let dsq = v3_norm_sq(dir);
                if dsq < LOCK_DIST_SQ as int {
                    let nb = BodyView {
                        linear_velocity: v3_zero(),
                        angular_velocity: v3_zero(),
                        rotation: q_identity(),
                        sleeping_disabled: true,
                        ..b
                    };
                    (
                        GrabberView {
                            attracted_target: Some(t),
                            grabbed_entity: Some(t),
                            joint: Some(
                                JointRef { index: joints.len() as usize, generation: 0u64 },
                            ),
                            ..g
                        },
                        bodies.update(t@.index, BodySlotView { body: nb, ..bodies[t@.index] }),
                        joints.push(
                            JointSlotView {
                                generation: 0,
                                alive: true,
                                joint: lock_joint_view(grabber_ref, t),
                            },
                        ),
                    )
                } else {
                    let dlen = sqrt_floor(dsq);
                    let n = v3_div(dir, dlen);
                    let vel = v3_scale(n, fx_mul_spec(dt, g.grabbing_speed));
                    let nb = BodyView { linear_velocity: vel, rotation: q_identity(), ..b };
                    (
                        GrabberView { attracted_target: Some(t), ..g },
                        bodies.update(t@.index, BodySlotView { body: nb, ..bodies[t@.index] }),
                        joints,
                    )
                }
            }
        }
    }
}

/// Reaching the lock state: with the primary action held, a committed
/// (or freshly committed) target that resolves to a live grabbable
/// body within unit distance makes the machine lock on in this tick —
/// the body's motion is zeroed, its sleep suppression is set, and a
/// live joint coupling grabber and body exists and is referenced.
pub proof fn lemma_grab_locks_within_reach(
    g: GrabberView,
    bodies: Seq<BodySlotView>,
    joints: Seq<JointSlotView>,
    grabber_ref: BodyRef,
    grabber_pos: Vec3View,
    secondary: bool,
    dt: int,
    t: BodyRef,
)
    requires
        grabber_wf(g),
        g.grabbed_entity is None,
        g.attracted_target == Some(t) || (g.attracted_target is None && g.potential_target
            == Some(t)),
        ref_valid(bodies, t@),
        bodies[t@.index].grabbable,
        v3_norm_sq(v3_sub(grabber_pos, bodies[t@.index].body.position)) < LOCK_DIST_SQ as int,
        joints.len() < 0xffff_ffff,
    ensures
        ({
            let (g2, b2, j2) = grab_tick_spec(
                g,
                bodies,
                joints,
                grabber_ref,
                grabber_pos,
                true,
                secondary,
                dt,
            );
            &&& g2.grabbed_entity == Some(t)
            &&& g2.joint is Some
            &&& joint_ref_valid(j2, g2.joint.unwrap()@)
            &&& joint_at(j2, g2.joint.unwrap()@) == lock_joint_view(grabber_ref, t)
            &&& b2[t@.index].body.sleeping_disabled
            &&& b2[t@.index].body.linear_velocity == v3_zero()
            &&& b2[t@.index].body.angular_velocity == v3_zero()
            &&& grabber_wf(g2)
        }),
{
    let (g2, b2, j2) = grab_tick_spec(
        g,
        bodies,
        joints,
        grabber_ref,
        grabber_pos,
        true,
        secondary,
        dt,
    );
    let jr = JointRef { index: joints.len() as usize, generation: 0u64 };
    assert(j2 =~= joints.push(
        JointSlotView { generation: 0, alive: true, joint: lock_joint_view(grabber_ref, t) },
    ));
    assert(jr@.index == joints.len());
}

/// Releasing a held body: the secondary action, while a body is held
/// and still resolves, destroys the joint, clears the body's sleep
/// suppression and returns the machine's grab fields to the idle
/// state in the same tick.
pub proof fn lemma_release_destroys_joint(
    g: GrabberView,
    bodies: Seq<BodySlotView>,
    joints: Seq<JointSlotView>,
    grabber_ref: BodyRef,
    grabber_pos: Vec3View,
    primary: bool,
    dt: int,
    h: BodyRef,
)
    requires
        grabber_wf(g),
        g.grabbed_entity == Some(h),
        ref_valid(bodies, h@),
        joint_ref_valid(joints, g.joint.unwrap()@),
    ensures
        ({
            let (g2, b2, j2) = grab_tick_spec(
                g,
                bodies,
                joints,
                grabber_ref,
                grabber_pos,
                primary,
                true,
                dt,
            );
            &&& g2.grabbed_entity is None
            &&& g2.joint is None
            &&& !joint_ref_valid(j2, g.joint.unwrap()@)
            &&& !b2[h@.index].body.sleeping_disabled
            &&& grabber_wf(g2)
        }),
{
}

/// The abort path: releasing the primary action before the lock is
/// reached leaves every arena untouched — in particular no joint
/// exists — and returns the machine to the idle or targeting state
/// with no committed target.
pub proof fn lemma_abort_before_lock(
    g: GrabberView,
    bodies: Seq<BodySlotView>,
    joints: Seq<JointSlotView>,
    grabber_ref: BodyRef,
    grabber_pos: Vec3View,
    secondary: bool,
    dt: int,
)
    requires
        grabber_wf(g),
        g.grabbed_entity is None,
    ensures
        ({
            let (g2, b2, j2) = grab_tick_spec(
                g,
                bodies,
                joints,
                grabber_ref,
                grabber_pos,
                false,
                secondary,
                dt,
            );
            &&& g2.attracted_target is None
            &&& g2.grabbed_entity is None
            &&& g2.joint is None
            &&& b2 == bodies
            &&& j2 == joints
            &&& grabber_wf(g2)
        }),
{
}

/// The runaway clamp: a held body whose linear speed exceeds the
/// clamp threshold has its linear velocity zeroed within the same
/// tick's update, whether or not the release comes in that tick; the
/// angular channel clamps the same way.
pub proof fn lemma_runaway_clamp(
    g: GrabberView,
    bodies: Seq<BodySlotView>,
    joints: Seq<JointSlotView>,
    grabber_ref: BodyRef,
    grabber_pos: Vec3View,
    primary: bool,
    secondary: bool,
    dt: int,
    h: BodyRef,
)
    requires
        grabber_wf(g),
        g.grabbed_entity == Some(h),
        ref_valid(bodies, h@),
    ensures
        ({
            let (g2, b2, j2) = grab_tick_spec(
                g,
                bodies,
                joints,
                grabber_ref,
                grabber_pos,
                primary,
                secondary,
                dt,
            );
            &&& (v3_norm_sq(bodies[h@.index].body.linear_velocity) > RUNAWAY_LIN_SQ as int
                ==> b2[h@.index].body.linear_velocity == v3_zero())
            &&& (v3_norm_sq(bodies[h@.index].body.angular_velocity) > RUNAWAY_ANG_SQ as int
                ==> b2[h@.index].body.angular_velocity == v3_zero())
        }),
{
}

/// One tick of the grab state machine for one grabber, against the
/// body and joint arenas.  See [`grab_tick_spec`] for the transition
/// relation this realizes.
pub fn grabbing_system(
    grabber: &mut Grabber,
    grabber_ref: BodyRef,
    grabber_pos: Vec3,
    input: GrabInput,
    bodies: &mut BodyArena,
    joints: &mut JointArena,
    dt: i64,
)
    requires
        grabber_wf(old(grabber)@),
        arena_wf(old(bodies)@),
        joint_arena_wf(old(joints)@),
        v3_bounded(grabber_pos@, POS_LIM as int),
        0 <= dt <= FX_ONE,
        old(joints)@.len() < 0xffff_ffff,
    ensures
        (final(grabber)@, final(bodies)@, final(joints)@) == grab_tick_spec(
            old(grabber)@,
            old(bodies)@,
            old(joints)@,
            grabber_ref,
            grabber_pos@,
            input.primary_held,
            input.secondary_held,
            dt as int,
        ),
        grabber_wf(final(grabber)@),
        arena_wf(final(bodies)@),
        joint_arena_wf(final(joints)@),
{
    if let Some(held) = grabber.grabbed_entity {
        match bodies.body(&held) {
            None => {
                // The held body was destroyed: tear the joint down and
                // return to idle rather than following the stale handle.
                if let Some(jr) = grabber.joint {
                    joints.despawn(&jr);
                    proof {
                        assert(joints@ =~= retire_joint(old(joints)@, old(grabber)@.joint));
                    }
                }
                grabber.grabbed_entity = None;
                grabber.joint = None;
            },
            Some(b) => {
                proof {
                    assert(body_wf(old(bodies)@[held@.index].body));
                }
                let mut nb = b;
                let lin_sq = crate::vec3::v3_norm_sq_exec(&nb.linear_velocity);
                if lin_sq > RUNAWAY_LIN_SQ as u128 {
                    nb.linear_velocity = Vec3 { x: 0, y: 0, z: 0 };
                }
                let ang_sq = crate::vec3::v3_norm_sq_exec(&nb.angular_velocity);
                if ang_sq > RUNAWAY_ANG_SQ as u128 {
                    nb.angular_velocity = Vec3 { x: 0, y: 0, z: 0 };
                }
                if input.secondary_held {
                    nb.sleeping_disabled = false;
                    bodies.set_body(&held, nb);
                    if let Some(jr) = grabber.joint {
                        joints.despawn(&jr);
                        proof {
                            assert(joints@ =~= retire_joint(
                                old(joints)@,
                                old(grabber)@.joint,
                            ));
                        }
                    }
                    grabber.grabbed_entity = None;
                    grabber.joint = None;
                } else {
                    bodies.set_body(&held, nb);
                }
                proof {
                    let held_at = held@.index;
                    let sb = old(bodies)@[held_at].body;
                    let lin = if v3_norm_sq(sb.linear_velocity) > RUNAWAY_LIN_SQ as int {
                        v3_zero()
                    } else {
                        sb.linear_velocity
                    };
                    let ang = if v3_norm_sq(sb.angular_velocity) > RUNAWAY_ANG_SQ as int {
                        v3_zero()
                    } else {
                        sb.angular_velocity
                    };
                    assert(nb@.linear_velocity == lin);
                    assert(nb@.angular_velocity == ang);
                    assert(bodies@ =~= old(bodies)@.update(
                        held_at,
                        BodySlotView { body: nb@, ..old(bodies)@[held_at] },
                    ));
                }
            },
        }
        return ;
    }
    if !input.primary_held {
        grabber.attracted_target = None;
        return ;
    }
    let target_opt = if grabber.attracted_target.is_some() {
        grabber.attracted_target
    } else {
        grabber.potential_target
    };
    let target = match target_opt {
        None => {
            return ;
        },
        Some(t) => t,
    };
    let usable = bodies.is_grabbable(&target);
    if !usable {
        grabber.attracted_target = None;
        return ;
    }
    let b = bodies.body(&target).unwrap();
    proof {
        assert(body_wf(old(bodies)@[target@.index].body));
    }
    let dir = Vec3 {
        x: grabber_pos.x - b.position.x,
        y: grabber_pos.y - b.position.y,
        z: grabber_pos.z - b.position.z,
    };
    let dsq = crate::vec3::v3_norm_sq_exec(&dir);
    if dsq < LOCK_DIST_SQ as u128 {
        let mut nb = b;
        nb.linear_velocity = Vec3 { x: 0, y: 0, z: 0 };
        nb.angular_velocity = Vec3 { x: 0, y: 0, z: 0 };
        nb.rotation = crate::quat::quat_identity();
        nb.sleeping_disabled = true;
        bodies.set_body(&target, nb);
        let joint = FixedJointWithRotation::new(grabber_ref, target).with_local_anchor_1(
            Vec3 { x: 0, y: 0, z: 0 },
        ).with_rotation_1(Quat { x: 0, y: FX_ONE, z: 0, w: 0 });
        proof {
            assert(joint@ == lock_joint_view(grabber_ref, target));
            assert(joint_wf(joint@));
        }
        let jr = joints.spawn(joint);
        grabber.attracted_target = Some(target);
        grabber.grabbed_entity = Some(target);
        grabber.joint = Some(jr);
        proof {
            assert(jr == (JointRef { index: old(joints)@.len() as usize, generation: 0u64 }));
            assert(bodies@ =~= old(bodies)@.update(
                target@.index,
                BodySlotView { body: nb@, ..old(bodies)@[target@.index] },
            ));
            assert(joints@ =~= old(joints)@.push(
                JointSlotView {
                    generation: 0,
                    alive: true,
                    joint: lock_joint_view(grabber_ref, target),
                },
            ));
        }
    } else {
        let dlen = v3_len(&dir);
        proof {
            assert(dlen as int >= 1) by {
                if dlen == 0 {
                    assert(v3_norm_sq(dir@) < 1);
                }
            }
            crate::fx::lemma_fxd_unit(dir@.x, dlen as int);
            crate::fx::lemma_fxd_unit(dir@.y, dlen as int);
            crate::fx::lemma_fxd_unit(dir@.z, dlen as int);
            lemma_fxm_bound(dt as int, grabber@.grabbing_speed, FX_ONE as int, VEL_LIM as int);
        }
        let n = Vec3 { x: fx_div(dir.x, dlen), y: fx_div(dir.y, dlen), z: fx_div(dir.z, dlen) };
        let scale = fx_mul(dt, grabber.grabbing_speed);
        proof {
            lemma_fxm_bound(n@.x, scale as int, FX_ONE as int, VEL_LIM as int);
            lemma_fxm_bound(n@.y, scale as int, FX_ONE as int, VEL_LIM as int);
            lemma_fxm_bound(n@.z, scale as int, FX_ONE as int, VEL_LIM as int);
        }
        let mut nb = b;
        nb.linear_velocity = Vec3 {
            x: fx_mul(n.x, scale),
            y: fx_mul(n.y, scale),
            z: fx_mul(n.z, scale),
        };
        nb.rotation = crate::quat::quat_identity();
        bodies.set_body(&target, nb);
        grabber.attracted_target = Some(target);
        proof {
            assert(bodies@ =~= old(bodies)@.update(
                target@.index,
                BodySlotView { body: nb@, ..old(bodies)@[target@.index] },
            ));
        }
    }
}

} // verus!
