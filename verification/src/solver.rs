//! The substep constraint dispatcher and the joint arena.
//!
//! Joints live in a generation-checked arena like bodies do.  Each
//! physics substep runs in two phases over the whole arena: first
//! every live joint's per-substep accumulators are cleared, then every
//! live joint is solved once, sequentially, in slot order.  All resets
//! complete before any solve runs, so no constraint can observe a
//! stale in-progress multiplier of another; the sequential order is
//! the usual Gauss-Seidel discipline that keeps writes to shared
//! bodies race-free.  A joint whose body references no longer resolve
//! is never solved: it is retired from the arena on the spot.

use crate::body::{arena_wf, ref_valid, BodyArena, BodySlotView};
use crate::joint::{joint_wf, solve_spec, FixedJointWithRotation, JointView};
use vstd::prelude::*;

verus! {

/// Handle to a joint slot: index plus the generation it was issued
/// for.
#[derive(Clone, Copy, PartialEq, Eq, Structural, Debug)]
pub struct JointRef {
    pub index: usize,
    pub generation: u64,
}

/// Spec-level image of a joint handle.
pub struct JointRefView {
    pub index: int,
    pub generation: int,
}

impl View for JointRef {
    type V = JointRefView;

    open spec fn view(&self) -> JointRefView {
        JointRefView { index: self.index as int, generation: self.generation as int }
    }
}

/// One slot of the joint arena.
#[derive(Clone, Copy, PartialEq, Eq, Structural, Debug)]
pub struct JointSlot {
    pub generation: u64,
    pub alive: bool,
    pub joint: FixedJointWithRotation,
}

/// Spec-level image of a joint slot.
pub struct JointSlotView {
    pub generation: int,
    pub alive: bool,
    pub joint: JointView,
}

impl View for JointSlot {
    type V = JointSlotView;

    open spec fn view(&self) -> JointSlotView {
        JointSlotView { generation: self.generation as int, alive: self.alive, joint: self.joint@ }
    }
}

/// A joint handle resolves while its slot is alive at the same
/// generation.
pub open spec fn joint_ref_valid(slots: Seq<JointSlotView>, r: JointRefView) -> bool {
    &&& 0 <= r.index < slots.len()
    &&& slots[r.index].alive
    &&& slots[r.index].generation == r.generation
}

/// The joint a valid handle resolves to.
pub open spec fn joint_at(slots: Seq<JointSlotView>, r: JointRefView) -> JointView {
    slots[r.index].joint
}

/// Invariant of the joint arena: every stored joint obeys the
/// configuration range discipline, and live generations leave
/// headroom for one more bump.
pub open spec fn joint_arena_wf(slots: Seq<JointSlotView>) -> bool {
    forall|i: int|
        0 <= i < slots.len() ==> joint_wf(#[trigger] slots[i].joint) && (slots[i].alive
            ==> slots[i].generation < 0xffff_ffff_ffff_ffff)
}

/// Arena of joint slots.  Slots are never reused: despawning bumps
/// the generation, so handles issued earlier can only fail cleanly.
pub struct JointArena {
    pub slots: Vec<JointSlot>,
}

impl View for JointArena {
    type V = Seq<JointSlotView>;

    open spec fn view(&self) -> Seq<JointSlotView> {
        self.slots@.map_values(|s: JointSlot| s@)
    }
}

impl JointArena {
    /// An empty arena.
    pub fn new() -> (r: JointArena)
        ensures
            r@ =~= Seq::<JointSlotView>::empty(),
            joint_arena_wf(r@),
    {
        JointArena { slots: Vec::new() }
    }

    /// Number of slots ever spawned.
    pub fn slot_count(&self) -> (r: usize)
        ensures
            r == self@.len(),
    {
        self.slots.len()
    }

    /// Add a joint and hand back the only handle that resolves to it.
    pub fn spawn(&mut self, joint: FixedJointWithRotation) -> (r: JointRef)
        requires
            joint_wf(joint@),
            joint_arena_wf(old(self)@),
            old(self)@.len() < 0xffff_ffff,
        ensures
            final(self)@ =~= old(self)@.push(
                JointSlotView { generation: 0, alive: true, joint: joint@ },
            ),
            joint_arena_wf(final(self)@),
            r@.index == old(self)@.len(),
            r@.generation == 0,
            joint_ref_valid(final(self)@, r@),
            joint_at(final(self)@, r@) == joint@,
    {
        let index = self.slots.len();
        self.slots.push(JointSlot { generation: 0u64, alive: true, joint });
        proof {
            assert(self@ =~= old(self)@.push(
                JointSlotView { generation: 0, alive: true, joint: joint@ },
            ));
            assert forall|i: int| 0 <= i < self@.len() implies joint_wf(
                #[trigger] self@[i].joint,
            ) && (self@[i].alive ==> self@[i].generation < 0xffff_ffff_ffff_ffff) by {
                if i < old(self)@.len() {
                    assert(self@[i] == old(self)@[i]);
                }
            }
        }
        JointRef { index, generation: 0u64 }
    }

    /// Whether a handle still resolves.
    pub fn valid(&self, r: &JointRef) -> (b: bool)
        ensures
            b == joint_ref_valid(self@, r@),
    {
        if r.index < self.slots.len() {
            let slot = &self.slots[r.index];
            slot.alive && slot.generation == r.generation
        } else {
            false
        }
    }

    /// Read the joint a handle resolves to; a stale handle reads
    /// nothing.
    pub fn joint(&self, r: &JointRef) -> (b: Option<FixedJointWithRotation>)
        ensures
            joint_ref_valid(self@, r@) ==> b is Some && b.unwrap()@ == joint_at(self@, r@),
            !joint_ref_valid(self@, r@) ==> b is None,
    {
        if r.index < self.slots.len() {
            let slot = &self.slots[r.index];
            if slot.alive && slot.generation == r.generation {
                Some(slot.joint)
            } else {
                None
            }
        } else {
            None
        }
    }

    /// Retire the joint behind a valid handle; the slot's generation
    /// moves on, so every outstanding handle to it goes stale.
    pub fn despawn(&mut self, r: &JointRef) -> (ok: bool)
        requires
            joint_arena_wf(old(self)@),
        ensures
            ok == joint_ref_valid(old(self)@, r@),
            ok ==> final(self)@ =~= old(self)@.update(
                r@.index,
                JointSlotView {
                    generation: old(self)@[r@.index].generation + 1,
                    alive: false,
                    joint: old(self)@[r@.index].joint,
                },
            ),
            !ok ==> final(self)@ =~= old(self)@,
            joint_arena_wf(final(self)@),
            !joint_ref_valid(final(self)@, r@),
    {
        if r.index < self.slots.len() {
            let slot = self.slots[r.index];
            if slot.alive && slot.generation == r.generation {
                proof {
                    let at = r@.index as int;
                    assert(self@[at] == self.slots@[at]@);
                    assert(joint_wf(self@[at].joint));
                }
                let updated = JointSlot {
                    generation: slot.generation + 1,
                    alive: false,
                    joint: slot.joint,
                };
                self.slots[r.index] = updated;
                proof {
                    assert forall|i: int| 0 <= i < self@.len() implies joint_wf(
                        #[trigger] self@[i].joint,
                    ) && (self@[i].alive ==> self@[i].generation < 0xffff_ffff_ffff_ffff) by {
                        if i != r@.index {
                            assert(self@[i] == old(self)@[i]);
                        }
                    }
                }
                return true;
            }
            return false;
        }
        false
    }
}

/// One live slot with its accumulators cleared; any other slot is left
/// as it is.
pub open spec fn clear_slot(s: JointSlotView) -> JointSlotView {
    if s.alive {
        JointSlotView {
            joint: JointView { position_lagrange: 0, align_lagrange: 0, ..s.joint },
            ..s
        }
    } else {
        s
    }
}

/// Phase one of a substep: every live joint's accumulators cleared.
pub open spec fn reset_all(joints: Seq<JointSlotView>) -> Seq<JointSlotView> {
    joints.map_values(|s: JointSlotView| clear_slot(s))
}

/// Phase two, one joint: a live joint whose two handles resolve to
/// two distinct bodies is solved against them; a live joint with a
/// stale or self-referential pair is retired instead of solved.
pub open spec fn solve_slot(
    bodies: Seq<BodySlotView>,
    joints: Seq<JointSlotView>,
    dt: int,
    i: int,
) -> (Seq<BodySlotView>, Seq<JointSlotView>) {
    let s = joints[i];
    if !s.alive {
        (bodies, joints)
    } else {
        let e1 = s.joint.entity1;
        let e2 = s.joint.entity2;
        if !ref_valid(bodies, e1) || !ref_valid(bodies, e2) || e1.index == e2.index {
            (
                bodies,
                joints.update(
                    i,
                    JointSlotView { generation: s.generation + 1, alive: false, joint: s.joint },
                ),
            )
        } else {
            let (j2, b1, b2) = solve_spec(s.joint, bodies[e1.index].body, bodies[e2.index].body, dt);
            (
                bodies.update(e1.index, BodySlotView { body: b1, ..bodies[e1.index] }).update(
                    e2.index,
                    BodySlotView { body: b2, ..bodies[e2.index] },
                ),
                joints.update(i, JointSlotView { joint: j2, ..s }),
            )
        }
    }
}

/// Phase two up to slot `k`: the live joints of the first `k` slots
/// solved sequentially, in slot order.
pub open spec fn solve_upto(
    bodies: Seq<BodySlotView>,
    joints: Seq<JointSlotView>,
    dt: int,
    k: nat,
) -> (Seq<BodySlotView>, Seq<JointSlotView>)
    decreases k,
{
    if k == 0 {
        (bodies, joints)
    } else {
        let (b, j) = solve_upto(bodies, joints, dt, (k - 1) as nat);
        solve_slot(b, j, dt, k - 1)
    }
}

/// A whole substep: clear every accumulator, then solve every live
/// joint once.
pub open spec fn substep_spec(
    bodies: Seq<BodySlotView>,
    joints: Seq<JointSlotView>,
    dt: int,
) -> (Seq<BodySlotView>, Seq<JointSlotView>) {
    solve_upto(bodies, reset_all(joints), dt, joints.len())
}

/// Run one physics substep over every live joint: clear every
/// accumulator first, then solve each live joint once, in slot order,
/// against the bodies its handles resolve to.  A joint whose handles
/// no longer resolve, or that couples a body to itself, is retired.
pub fn substep(bodies: &mut BodyArena, joints: &mut JointArena, dt: i64)
    requires
        arena_wf(old(bodies)@),
        joint_arena_wf(old(joints)@),
    ensures
        (final(bodies)@, final(joints)@) == substep_spec(old(bodies)@, old(joints)@, dt as int),
        arena_wf(final(bodies)@),
        joint_arena_wf(final(joints)@),
        final(bodies)@.len() == old(bodies)@.len(),
        final(joints)@.len() == old(joints)@.len(),
{
    let n = joints.slots.len();
    let mut i: usize = 0;
    while i < n
        invariant
            n == joints.slots.len(),
            n == old(joints)@.len(),
            i <= n,
            forall|k: int| 0 <= k < i ==> joints@[k] == clear_slot(old(joints)@[k]),
            forall|k: int| i <= k < n ==> joints@[k] == old(joints)@[k],
            joint_arena_wf(joints@),
            bodies@ == old(bodies)@,
            *bodies == *old(bodies),
        decreases n - i,
    {
        let slot = joints.slots[i];
        if slot.alive {
            let mut j = slot.joint;
            j.clear_lagrange_multipliers();
            proof {
                assert(joints@[i as int] == old(joints)@[i as int]);
                assert(joint_wf(joints@[i as int].joint));
            }
            let updated = JointSlot { generation: slot.generation, alive: true, joint: j };
            set_slot(joints, i, updated);
        }
        i += 1;
    }
    proof {
        assert(joints@ =~= reset_all(old(joints)@));
    }
    let ghost b0 = bodies@;
    let ghost j0 = joints@;
    let mut i: usize = 0;
    while i < n
        invariant
            n == joints.slots.len(),
            n == j0.len(),
            i <= n,
            b0 == old(bodies)@,
            j0 == reset_all(old(joints)@),
            n == old(joints)@.len(),
            (bodies@, joints@) == solve_upto(b0, j0, dt as int, i as nat),
            forall|k: int| i <= k < n ==> joints@[k] == j0[k],
            arena_wf(bodies@),
            joint_arena_wf(joints@),
            bodies@.len() == b0.len(),
        decreases n - i,
    {
        let ghost bodies_pre = bodies@;
        let ghost joints_pre = joints@;
        let slot = joints.slots[i];
        proof {
            assert(joints@[i as int] == j0[i as int]);
            assert(j0[i as int] == clear_slot(old(joints)@[i as int]));
            assert(joint_wf(joints@[i as int].joint));
        }
        if slot.alive {
            let e1 = slot.joint.entity1;
            let e2 = slot.joint.entity2;
            let v1 = bodies.valid(&e1);
            let v2 = bodies.valid(&e2);
            if !v1 || !v2 || e1.index == e2.index {
                let updated = JointSlot {
                    generation: slot.generation + 1,
                    alive: false,
                    joint: slot.joint,
                };
                set_slot(joints, i, updated);
            } else {
                proof {
                    assert(crate::body::body_wf(bodies@[e1@.index].body));
                    assert(crate::body::body_wf(bodies@[e2@.index].body));
                }
                let mut b1 = bodies.body(&e1).unwrap();
                let mut b2 = bodies.body(&e2).unwrap();
                let mut j = slot.joint;
                j.solve(&mut b1, &mut b2, dt);
                let ghost mid = bodies@;
                let ok1 = bodies.set_body(&e1, b1);
                proof {
                    assert(ok1);
                    assert(ref_valid(bodies@, e2@));
                }
                let ok2 = bodies.set_body(&e2, b2);
                proof {
                    assert(ok2);
                }
                let updated = JointSlot { generation: slot.generation, alive: true, joint: j };
                set_slot(joints, i, updated);
                proof {
                    let (sb, sj) = solve_slot(bodies_pre, joints_pre, dt as int, i as int);
                    assert(bodies@ =~= sb);
                    assert(joints@ =~= sj);
                }
            }
        }
        i += 1;
        proof {
            assert((bodies@, joints@) == solve_upto(b0, j0, dt as int, i as nat)) by {
                assert(solve_upto(b0, j0, dt as int, i as nat) == solve_slot(
                    bodies_pre,
                    joints_pre,
                    dt as int,
                    i - 1,
                ));
                if !joints_pre[i - 1].alive {
                    assert(bodies@ =~= bodies_pre);
                    assert(joints@ =~= joints_pre);
                }
            }
            assert forall|k: int| i <= k < n implies joints@[k] == j0[k] by {
                assert(joints_pre[k] == j0[k]);
            }
        }
    }
}

/// Overwrite one joint slot, keeping the arena invariant when the new
/// slot is well formed.
fn set_slot(joints: &mut JointArena, i: usize, slot: JointSlot)
    requires
        i < old(joints)@.len(),
        joint_arena_wf(old(joints)@),
        joint_wf(slot@.joint),
        slot@.alive ==> slot@.generation < 0xffff_ffff_ffff_ffff,
    ensures
        final(joints)@ =~= old(joints)@.update(i as int, slot@),
        joint_arena_wf(final(joints)@),
        final(joints)@.len() == old(joints)@.len(),
{
    joints.slots[i] = slot;
    proof {
        assert forall|k: int| 0 <= k < joints@.len() implies joint_wf(
            #[trigger] joints@[k].joint,
        ) && (joints@[k].alive ==> joints@[k].generation < 0xffff_ffff_ffff_ffff) by {
            if k != i {
                assert(joints@[k] == old(joints)@[k]);
            }
        }
    }
}

} // verus!
