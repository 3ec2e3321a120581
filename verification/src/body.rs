//! Rigid-body state and the generation-checked body arena.
//!
//! The core never owns simulated bodies; it refers to them through
//! handles.  A handle carries the index of its slot and the generation
//! the slot had when the handle was made: once the body is despawned
//! the slot's generation moves on and every stale handle fails its
//! validity check instead of touching freed state.

use crate::fx::iabs;
use crate::quat::{q4_bounded, Quat, QuatView};
use crate::vec3::{v3_bounded, Vec3, Vec3View};
use crate::fx::FX_ONE;
use vstd::prelude::*;

verus! {

/// Componentwise cap on stored positions.
pub const POS_LIM: i64 = 1_000_000_000_000;

/// Componentwise cap on stored velocities.
pub const VEL_LIM: i64 = 1_000_000_000_000;

/// Cap on inverse mass and inverse inertia.
pub const INV_MASS_LIM: i64 = 1_000_000_000;

/// Marks a body as eligible to be targeted by a grabber; its presence
/// alone is the contract.
#[derive(Clone, Copy, PartialEq, Eq, Structural, Debug)]
pub struct Grabbable;

/// Kinematic state of one rigid body, as the constraint core reads and
/// writes it.  The surrounding engine owns integration; the core only
/// corrects positions, rotations and velocities.
#[derive(Clone, Copy, PartialEq, Eq, Structural, Debug)]
pub struct Body {
    pub position: Vec3,
    pub rotation: Quat,
    pub linear_velocity: Vec3,
    pub angular_velocity: Vec3,
    /// Inverse mass; zero means infinite mass, which no correction moves.
    pub inverse_mass: i64,
    /// Isotropic inverse rotational inertia; zero pins the orientation.
    pub inverse_inertia: i64,
    /// While set, the engine must not let the body fall asleep.
    pub sleeping_disabled: bool,
}

/// Spec-level image of a body.
pub struct BodyView {
    pub position: Vec3View,
    pub rotation: QuatView,
    pub linear_velocity: Vec3View,
    pub angular_velocity: Vec3View,
    pub inverse_mass: int,
    pub inverse_inertia: int,
    pub sleeping_disabled: bool,
}

impl View for Body {
    type V = BodyView;

    open spec fn view(&self) -> BodyView {
        BodyView {
            position: self.position@,
            rotation: self.rotation@,
            linear_velocity: self.linear_velocity@,
            angular_velocity: self.angular_velocity@,
            inverse_mass: self.inverse_mass as int,
            inverse_inertia: self.inverse_inertia as int,
            sleeping_disabled: self.sleeping_disabled,
        }
    }
}

/// Range discipline for a stored body: positions and velocities within
/// the arena's caps, a unit-scaled rotation, nonnegative bounded
/// inverse mass and inertia.
pub open spec fn body_wf(b: BodyView) -> bool {
    &&& v3_bounded(b.position, POS_LIM as int)
    &&& q4_bounded(b.rotation, FX_ONE as int)
    &&& v3_bounded(b.linear_velocity, VEL_LIM as int)
    &&& v3_bounded(b.angular_velocity, VEL_LIM as int)
    &&& 0 <= b.inverse_mass <= INV_MASS_LIM as int
    &&& 0 <= b.inverse_inertia <= INV_MASS_LIM as int
}

/// Handle to a body slot: index plus the generation it was issued for.
#[derive(Clone, Copy, PartialEq, Eq, Structural, Debug)]
pub struct BodyRef {
    pub index: usize,
    pub generation: u64,
}

/// Spec-level image of a handle.
pub struct BodyRefView {
    pub index: int,
    pub generation: int,
}

impl View for BodyRef {
    type V = BodyRefView;

    open spec fn view(&self) -> BodyRefView {
        BodyRefView { index: self.index as int, generation: self.generation as int }
    }
}

/// One slot of the arena.
#[derive(Clone, Copy, PartialEq, Eq, Structural, Debug)]
pub struct BodySlot {
    pub generation: u64,
    pub alive: bool,
    pub body: Body,
    pub grabbable: Option<Grabbable>,
}

/// Spec-level image of a slot.
pub struct BodySlotView {
    pub generation: int,
    pub alive: bool,
    pub body: BodyView,
    pub grabbable: bool,
}

impl View for BodySlot {
    type V = BodySlotView;

    open spec fn view(&self) -> BodySlotView {
        BodySlotView {
            generation: self.generation as int,
            alive: self.alive,
            body: self.body@,
            grabbable: self.grabbable is Some,
        }
    }
}

/// A handle resolves while its slot is alive at the same generation.
pub open spec fn ref_valid(slots: Seq<BodySlotView>, r: BodyRefView) -> bool {
    &&& 0 <= r.index < slots.len()
    &&& slots[r.index].alive
    &&& slots[r.index].generation == r.generation
}

/// The body a valid handle resolves to.
pub open spec fn body_at(slots: Seq<BodySlotView>, r: BodyRefView) -> BodyView {
    slots[r.index].body
}

/// Arena of body slots.  Slots are never reused: despawning bumps the
/// generation, so handles issued earlier can only fail cleanly.
pub struct BodyArena {
    pub slots: Vec<BodySlot>,
}

impl View for BodyArena {
    type V = Seq<BodySlotView>;

    open spec fn view(&self) -> Seq<BodySlotView> {
        self.slots@.map_values(|s: BodySlot| s@)
    }
}

/// Invariant of the arena: every stored body obeys the range
/// discipline, and live generations leave headroom for one more bump.
pub open spec fn arena_wf(slots: Seq<BodySlotView>) -> bool {
    forall|i: int|
        0 <= i < slots.len() ==> body_wf(#[trigger] slots[i].body) && (slots[i].alive
            ==> slots[i].generation < 0xffff_ffff_ffff_ffff)
}

impl BodyArena {
    /// An empty arena.
    pub fn new() -> (r: BodyArena)
        ensures
            r@ =~= Seq::<BodySlotView>::empty(),
            arena_wf(r@),
    {
        BodyArena { slots: Vec::new() }
    }

    /// Number of slots ever spawned.
    pub fn slot_count(&self) -> (r: usize)
        ensures
            r == self@.len(),
    {
        self.slots.len()
    }

    /// Add a body, optionally carrying the grabbable marker, and hand
    /// back the only handle that resolves to it.
    pub fn spawn(&mut self, body: Body, grabbable: bool) -> (r: BodyRef)
        requires
            body_wf(body@),
            arena_wf(old(self)@),
            old(self)@.len() < 0xffff_ffff,
        ensures
            final(self)@ =~= old(self)@.push(
                BodySlotView { generation: 0, alive: true, body: body@, grabbable: grabbable },
            ),
            arena_wf(final(self)@),
            r@.index == old(self)@.len(),
            r@.generation == 0,
            ref_valid(final(self)@, r@),
            body_at(final(self)@, r@) == body@,
    {
        let index = self.slots.len();
        let slot = BodySlot {
            generation: 0u64,
            alive: true,
            body,
            grabbable: if grabbable {
                Some(Grabbable)
            } else {
                None
            },
        };
        self.slots.push(slot);
        proof {
            let new_view = old(self)@.push(
                BodySlotView { generation: 0, alive: true, body: body@, grabbable: grabbable },
            );
            assert(self@ =~= new_view);
            assert forall|i: int| 0 <= i < self@.len() implies body_wf(
                #[trigger] self@[i].body,
            ) && (self@[i].alive ==> self@[i].generation < 0xffff_ffff_ffff_ffff) by {
                if i < old(self)@.len() {
                    assert(self@[i] == old(self)@[i]);
                }
            }
        }
        BodyRef { index, generation: 0u64 }
    }

    /// Whether a handle still resolves.
    pub fn valid(&self, r: &BodyRef) -> (b: bool)
        ensures
            b == ref_valid(self@, r@),
    {
        if r.index < self.slots.len() {
            let slot = &self.slots[r.index];
            slot.alive && slot.generation == r.generation
        } else {
            false
        }
    }

    /// Read the body a handle resolves to; a stale handle reads nothing.
    pub fn body(&self, r: &BodyRef) -> (b: Option<Body>)
        ensures
            ref_valid(self@, r@) ==> b == Some(self.slots@[r@.index].body) && b.unwrap()@
                == body_at(self@, r@),
            !ref_valid(self@, r@) ==> b is None,
    {
        if r.index < self.slots.len() {
            let slot = &self.slots[r.index];
            if slot.alive && slot.generation == r.generation {
                Some(slot.body)
            } else {
                None
            }
        } else {
            None
        }
    }

    /// Whether a handle resolves to a body carrying the grabbable marker.
    pub fn is_grabbable(&self, r: &BodyRef) -> (b: bool)
        ensures
            b == (ref_valid(self@, r@) && self@[r@.index].grabbable),
    {
        if r.index < self.slots.len() {
            let slot = &self.slots[r.index];
            slot.alive && slot.generation == r.generation && slot.grabbable.is_some()
        } else {
            false
        }
    }

    /// Overwrite the body behind a valid handle; a stale handle writes
    /// nothing and reports failure.
    pub fn set_body(&mut self, r: &BodyRef, body: Body) -> (ok: bool)
        requires
            body_wf(body@),
            arena_wf(old(self)@),
        ensures
            ok == ref_valid(old(self)@, r@),
            ok ==> final(self)@ =~= old(self)@.update(
                r@.index,
                BodySlotView {
                    generation: old(self)@[r@.index].generation,
                    alive: true,
                    body: body@,
                    grabbable: old(self)@[r@.index].grabbable,
                },
            ),
            !ok ==> final(self)@ =~= old(self)@,
            arena_wf(final(self)@),
            final(self)@.len() == old(self)@.len(),
    {
        if r.index < self.slots.len() {
            let slot = self.slots[r.index];
            if slot.alive && slot.generation == r.generation {
                let updated = BodySlot {
                    generation: slot.generation,
                    alive: true,
                    body,
                    grabbable: slot.grabbable,
                };
                proof {
                    let at = r@.index as int;
                    assert(self@[at] == self.slots@[at]@);
                    assert(body_wf(self@[at].body));
                    assert(self@[at].alive ==> self@[at].generation < 0xffff_ffff_ffff_ffff);
                }
                self.slots[r.index] = updated;
                proof {
                    lemma_update_keeps_wf(old(self)@, self@, r@.index as int);
                }
                return true;
            }
            return false;
        }
        false
    }

    /// Retire the body behind a valid handle; the slot's generation
    /// moves on, so every outstanding handle to it goes stale.
    pub fn despawn(&mut self, r: &BodyRef) -> (ok: bool)
        requires
            arena_wf(old(self)@),
        ensures
            ok == ref_valid(old(self)@, r@),
            ok ==> final(self)@ =~= old(self)@.update(
                r@.index,
                BodySlotView {
                    generation: old(self)@[r@.index].generation + 1,
                    alive: false,
                    body: old(self)@[r@.index].body,
                    grabbable: old(self)@[r@.index].grabbable,
                },
            ),
            !ok ==> final(self)@ =~= old(self)@,
            arena_wf(final(self)@),
            !ref_valid(final(self)@, r@),
    {
        if r.index < self.slots.len() {
            let slot = self.slots[r.index];
            if slot.alive && slot.generation == r.generation {
                let updated = BodySlot {
                    generation: slot.generation + 1,
                    alive: false,
                    body: slot.body,
                    grabbable: slot.grabbable,
                };
                self.slots[r.index] = updated;
                proof {
                    let at = r@.index as int;
                    assert(body_wf(old(self)@[at].body) && (old(self)@[at].alive ==> old(
                        self,
                    )@[at].generation < 0xffff_ffff_ffff_ffff));
                    lemma_update_keeps_wf(old(self)@, self@, at);
                }
                return true;
            }
            return false;
        }
        false
    }
}

/// An update that keeps its own slot well formed keeps the arena well
/// formed.
proof fn lemma_update_keeps_wf(pre: Seq<BodySlotView>, post: Seq<BodySlotView>, at: int)
    requires
        arena_wf(pre),
        post.len() == pre.len(),
        0 <= at < pre.len(),
        forall|i: int| 0 <= i < pre.len() && i != at ==> post[i] == pre[i],
        body_wf(post[at].body),
        post[at].alive ==> post[at].generation < 0xffff_ffff_ffff_ffff,
    ensures
        arena_wf(post),
{
    assert forall|i: int| 0 <= i < post.len() implies body_wf(#[trigger] post[i].body) && (post[i]
        .alive ==> post[i].generation < 0xffff_ffff_ffff_ffff) by {
        if i != at {
            assert(post[i] == pre[i]);
        }
    }
}

} // verus!
