//! The world: tick history, stepping, rewinding, registration and queries.
//!
//! The world owns one [`PhysicsState`] per retained tick, in tick order, and
//! the last one is the current tick. Stepping appends the next tick's
//! snapshot; `load_state` discards every tick after the chosen one, so the
//! next step resimulates forward from exactly the stored snapshot. Because
//! every mutation of a snapshot is a function of the snapshot and the call's
//! arguments (see `state`), replaying the same calls from a restored tick
//! reproduces the same snapshots — the laws in `laws` prove that.

use vstd::prelude::*;

use crate::engine::{
    eng_ball_shape, eng_bodies, eng_capsule_shape, eng_colliders, eng_cuboid_shape,
    eng_cylinder_shape, eng_gravity, eng_trimesh_shape, eng_with_force, eng_with_impulse,
    eng_with_torque, eng_with_torque_impulse, mass_of, no_bodies, no_colliders, sweep_of,
    v3_zero, ball_shape, capsule_shape, cuboid_shape, cylinder_shape, trimesh_shape, BodyModel,
};
use crate::geom::{mesh_usable, BodyKind, EffectiveMovement, Iso, Material, RaycastResult, ShapeDesc, V3};
use crate::handles::{BodyHandle, ColliderHandle};
use crate::state::{
    apply_add_body, apply_attach, apply_detach, apply_remove_body, apply_step, ids_distinct,
    ids_sound, raycast_model, resolve_hits, ColliderEntry, PhysicsState, PoseSync, StateModel,
};
use rapier3d::geometry::SharedShape;
use vstd::pervasive::unreached;

verus! {

/// Why attaching a collider was refused.
#[derive(Clone, Copy, PartialEq, Eq, Structural, Debug)]
pub enum AttachError {
    /// The shape source has no usable geometry (a mesh with zero triangles).
    DegenerateShape,
    /// The parent handle names no registered body.
    ParentNotFound,
}

/// The shape value a descriptor builds.
pub open spec fn shape_value(desc: ShapeDesc) -> SharedShape {
    match desc {
        ShapeDesc::Ball { radius } => ball_shape(radius),
        ShapeDesc::Capsule { half_height, radius } => capsule_shape(half_height, radius),
        ShapeDesc::Cuboid { hx, hy, hz } => cuboid_shape(hx, hy, hz),
        ShapeDesc::Cylinder { half_height, radius } => cylinder_shape(half_height, radius),
        ShapeDesc::Mesh { vertices, triangles } => trimesh_shape(vertices@, triangles@),
    }
}

/// Build the engine shape for a descriptor; a degenerate descriptor yields
/// nothing.
pub fn build_shape(desc: &ShapeDesc) -> (r: Option<SharedShape>)
    ensures
        r is Some <==> !desc.is_degenerate(),
        (r matches Some(s) ==> s == shape_value(*desc)),
{
    match desc {
        ShapeDesc::Ball { radius } => Some(eng_ball_shape(*radius)),
        ShapeDesc::Capsule { half_height, radius } => Some(
            eng_capsule_shape(*half_height, *radius),
        ),
        ShapeDesc::Cuboid { hx, hy, hz } => Some(eng_cuboid_shape(*hx, *hy, *hz)),
        ShapeDesc::Cylinder { half_height, radius } => Some(
            eng_cylinder_shape(*half_height, *radius),
        ),
        ShapeDesc::Mesh { vertices, triangles } => {
            if mesh_usable(vertices, triangles) {
                Some(eng_trimesh_shape(vertices, triangles))
            } else {
                None
            }
        },
    }
}

/// The mathematical content of a [`World`].
pub ghost struct WorldModel {
    pub base: u64,
    pub states: Seq<StateModel>,
    pub max_retained: usize,
}

impl WorldModel {
    /// At least one tick is retained, every snapshot is well-formed, the tick
    /// counter cannot overflow, and a retention bound is respected.
    pub open spec fn wf(self) -> bool {
        &&& self.states.len() >= 1
        &&& self.base + self.states.len() - 1 <= u64::MAX
        &&& (forall|i: int| 0 <= i < self.states.len() ==> (#[trigger] self.states[i]).wf())
        &&& (self.max_retained > 0 ==> self.states.len() <= self.max_retained)
    }

    /// The current tick's snapshot.
    pub open spec fn current(self) -> StateModel {
        self.states.last()
    }

    /// The current tick number.
    pub open spec fn current_tick(self) -> int {
        self.base + self.states.len() - 1
    }

    /// Whether a snapshot for this tick is retained.
    pub open spec fn retains(self, tick: int) -> bool {
        self.base <= tick <= self.current_tick()
    }

    /// The retained snapshot for a tick.
    pub open spec fn state_at(self, tick: int) -> StateModel {
        self.states[tick - self.base]
    }
}

/// A world with its current snapshot replaced.
pub open spec fn world_with_current(w: WorldModel, m2: StateModel) -> WorldModel {
    WorldModel {
        base: w.base,
        states: w.states.update(w.states.len() - 1, m2),
        max_retained: w.max_retained,
    }
}

/// One step: the next tick's snapshot is appended; under a retention bound
/// the oldest tick is evicted once the bound is exceeded.
pub open spec fn world_step(w: WorldModel) -> WorldModel {
    let grown = w.states.push(apply_step(w.current()));
    if w.max_retained > 0 && grown.len() > w.max_retained {
        WorldModel {
            base: (w.base + 1) as u64,
            states: grown.drop_first(),
            max_retained: w.max_retained,
        }
    } else {
        WorldModel { base: w.base, states: grown, max_retained: w.max_retained }
    }
}

/// A rewind: every tick after the target is discarded; a tick that is not
/// retained leaves the world unchanged.
pub open spec fn world_load(w: WorldModel, tick: u64) -> WorldModel {
    if w.retains(tick as int) {
        WorldModel {
            base: w.base,
            states: w.states.subrange(0, tick - w.base + 1),
            max_retained: w.max_retained,
        }
    } else {
        w
    }
}

/// The orchestrator: sole owner of every retained snapshot.
pub struct World {
    states: Vec<PhysicsState>,
    base_tick: u64,
    max_retained: usize,
}

impl View for World {
    type V = WorldModel;

    closed spec fn view(&self) -> WorldModel {
        WorldModel {
            base: self.base_tick,
            states: self.states@.map_values(|s: PhysicsState| s@),
            max_retained: self.max_retained,
        }
    }
}

impl World {
    /// A world at tick zero with an empty snapshot and unbounded history.
    pub fn new(gravity: V3) -> (r: World)
        ensures
            r@.wf(),
            r@.base == 0,
            r@.max_retained == 0,
            r@.states.len() == 1,
            r@.current().bodies.len() == 0,
            r@.current().colliders.len() == 0,
            no_bodies(r@.current().engine),
            no_colliders(r@.current().engine),
            eng_gravity(r@.current().engine) == gravity,
    {
        let mut states: Vec<PhysicsState> = Vec::new();
        states.push(PhysicsState::new(gravity));
        let r = World { states, base_tick: 0, max_retained: 0 };
        proof {
            assert(r@.states.len() == 1);
        }
        r
    }

    /// A world at tick zero whose history keeps at most `max_retained`
    /// ticks: once the bound is exceeded, the oldest tick is evicted.
    pub fn with_retention(gravity: V3, max_retained: usize) -> (r: World)
        requires
            max_retained >= 1,
        ensures
            r@.wf(),
            r@.base == 0,
            r@.max_retained == max_retained,
            r@.states.len() == 1,
            r@.current().bodies.len() == 0,
            r@.current().colliders.len() == 0,
            no_bodies(r@.current().engine),
            no_colliders(r@.current().engine),
            eng_gravity(r@.current().engine) == gravity,
    {
        let mut states: Vec<PhysicsState> = Vec::new();
        states.push(PhysicsState::new(gravity));
        let r = World { states, base_tick: 0, max_retained };
        proof {
            assert(r@.states.len() == 1);
        }
        r
    }

    /// The current tick number.
    pub fn current_tick(&self) -> (t: u64)
        requires
            self@.wf(),
        ensures
            t as int == self@.current_tick(),
    {
        proof {
            assert(self@.states.len() == self.states@.len());
        }
        self.base_tick + ((self.states.len() - 1) as u64)
    }

    /// Take the current snapshot out for mutation. Always paired with a push.
    fn take_current(&mut self) -> (st: PhysicsState)
        requires
            old(self)@.wf(),
        ensures
            st@ == old(self)@.current(),
            final(self)@.states == old(self)@.states.drop_last(),
            final(self)@.base == old(self)@.base,
            final(self)@.max_retained == old(self)@.max_retained,
    {
        proof {
            assert(self.states@.len() >= 1);
        }
        let st = match self.states.pop() {
            Some(st) => st,
            None => {
                proof {
                    assert(false);
                }
                unreached()
            },
        };
        proof {
            assert(self@.states =~= old(self)@.states.drop_last());
        }
        st
    }

    /// Put the mutated current snapshot back.
    fn put_current(&mut self, st: PhysicsState)
        ensures
            final(self)@.states == old(self)@.states.push(st@),
            final(self)@.base == old(self)@.base,
            final(self)@.max_retained == old(self)@.max_retained,
    {
        self.states.push(st);
        proof {
            assert(self@.states =~= old(self)@.states.push(st@));
        }
    }

    /// Register a body under an external identifier at an initial transform.
    /// Idempotent within a tick: re-registering an identifier returns the
    /// existing handle and changes nothing, so a re-entering entity keeps its
    /// simulated body.
    pub fn add_body(&mut self, id: String, kind: BodyKind, pose: Iso) -> (h: BodyHandle)
        requires
            old(self)@.wf(),
        ensures
            final(self)@.wf(),
            final(self)@ == world_with_current(
                old(self)@,
                apply_add_body(old(self)@.current(), id@, kind, pose).0,
            ),
            h == apply_add_body(old(self)@.current(), id@, kind, pose).1,
            !old(self)@.current().has_body_id(id@) ==> eng_bodies(final(self)@.current().engine)
                == eng_bodies(old(self)@.current().engine).insert(
                h,
                BodyModel { kind, pose, linvel: v3_zero(), angvel: v3_zero() },
            ),
    {
        let mut st = self.take_current();
        let h = st.add_body(id, kind, pose);
        self.put_current(st);
        proof {
            assert(self@.states =~= world_with_current(
                old(self)@,
                apply_add_body(old(self)@.current(), id@, kind, pose).0,
            ).states);
            assert(self@.current() == apply_add_body(old(self)@.current(), id@, kind, pose).0);
        }
        h
    }

    /// Unregister a body: the body and every collider parented to it leave
    /// the current tick's snapshot. Idempotent on a stale handle.
    pub fn remove_body(&mut self, h: BodyHandle)
        requires
            old(self)@.wf(),
        ensures
            final(self)@.wf(),
            final(self)@ == world_with_current(
                old(self)@,
                apply_remove_body(old(self)@.current(), h),
            ),
    {
        let mut st = self.take_current();
        st.remove_body(h);
        self.put_current(st);
        proof {
            assert(self@.states =~= world_with_current(
                old(self)@,
                apply_remove_body(old(self)@.current(), h),
            ).states);
        }
    }

    /// Attach a collider built from a shape descriptor to a registered body.
    /// A degenerate shape source yields no collider and an unregistered
    /// parent is a failed registration; neither changes the world.
    pub fn add_collider_to_body(
        &mut self,
        desc: &ShapeDesc,
        material: Material,
        local_pose: Iso,
        parent: BodyHandle,
    ) -> (r: Result<ColliderHandle, AttachError>)
        requires
            old(self)@.wf(),
        ensures
            final(self)@.wf(),
            r is Ok <==> !desc.is_degenerate() && old(self)@.current().has_body_handle(parent),
            (desc.is_degenerate() ==> (r matches Err(e) && e == AttachError::DegenerateShape
                && final(self)@ == old(self)@)),
            (!desc.is_degenerate() && !old(self)@.current().has_body_handle(parent) ==> (r matches Err(
                e,
            ) && e == AttachError::ParentNotFound && final(self)@ == old(self)@)),
            (r matches Ok(ch) ==> apply_attach(
                old(self)@.current(),
                shape_value(*desc),
                material,
                local_pose,
                parent,
            ).1 == Some(ch) && final(self)@ == world_with_current(
                old(self)@,
                apply_attach(
                    old(self)@.current(),
                    shape_value(*desc),
                    material,
                    local_pose,
                    parent,
                ).0,
            )),
    {
        match build_shape(desc) {
            None => Err(AttachError::DegenerateShape),
            Some(shape) => {
                let mut st = self.take_current();
                let out = st.attach_collider(&shape, material, local_pose, parent);
                self.put_current(st);
                proof {
                    assert(self@.states =~= world_with_current(
                        old(self)@,
                        apply_attach(
                            old(self)@.current(),
                            shape_value(*desc),
                            material,
                            local_pose,
                            parent,
                        ).0,
                    ).states);
                    if !old(self)@.current().has_body_handle(parent) {
                        assert(self@.states =~= old(self)@.states);
                    }
                }
                match out {
                    Some(ch) => Ok(ch),
                    None => Err(AttachError::ParentNotFound),
                }
            },
        }
    }

    /// Detach a collider from the current tick's snapshot, returning its
    /// entry so the caller can recompute what depended on it. `None` on a
    /// stale handle.
    pub fn remove_collider(&mut self, ch: ColliderHandle) -> (r: Option<ColliderEntry>)
        requires
            old(self)@.wf(),
        ensures
            final(self)@.wf(),
            final(self)@ == world_with_current(old(self)@, apply_detach(old(self)@.current(), ch).0),
            r == apply_detach(old(self)@.current(), ch).1,
    {
        let mut st = self.take_current();
        let r = st.remove_collider(ch);
        self.put_current(st);
        proof {
            assert(self@.states =~= world_with_current(
                old(self)@,
                apply_detach(old(self)@.current(), ch).0,
            ).states);
        }
        r
    }

    /// Advance the world by one fixed timestep: the stepped snapshot becomes
    /// the new current tick; under a retention bound the oldest tick may be
    /// evicted. Returns the new tick number.
    pub fn step(&mut self) -> (t: u64)
        requires
            old(self)@.wf(),
            old(self)@.current_tick() < u64::MAX,
        ensures
            final(self)@.wf(),
            final(self)@ == world_step(old(self)@),
            t as int == final(self)@.current_tick(),
            t as int == old(self)@.current_tick() + 1,
            final(self)@.current() == apply_step(old(self)@.current()),
            final(self)@.current().bodies == old(self)@.current().bodies,
            final(self)@.current().colliders == old(self)@.current().colliders,
            eng_bodies(final(self)@.current().engine).dom() == eng_bodies(
                old(self)@.current().engine,
            ).dom(),
            forall|h: BodyHandle|
                eng_bodies(old(self)@.current().engine).dom().contains(h) ==> (
                #[trigger] eng_bodies(final(self)@.current().engine)[h]).kind == eng_bodies(
                    old(self)@.current().engine,
                )[h].kind,
            forall|h: BodyHandle|
                eng_bodies(old(self)@.current().engine).dom().contains(h) && eng_bodies(
                    old(self)@.current().engine,
                )[h].kind == BodyKind::Fixed ==> #[trigger] eng_bodies(
                    final(self)@.current().engine,
                )[h] == eng_bodies(old(self)@.current().engine)[h],
    {
        proof {
            assert(self@.states.len() == self.states@.len());
        }
        let idx = self.states.len() - 1;
        proof {
            assert(self.states@[idx as int]@ == self@.states[idx as int]);
            assert(self@.states[idx as int] == self@.current());
        }
        let next = (&self.states[idx]).stepped();
        self.states.push(next);
        proof {
            assert(self@.states =~= old(self)@.states.push(apply_step(old(self)@.current())));
        }
        if self.max_retained > 0 && self.states.len() > self.max_retained {
            let ghost grown = self@;
            self.states.remove(0);
            self.base_tick = self.base_tick + 1;
            proof {
                assert(self@.states =~= grown.states.drop_first());
                assert(self@ == world_step(old(self)@));
            }
        } else {
            proof {
                assert(self@ == world_step(old(self)@));
            }
        }
        proof {
            assert(self@.states.len() == self.states@.len());
        }
        self.base_tick + ((self.states.len() - 1) as u64)
    }

    /// Advance the world by `n` fixed timesteps. A Fixed-kind body's pose
    /// and velocities are unchanged afterwards, whatever gravity and however
    /// many steps were taken.
    #[verifier::loop_isolation(false)]
    pub fn step_n(&mut self, n: u64) -> (t: u64)
        requires
            old(self)@.wf(),
            old(self)@.current_tick() + n <= u64::MAX,
        ensures
            final(self)@.wf(),
            t as int == old(self)@.current_tick() + n,
            t as int == final(self)@.current_tick(),
            final(self)@.current().bodies == old(self)@.current().bodies,
            final(self)@.current().colliders == old(self)@.current().colliders,
            eng_bodies(final(self)@.current().engine).dom() == eng_bodies(
                old(self)@.current().engine,
            ).dom(),
            forall|h: BodyHandle|
                eng_bodies(old(self)@.current().engine).dom().contains(h) && eng_bodies(
                    old(self)@.current().engine,
                )[h].kind == BodyKind::Fixed ==> #[trigger] eng_bodies(
                    final(self)@.current().engine,
                )[h] == eng_bodies(old(self)@.current().engine)[h],
    {
        let mut k: u64 = 0;
        while k < n
            invariant
                0 <= k <= n,
                self@.wf(),
                self@.current_tick() == old(self)@.current_tick() + k,
                self@.current().bodies == old(self)@.current().bodies,
                self@.current().colliders == old(self)@.current().colliders,
                eng_bodies(self@.current().engine).dom() == eng_bodies(
                    old(self)@.current().engine,
                ).dom(),
                forall|h: BodyHandle|
                    eng_bodies(old(self)@.current().engine).dom().contains(h) ==> (
                    #[trigger] eng_bodies(self@.current().engine)[h]).kind == eng_bodies(
                        old(self)@.current().engine,
                    )[h].kind,
                forall|h: BodyHandle|
                    eng_bodies(old(self)@.current().engine).dom().contains(h) && eng_bodies(
                        old(self)@.current().engine,
                    )[h].kind == BodyKind::Fixed ==> #[trigger] eng_bodies(
                        self@.current().engine,
                    )[h] == eng_bodies(old(self)@.current().engine)[h],
            decreases n - k,
        {
            self.step();
            k = k + 1;
        }
        proof {
            assert(self@.states.len() == self.states@.len());
        }
        self.base_tick + ((self.states.len() - 1) as u64)
    }

    /// Rewind: make `tick` current and discard every later tick. A tick that
    /// is not retained (never produced, or already evicted) is a silent
    /// no-op. After a rewind, stepping resimulates forward from exactly the
    /// stored snapshot.
    #[verifier::loop_isolation(false)]
    pub fn load_state(&mut self, tick: u64)
        requires
            old(self)@.wf(),
        ensures
            final(self)@.wf(),
            final(self)@ == world_load(old(self)@, tick),
    {
        proof {
            assert(self@.states.len() == self.states@.len());
        }
        if tick >= self.base_tick && tick - self.base_tick < self.states.len() as u64 {
            proof {
                assert(tick - self.base_tick + 1 <= self.states@.len());
                assert(old(self)@.states.subrange(0, self.states@.len() as int) =~= old(
                    self,
                )@.states);
            }
            let keep = (tick - self.base_tick + 1) as usize;
            while self.states.len() > keep
                invariant
                    keep <= self.states@.len(),
                    self.states@.len() <= old(self)@.states.len(),
                    self.base_tick == old(self).base_tick,
                    self.max_retained == old(self).max_retained,
                    self@.states == old(self)@.states.subrange(0, self.states@.len() as int),
                decreases self.states@.len(),
            {
                let ghost pre = self@.states;
                let ghost plen = self.states@.len() as int;
                self.states.pop();
                proof {
                    assert(pre =~= old(self)@.states.subrange(0, plen));
                    assert(self@.states =~= pre.drop_last());
                    assert forall|q: int| 0 <= q < plen - 1 implies pre.drop_last()[q] == old(
                        self,
                    )@.states.subrange(0, plen - 1)[q] by {
                        assert(pre.drop_last()[q] == pre[q]);
                    }
                    assert(self@.states =~= old(self)@.states.subrange(
                        0,
                        self.states@.len() as int,
                    ));
                }
            }
            proof {
                assert(self@ == world_load(old(self)@, tick));
            }
        } else {
            proof {
                assert(!old(self)@.retains(tick as int));
            }
        }
    }

    /// What the engine records of a body at the current tick: kind, pose and
    /// velocities. `None` on a stale handle.
    pub fn body(&self, h: BodyHandle) -> (r: Option<BodyModel>)
        requires
            self@.wf(),
        ensures
            r == (if eng_bodies(self@.current().engine).dom().contains(h) {
                Some(eng_bodies(self@.current().engine)[h])
            } else {
                Option::<BodyModel>::None
            }),
    {
        proof {
            assert(self@.states.len() == self.states@.len());
        }
        let idx = self.states.len() - 1;
        proof {
            assert(self.states@[idx as int]@ == self@.states[idx as int]);
            assert(self@.states[idx as int] == self@.current());
            assert(self@.current().wf());
        }
        (&self.states[idx]).body_model(h)
    }

    /// The mass the engine derives for a body, as a scalar bit pattern.
    /// `None` on a stale handle.
    pub fn mass(&self, h: BodyHandle) -> (r: Option<u32>)
        requires
            self@.wf(),
        ensures
            r == (if eng_bodies(self@.current().engine).dom().contains(h) {
                Some(mass_of(self@.current().engine, h))
            } else {
                Option::<u32>::None
            }),
    {
        proof {
            assert(self@.states.len() == self.states@.len());
        }
        let idx = self.states.len() - 1;
        proof {
            assert(self.states@[idx as int]@ == self@.states[idx as int]);
            assert(self@.states[idx as int] == self@.current());
            assert(self@.current().wf());
        }
        match (&self.states[idx]).body_model(h) {
            None => None,
            Some(_) => Some((&self.states[idx]).mass_bits(h)),
        }
    }

    /// Add to a body's force accumulator for the coming step. Reports
    /// whether the handle was live; a stale handle changes nothing.
    pub fn add_force(&mut self, h: BodyHandle, force: V3) -> (ok: bool)
        requires
            old(self)@.wf(),
        ensures
            final(self)@.wf(),
            ok <==> eng_bodies(old(self)@.current().engine).dom().contains(h),
            ok ==> final(self)@ == world_with_current(
                old(self)@,
                StateModel {
                    engine: eng_with_force(old(self)@.current().engine, h, force),
                    ..old(self)@.current()
                },
            ),
            eng_bodies(final(self)@.current().engine) == eng_bodies(old(self)@.current().engine),
            eng_colliders(final(self)@.current().engine) == eng_colliders(
                old(self)@.current().engine,
            ),
            !ok ==> final(self)@ == old(self)@,
    {
        let mut st = self.take_current();
        let ok = st.add_force(h, force);
        self.put_current(st);
        proof {
            if ok {
                assert(self@.states =~= world_with_current(
                    old(self)@,
                    StateModel {
                        engine: eng_with_force(old(self)@.current().engine, h, force),
                        ..old(self)@.current()
                    },
                ).states);
            } else {
                assert(self@.states =~= old(self)@.states);
                assert(self@ =~= old(self)@);
            }
            assert(self@.states.last() == st@);
        }
        ok
    }

    /// Add to a body's torque accumulator for the coming step.
    pub fn add_torque(&mut self, h: BodyHandle, torque: V3) -> (ok: bool)
        requires
            old(self)@.wf(),
        ensures
            final(self)@.wf(),
            ok <==> eng_bodies(old(self)@.current().engine).dom().contains(h),
            ok ==> final(self)@ == world_with_current(
                old(self)@,
                StateModel {
                    engine: eng_with_torque(old(self)@.current().engine, h, torque),
                    ..old(self)@.current()
                },
            ),
            eng_bodies(final(self)@.current().engine) == eng_bodies(old(self)@.current().engine),
            eng_colliders(final(self)@.current().engine) == eng_colliders(
                old(self)@.current().engine,
            ),
            !ok ==> final(self)@ == old(self)@,
    {
        let mut st = self.take_current();
        let ok = st.add_torque(h, torque);
        self.put_current(st);
        proof {
            if ok {
                assert(self@.states =~= world_with_current(
                    old(self)@,
                    StateModel {
                        engine: eng_with_torque(old(self)@.current().engine, h, torque),
                        ..old(self)@.current()
                    },
                ).states);
            } else {
                assert(self@.states =~= old(self)@.states);
                assert(self@ =~= old(self)@);
            }
            assert(self@.states.last() == st@);
        }
        ok
    }

    /// Apply a linear impulse to a body: its velocity changes at once; no
    /// body moves and no other body is touched.
    pub fn apply_impulse(&mut self, h: BodyHandle, impulse: V3) -> (ok: bool)
        requires
            old(self)@.wf(),
        ensures
            final(self)@.wf(),
            ok <==> eng_bodies(old(self)@.current().engine).dom().contains(h),
            ok ==> final(self)@ == world_with_current(
                old(self)@,
                StateModel {
                    engine: eng_with_impulse(old(self)@.current().engine, h, impulse),
                    ..old(self)@.current()
                },
            ),
            eng_bodies(final(self)@.current().engine).dom() == eng_bodies(
                old(self)@.current().engine,
            ).dom(),
            eng_colliders(final(self)@.current().engine) == eng_colliders(
                old(self)@.current().engine,
            ),
            forall|h2: BodyHandle|
                eng_bodies(old(self)@.current().engine).dom().contains(h2) ==> {
                    &&& (#[trigger] eng_bodies(final(self)@.current().engine)[h2]).kind
                        == eng_bodies(old(self)@.current().engine)[h2].kind
                    &&& eng_bodies(final(self)@.current().engine)[h2].pose == eng_bodies(
                        old(self)@.current().engine,
                    )[h2].pose
                    &&& (h2 != h ==> eng_bodies(final(self)@.current().engine)[h2] == eng_bodies(
                        old(self)@.current().engine,
                    )[h2])
                },
            !ok ==> final(self)@ == old(self)@,
    {
        let mut st = self.take_current();
        let ok = st.apply_impulse(h, impulse);
        self.put_current(st);
        proof {
            if ok {
                assert(self@.states =~= world_with_current(
                    old(self)@,
                    StateModel {
                        engine: eng_with_impulse(old(self)@.current().engine, h, impulse),
                        ..old(self)@.current()
                    },
                ).states);
            } else {
                assert(self@.states =~= old(self)@.states);
                assert(self@ =~= old(self)@);
            }
            assert(self@.states.last() == st@);
        }
        ok
    }

    /// Apply an angular impulse to a body.
    pub fn apply_torque_impulse(&mut self, h: BodyHandle, impulse: V3) -> (ok: bool)
        requires
            old(self)@.wf(),
        ensures
            final(self)@.wf(),
            ok <==> eng_bodies(old(self)@.current().engine).dom().contains(h),
            ok ==> final(self)@ == world_with_current(
                old(self)@,
                StateModel {
                    engine: eng_with_torque_impulse(old(self)@.current().engine, h, impulse),
                    ..old(self)@.current()
                },
            ),
            eng_bodies(final(self)@.current().engine).dom() == eng_bodies(
                old(self)@.current().engine,
            ).dom(),
            eng_colliders(final(self)@.current().engine) == eng_colliders(
                old(self)@.current().engine,
            ),
            forall|h2: BodyHandle|
                eng_bodies(old(self)@.current().engine).dom().contains(h2) ==> {
                    &&& (#[trigger] eng_bodies(final(self)@.current().engine)[h2]).kind
                        == eng_bodies(old(self)@.current().engine)[h2].kind
                    &&& eng_bodies(final(self)@.current().engine)[h2].pose == eng_bodies(
                        old(self)@.current().engine,
                    )[h2].pose
                    &&& (h2 != h ==> eng_bodies(final(self)@.current().engine)[h2] == eng_bodies(
                        old(self)@.current().engine,
                    )[h2])
                },
            !ok ==> final(self)@ == old(self)@,
    {
        let mut st = self.take_current();
        let ok = st.apply_torque_impulse(h, impulse);
        self.put_current(st);
        proof {
            if ok {
                assert(self@.states =~= world_with_current(
                    old(self)@,
                    StateModel {
                        engine: eng_with_torque_impulse(old(self)@.current().engine, h, impulse),
                        ..old(self)@.current()
                    },
                ).states);
            } else {
                assert(self@.states =~= old(self)@.states);
                assert(self@ =~= old(self)@);
            }
            assert(self@.states.last() == st@);
        }
        ok
    }

    /// The external identifiers of the dynamic bodies with a collider
    /// overlapping the given sphere at the current tick, deduplicated by
    /// body. Every returned identifier names a registered dynamic body.
    pub fn bodies_within_sphere(&self, center: V3, radius: u32) -> (r: Vec<String>)
        requires
            self@.wf(),
        ensures
            r.deep_view() == resolve_hits(
                self@.current(),
                crate::engine::sphere_hits_of(self@.current().engine, center, radius),
                Set::empty(),
            ),
            ids_sound(self@.current(), r.deep_view()),
            ids_distinct(r.deep_view()),
    {
        proof {
            assert(self@.states.len() == self.states@.len());
        }
        let idx = self.states.len() - 1;
        proof {
            assert(self.states@[idx as int]@ == self@.states[idx as int]);
            assert(self@.states[idx as int] == self@.current());
            assert(self@.current().wf());
        }
        let st = &self.states[idx];
        let r = st.sphere_query(center, radius);
        proof {
            assert(st@ == self@.current());
        }
        r
    }

    /// A one-shot ray cast from a registered body at the current tick,
    /// excluding that body. With no collider of another body in the world,
    /// the cast always misses.
    pub fn raycast(&self, from: BodyHandle, dir: V3, max_dist: u32) -> (r: RaycastResult)
        requires
            self@.wf(),
        ensures
            (r is Miss <==> raycast_model(self@.current(), from, dir, max_dist) is None),
            (r matches RaycastResult::Hit { id, distance } ==> raycast_model(
                self@.current(),
                from,
                dir,
                max_dist,
            ) matches Some(p) && id@ == p.0 && distance == p.1),
            (r matches RaycastResult::Hit { id, distance } ==> exists|i: int|
                0 <= i < self@.current().bodies.len() && (
                #[trigger] self@.current().bodies[i]).id == id@ && self@.current().bodies[i].handle
                    != from),
            (self@.current().has_body_handle(from) && (forall|i: int|
                0 <= i < self@.current().colliders.len() ==> (
                #[trigger] self@.current().colliders[i]).parent == from) ==> r is Miss),
    {
        proof {
            assert(self@.states.len() == self.states@.len());
        }
        let idx = self.states.len() - 1;
        proof {
            assert(self.states@[idx as int]@ == self@.states[idx as int]);
            assert(self@.states[idx as int] == self@.current());
            assert(self@.current().wf());
        }
        (&self.states[idx]).raycast_query(from, dir, max_dist)
    }

    /// A kinematic character sweep against the current tick, excluding one
    /// body: the corrected translation plus contact flags. A pure query; the
    /// world is unchanged. A degenerate shape source yields nothing.
    pub fn move_shape(
        &self,
        dt: u32,
        desc: &ShapeDesc,
        shape_pose: Iso,
        desired_translation: V3,
        exclude: BodyHandle,
    ) -> (r: Option<EffectiveMovement>)
        requires
            self@.wf(),
        ensures
            r is Some <==> !desc.is_degenerate(),
            (r matches Some(m) ==> m == sweep_of(
                self@.current().engine,
                dt,
                shape_value(*desc),
                shape_pose,
                desired_translation,
                exclude,
            )),
    {
        match build_shape(desc) {
            None => None,
            Some(shape) => {
                proof {
                    assert(self@.states.len() == self.states@.len());
                }
                let idx = self.states.len() - 1;
                proof {
                    assert(self.states@[idx as int]@ == self@.states[idx as int]);
                    assert(self@.states[idx as int] == self@.current());
                    assert(self@.current().wf());
                }
                Some(
                    (&self.states[idx]).sweep_query(
                        dt,
                        &shape,
                        shape_pose,
                        desired_translation,
                        exclude,
                    ),
                )
            },
        }
    }

    /// The current pose of every registered body with its external
    /// identifier: what the caller synchronizes its scene entities from
    /// after each step.
    pub fn poses(&self) -> (r: Vec<PoseSync>)
        requires
            self@.wf(),
        ensures
            r@.len() == self@.current().bodies.len(),
            forall|k: int|
                0 <= k < r@.len() ==> (#[trigger] r@[k]).id@ == self@.current().bodies[k].id
                    && r@[k].pose == eng_bodies(self@.current().engine)[self@.current().bodies[
                    k].handle].pose,
    {
        proof {
            assert(self@.states.len() == self.states@.len());
        }
        let idx = self.states.len() - 1;
        proof {
            assert(self.states@[idx as int]@ == self@.states[idx as int]);
            assert(self@.states[idx as int] == self@.current());
            assert(self@.current().wf());
        }
        (&self.states[idx]).poses()
    }
}

} // verus!
