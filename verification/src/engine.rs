//! The trusted boundary to the external physics engine (rapier3d).
//!
//! One value of [`EngineState`] bundles the engine's rigid-body and collider
//! arenas together with the solver bookkeeping (islands, broad phase, narrow
//! phase, joint sets, CCD solver, integration parameters, gravity). These
//! structures are mutually linked and only meaningful as a unit, so the unit
//! is held opaque and described through named projections: `eng_bodies`,
//! `eng_colliders` and `eng_gravity` give the observable content, and the
//! `eng_*` transition names pin each mutation down as a function of the
//! previous state and the call's arguments. The engine is deterministic for
//! a fixed input state (it is built here without its optional thread
//! parallelism, and every call below is a pure computation over the bundle),
//! which is what makes naming those results sound and what the rollback
//! design relies on.
//!
//! Scalars cross this boundary as `u32` bit patterns; the wrapper bodies
//! convert them to and from the engine's machine numbers bit for bit.

use vstd::prelude::*;

use crate::geom::{BodyKind, EffectiveMovement, Material, Iso, V3};
use crate::handles::{BodyHandle, ColliderHandle};
use rapier3d::control::KinematicCharacterController;
use rapier3d::dynamics::{
    CCDSolver, ImpulseJointSet, IntegrationParameters, IslandManager, MultibodyJointSet,
    RigidBodyBuilder, RigidBodySet, RigidBodyType, SoftBodySet,
};
use rapier3d::geometry::{Ball, BroadPhaseBvh, ColliderBuilder, ColliderSet, NarrowPhase, Ray, SharedShape};
use rapier3d::math::Real;
use rapier3d::pipeline::{PhysicsPipeline, QueryFilter};

verus! {

/// Declares the engine's shared shape type, so shape values can be carried
/// through verified code; what a shape holds stays opaque.
#[verifier::external_type_specification]
#[verifier::external_body]
pub struct ExSharedShape(SharedShape);

/// Declares the engine's vector type, for the conversion helpers below.
#[verifier::external_type_specification]
#[verifier::external_body]
pub struct ExVector(rapier3d::math::Vector);

/// Declares the engine's rigid-transform type, for the conversion helpers
/// below.
#[verifier::external_type_specification]
#[verifier::external_body]
pub struct ExPose(rapier3d::math::Pose);

/// The engine-side physics snapshot for one tick, opaque to verification.
///
/// Relies on rapier3d: all fields implement `Clone` by copying their full
/// contents, and no field holds process-global state, so a value of this
/// struct is a self-contained snapshot.
#[verifier::external_body]
pub struct EngineState {
    bodies: RigidBodySet,
    colliders: ColliderSet,
    gravity: rapier3d::math::Vector,
    parameters: IntegrationParameters,
    islands: IslandManager,
    broad_phase: BroadPhaseBvh,
    narrow_phase: NarrowPhase,
    impulse_joints: ImpulseJointSet,
    multibody_joints: MultibodyJointSet,
    soft_bodies: SoftBodySet,
    ccd_solver: CCDSolver,
}

/// What the engine records of one rigid body, as plain values.
#[derive(Clone, Copy, PartialEq, Eq, Structural, Debug)]
pub struct BodyModel {
    pub kind: BodyKind,
    pub pose: Iso,
    pub linvel: V3,
    pub angvel: V3,
}

/// The rigid bodies held by the engine arena, by handle.
pub uninterp spec fn eng_bodies(e: EngineState) -> Map<BodyHandle, BodyModel>;

/// The colliders held by the engine arena: each maps to its parent body.
pub uninterp spec fn eng_colliders(e: EngineState) -> Map<ColliderHandle, BodyHandle>;

/// The gravity vector the engine integrates with.
pub uninterp spec fn eng_gravity(e: EngineState) -> V3;

/// The engine state advanced by one fixed timestep, with force and torque
/// accumulators cleared afterwards.
pub uninterp spec fn eng_stepped(e: EngineState) -> EngineState;

/// The engine state after inserting a body of the given kind at the given pose.
pub uninterp spec fn eng_with_body(e: EngineState, kind: BodyKind, pose: Iso) -> EngineState;

/// The handle the engine arena assigns to that insertion.
pub uninterp spec fn eng_new_body_handle(e: EngineState, kind: BodyKind, pose: Iso) -> BodyHandle;

/// The engine state after removing a body and every collider parented to it.
pub uninterp spec fn eng_without_body(e: EngineState, h: BodyHandle) -> EngineState;

/// The engine state after attaching a collider to a body.
pub uninterp spec fn eng_with_collider(
    e: EngineState,
    shape: SharedShape,
    material: Material,
    pose: Iso,
    parent: BodyHandle,
) -> EngineState;

/// The handle the engine arena assigns to that attachment.
pub uninterp spec fn eng_new_collider_handle(
    e: EngineState,
    shape: SharedShape,
    material: Material,
    pose: Iso,
    parent: BodyHandle,
) -> ColliderHandle;

/// The engine state after removing one collider.
pub uninterp spec fn eng_without_collider(e: EngineState, ch: ColliderHandle) -> EngineState;

/// The engine state after adding to a body's force accumulator.
pub uninterp spec fn eng_with_force(e: EngineState, h: BodyHandle, force: V3) -> EngineState;

/// The engine state after adding to a body's torque accumulator.
pub uninterp spec fn eng_with_torque(e: EngineState, h: BodyHandle, torque: V3) -> EngineState;

/// The engine state after applying a linear impulse to a body.
pub uninterp spec fn eng_with_impulse(e: EngineState, h: BodyHandle, impulse: V3) -> EngineState;

/// The engine state after applying an angular impulse to a body.
pub uninterp spec fn eng_with_torque_impulse(
    e: EngineState,
    h: BodyHandle,
    impulse: V3,
) -> EngineState;

/// What a ray cast from a body returns: the closest struck collider not
/// parented to that body, with the distance to it, if any.
pub uninterp spec fn ray_hit_of(
    e: EngineState,
    from: BodyHandle,
    dir: V3,
    max_dist: u32,
) -> Option<(ColliderHandle, u32)>;

/// The colliders of dynamic bodies that a sphere overlap query reports,
/// in the engine's iteration order.
pub uninterp spec fn sphere_hits_of(e: EngineState, center: V3, radius: u32) -> Seq<ColliderHandle>;

/// The ball shape built from a radius.
pub uninterp spec fn ball_shape(radius: u32) -> SharedShape;

/// The capsule shape built from a half height and radius.
pub uninterp spec fn capsule_shape(half_height: u32, radius: u32) -> SharedShape;

/// The cuboid shape built from three half extents.
pub uninterp spec fn cuboid_shape(hx: u32, hy: u32, hz: u32) -> SharedShape;

/// The cylinder shape built from a half height and radius.
pub uninterp spec fn cylinder_shape(half_height: u32, radius: u32) -> SharedShape;

/// The triangle-mesh shape built from vertices and index triples.
pub uninterp spec fn trimesh_shape(vertices: Seq<V3>, triangles: Seq<[u32; 3]>) -> SharedShape;

/// What a kinematic character sweep returns: the corrected movement for a
/// shape swept through the snapshot, excluding one body.
pub uninterp spec fn sweep_of(
    e: EngineState,
    dt: u32,
    shape: SharedShape,
    shape_pose: Iso,
    desired_translation: V3,
    exclude: BodyHandle,
) -> EffectiveMovement;

/// The mass the engine derives for a body from its attached colliders and
/// additional mass properties, as a scalar bit pattern.
pub uninterp spec fn mass_of(e: EngineState, h: BodyHandle) -> u32;

/// The given collider map with every collider parented to `h` dropped.
pub open spec fn colliders_without_parent(
    m: Map<ColliderHandle, BodyHandle>,
    h: BodyHandle,
) -> Map<ColliderHandle, BodyHandle> {
    Map::new(|ch: ColliderHandle| m.dom().contains(ch) && m[ch] != h, |ch: ColliderHandle| m[ch])
}

/// Holds when the engine arena contains no bodies.
pub open spec fn no_bodies(e: EngineState) -> bool {
    eng_bodies(e) == Map::<BodyHandle, BodyModel>::empty()
}

/// Holds when the engine arena contains no colliders.
pub open spec fn no_colliders(e: EngineState) -> bool {
    eng_colliders(e) == Map::<ColliderHandle, BodyHandle>::empty()
}

/// A zero vector: the zero scalar's bit pattern is zero.
pub open spec fn v3_zero() -> V3 {
    V3 { x: 0, y: 0, z: 0 }
}

/// Bit-pattern conversion into the engine's vector type, for the wrappers
/// below. Relies on `from_bits`: the cast keeps the bits.
#[verifier::external_body]
fn v3_in(v: &V3) -> rapier3d::math::Vector {
    rapier3d::math::Vector::new(Real::from_bits(v.x), Real::from_bits(v.y), Real::from_bits(v.z))
}

/// Bit-pattern conversion out of the engine's vector type, for the wrappers
/// below. Relies on `to_bits`: the cast keeps the bits.
#[verifier::external_body]
fn v3_out(v: rapier3d::math::Vector) -> V3 {
    V3 { x: v.x.to_bits(), y: v.y.to_bits(), z: v.z.to_bits() }
}

/// Bit-pattern conversion into the engine's rigid-transform type, for the
/// wrappers below.
#[verifier::external_body]
fn pose_in(p: &Iso) -> rapier3d::math::Pose {
    rapier3d::math::Pose::from_parts(
        v3_in(&p.translation),
        rapier3d::math::Rotation::from_xyzw(
            Real::from_bits(p.rotation.x),
            Real::from_bits(p.rotation.y),
            Real::from_bits(p.rotation.z),
            Real::from_bits(p.rotation.w),
        ),
    )
}

/// Bit-pattern conversion out of the engine's rigid-transform type, for the
/// wrappers below.
#[verifier::external_body]
fn pose_out(p: &rapier3d::math::Pose) -> Iso {
    Iso {
        translation: v3_out(p.translation),
        rotation: crate::geom::Quat4 {
            x: p.rotation.x.to_bits(),
            y: p.rotation.y.to_bits(),
            z: p.rotation.z.to_bits(),
            w: p.rotation.w.to_bits(),
        },
    }
}

/// Relies on the `Clone` impls of every engine structure: each copies its
/// full contents, so the clone is the same snapshot value.
#[verifier::external_body]
pub fn eng_clone(e: &EngineState) -> (r: EngineState)
    ensures
        r == *e,
{
    EngineState {
        bodies: e.bodies.clone(),
        colliders: e.colliders.clone(),
        gravity: e.gravity,
        parameters: e.parameters,
        islands: e.islands.clone(),
        broad_phase: e.broad_phase.clone(),
        narrow_phase: e.narrow_phase.clone(),
        impulse_joints: e.impulse_joints.clone(),
        multibody_joints: e.multibody_joints.clone(),
        soft_bodies: e.soft_bodies.clone(),
        ccd_solver: e.ccd_solver.clone(),
    }
}

/// Relies on the empty-set constructors of the engine structures: a fresh
/// state holds no bodies and no colliders, and the integration parameters
/// take the engine's default fixed timestep.
#[verifier::external_body]
pub fn eng_new(gravity: V3) -> (r: EngineState)
    ensures
        no_bodies(r),
        no_colliders(r),
        eng_gravity(r) == gravity,
{
    EngineState {
        bodies: RigidBodySet::new(),
        colliders: ColliderSet::new(),
        gravity: v3_in(&gravity),
        parameters: IntegrationParameters::default(),
        islands: IslandManager::new(),
        broad_phase: BroadPhaseBvh::new(),
        narrow_phase: NarrowPhase::new(),
        impulse_joints: ImpulseJointSet::new(),
        multibody_joints: MultibodyJointSet::new(),
        soft_bodies: SoftBodySet::new(),
        ccd_solver: CCDSolver::new(),
    }
}

/// Relies on `RigidBodySet::insert`: the arena assigns a handle no live or
/// previously issued entry holds, deterministically from the arena's state,
/// and the new body carries the given kind and pose with zero velocities.
#[verifier::external_body]
pub fn eng_insert_body(e: &mut EngineState, kind: BodyKind, pose: Iso) -> (h: BodyHandle)
    ensures
        h == eng_new_body_handle(*old(e), kind, pose),
        *final(e) == eng_with_body(*old(e), kind, pose),
        !eng_bodies(*old(e)).dom().contains(h),
        eng_bodies(*final(e)) == eng_bodies(*old(e)).insert(
            h,
            BodyModel { kind, pose, linvel: v3_zero(), angvel: v3_zero() },
        ),
        eng_colliders(*final(e)) == eng_colliders(*old(e)),
        eng_gravity(*final(e)) == eng_gravity(*old(e)),
{
    let bt = match kind {
        BodyKind::Dynamic => RigidBodyType::Dynamic,
        BodyKind::Fixed => RigidBodyType::Fixed,
        BodyKind::KinematicPositionBased => RigidBodyType::KinematicPositionBased,
    };
    let rh = e.bodies.insert(RigidBodyBuilder::new(bt).pose(pose_in(&pose)).build());
    let (index, generation) = rh.into_raw_parts();
    BodyHandle { index, generation }
}

/// Relies on `RigidBodySet::remove` with `remove_attached_colliders` set:
/// the body, its attached colliders and its joints leave the state; nothing
/// else in the arenas changes.
#[verifier::external_body]
pub fn eng_remove_body(e: &mut EngineState, h: BodyHandle)
    requires
        eng_bodies(*old(e)).dom().contains(h),
    ensures
        *final(e) == eng_without_body(*old(e), h),
        eng_bodies(*final(e)) == eng_bodies(*old(e)).remove(h),
        eng_colliders(*final(e)) == colliders_without_parent(eng_colliders(*old(e)), h),
        eng_gravity(*final(e)) == eng_gravity(*old(e)),
{
    let rh = rapier3d::dynamics::RigidBodyHandle::from_raw_parts(h.index, h.generation);
    e.bodies.remove(
        rh,
        &mut e.islands,
        &mut e.colliders,
        &mut e.impulse_joints,
        &mut e.multibody_joints,
        &mut e.soft_bodies,
        true,
    );
}

/// Relies on `RigidBodySet::get` and the body accessors `body_type`,
/// `position`, `linvel` and `angvel`: a stale handle misses, a live one
/// reads the arena entry.
#[verifier::external_body]
pub fn eng_body_model(e: &EngineState, h: BodyHandle) -> (r: Option<BodyModel>)
    ensures
        r == (if eng_bodies(*e).dom().contains(h) {
            Some(eng_bodies(*e)[h])
        } else {
            Option::<BodyModel>::None
        }),
{
    let rh = rapier3d::dynamics::RigidBodyHandle::from_raw_parts(h.index, h.generation);
    e.bodies.get(rh).map(|b| BodyModel {
        kind: match b.body_type() {
            RigidBodyType::Fixed => BodyKind::Fixed,
            RigidBodyType::KinematicPositionBased => BodyKind::KinematicPositionBased,
            _ => BodyKind::Dynamic,
        },
        pose: pose_out(b.position()),
        linvel: v3_out(b.linvel()),
        angvel: v3_out(b.angvel()),
    })
}

/// Relies on `RigidBody::mass`: the mass the engine derives from the body's
/// attached colliders and additional mass properties, a pure function of
/// the snapshot and the handle.
#[verifier::external_body]
pub fn eng_mass_bits(e: &EngineState, h: BodyHandle) -> (r: u32)
    requires
        eng_bodies(*e).dom().contains(h),
    ensures
        r == mass_of(*e, h),
{
    let rh = rapier3d::dynamics::RigidBodyHandle::from_raw_parts(h.index, h.generation);
    e.bodies.get(rh).map(|b| b.mass().to_bits()).unwrap_or(0)
}

/// Relies on `RigidBody::add_force`: it only accumulates; kind, pose and
/// velocities are untouched until the next step consumes the accumulator.
#[verifier::external_body]
pub fn eng_add_force(e: &mut EngineState, h: BodyHandle, force: V3)
    requires
        eng_bodies(*old(e)).dom().contains(h),
    ensures
        *final(e) == eng_with_force(*old(e), h, force),
        eng_bodies(*final(e)) == eng_bodies(*old(e)),
        eng_colliders(*final(e)) == eng_colliders(*old(e)),
        eng_gravity(*final(e)) == eng_gravity(*old(e)),
{
    let rh = rapier3d::dynamics::RigidBodyHandle::from_raw_parts(h.index, h.generation);
    if let Some(b) = e.bodies.get_mut(rh) {
        b.add_force(v3_in(&force), true);
    }
}

/// Relies on `RigidBody::add_torque`: it only accumulates; kind, pose and
/// velocities are untouched until the next step consumes the accumulator.
#[verifier::external_body]
pub fn eng_add_torque(e: &mut EngineState, h: BodyHandle, torque: V3)
    requires
        eng_bodies(*old(e)).dom().contains(h),
    ensures
        *final(e) == eng_with_torque(*old(e), h, torque),
        eng_bodies(*final(e)) == eng_bodies(*old(e)),
        eng_colliders(*final(e)) == eng_colliders(*old(e)),
        eng_gravity(*final(e)) == eng_gravity(*old(e)),
{
    let rh = rapier3d::dynamics::RigidBodyHandle::from_raw_parts(h.index, h.generation);
    if let Some(b) = e.bodies.get_mut(rh) {
        b.add_torque(v3_in(&torque), true);
    }
}

/// Relies on `RigidBody::apply_impulse`: it changes that body's velocity at
/// once, moves nothing, and touches no other body.
#[verifier::external_body]
pub fn eng_apply_impulse(e: &mut EngineState, h: BodyHandle, impulse: V3)
    requires
        eng_bodies(*old(e)).dom().contains(h),
    ensures
        *final(e) == eng_with_impulse(*old(e), h, impulse),
        eng_bodies(*final(e)).dom() == eng_bodies(*old(e)).dom(),
        forall|h2: BodyHandle|
            eng_bodies(*old(e)).dom().contains(h2) ==> {
                &&& (#[trigger] eng_bodies(*final(e))[h2]).kind == eng_bodies(*old(e))[h2].kind
                &&& eng_bodies(*final(e))[h2].pose == eng_bodies(*old(e))[h2].pose
                &&& (h2 != h ==> eng_bodies(*final(e))[h2] == eng_bodies(*old(e))[h2])
            },
        eng_colliders(*final(e)) == eng_colliders(*old(e)),
        eng_gravity(*final(e)) == eng_gravity(*old(e)),
{
    let rh = rapier3d::dynamics::RigidBodyHandle::from_raw_parts(h.index, h.generation);
    if let Some(b) = e.bodies.get_mut(rh) {
        b.apply_impulse(v3_in(&impulse), true);
    }
}

/// Relies on `RigidBody::apply_torque_impulse`: it changes that body's
/// angular velocity at once, moves nothing, and touches no other body.
#[verifier::external_body]
pub fn eng_apply_torque_impulse(e: &mut EngineState, h: BodyHandle, impulse: V3)
    requires
        eng_bodies(*old(e)).dom().contains(h),
    ensures
        *final(e) == eng_with_torque_impulse(*old(e), h, impulse),
        eng_bodies(*final(e)).dom() == eng_bodies(*old(e)).dom(),
        forall|h2: BodyHandle|
            eng_bodies(*old(e)).dom().contains(h2) ==> {
                &&& (#[trigger] eng_bodies(*final(e))[h2]).kind == eng_bodies(*old(e))[h2].kind
                &&& eng_bodies(*final(e))[h2].pose == eng_bodies(*old(e))[h2].pose
                &&& (h2 != h ==> eng_bodies(*final(e))[h2] == eng_bodies(*old(e))[h2])
            },
        eng_colliders(*final(e)) == eng_colliders(*old(e)),
        eng_gravity(*final(e)) == eng_gravity(*old(e)),
{
    let rh = rapier3d::dynamics::RigidBodyHandle::from_raw_parts(h.index, h.generation);
    if let Some(b) = e.bodies.get_mut(rh) {
        b.apply_torque_impulse(v3_in(&impulse), true);
    }
}

/// Relies on `ColliderSet::insert_with_parent`: the arena assigns a fresh
/// handle deterministically, parents the collider to the given live body,
/// and changes no body's kind, pose or velocity.
#[verifier::external_body]
pub fn eng_attach_collider(
    e: &mut EngineState,
    shape: &SharedShape,
    material: Material,
    pose: Iso,
    parent: BodyHandle,
) -> (ch: ColliderHandle)
    requires
        eng_bodies(*old(e)).dom().contains(parent),
    ensures
        ch == eng_new_collider_handle(*old(e), *shape, material, pose, parent),
        *final(e) == eng_with_collider(*old(e), *shape, material, pose, parent),
        !eng_colliders(*old(e)).dom().contains(ch),
        eng_colliders(*final(e)) == eng_colliders(*old(e)).insert(ch, parent),
        eng_bodies(*final(e)) == eng_bodies(*old(e)),
        eng_gravity(*final(e)) == eng_gravity(*old(e)),
{
    let collider = ColliderBuilder::new(shape.clone())
        .position(pose_in(&pose))
        .restitution(Real::from_bits(material.restitution))
        .density(Real::from_bits(material.density))
        .build();
    let rh = rapier3d::dynamics::RigidBodyHandle::from_raw_parts(parent.index, parent.generation);
    let raw = e.colliders.insert_with_parent(collider, rh, &mut e.bodies);
    let (index, generation) = raw.into_raw_parts();
    ColliderHandle { index, generation }
}

/// Relies on `ColliderSet::remove`: the collider leaves the arena and its
/// parent body's shape bookkeeping; bodies keep kind, pose and velocities.
#[verifier::external_body]
pub fn eng_detach_collider(e: &mut EngineState, ch: ColliderHandle)
    requires
        eng_colliders(*old(e)).dom().contains(ch),
    ensures
        *final(e) == eng_without_collider(*old(e), ch),
        eng_colliders(*final(e)) == eng_colliders(*old(e)).remove(ch),
        eng_bodies(*final(e)) == eng_bodies(*old(e)),
        eng_gravity(*final(e)) == eng_gravity(*old(e)),
{
    let raw = rapier3d::geometry::ColliderHandle::from_raw_parts(ch.index, ch.generation);
    e.colliders.remove(raw, &mut e.islands, &mut e.bodies, &mut e.soft_bodies, true);
}

/// Relies on `PhysicsPipeline::step` (built without thread parallelism: a
/// deterministic function of the snapshot) followed by `reset_forces` and
/// `reset_torques` on every body, making forces impulses per tick. The step
/// never adds or removes bodies or colliders, never changes a body's kind,
/// never moves a Fixed body, and leaves gravity as configured. A fresh
/// pipeline workspace is used each call, so the result depends on the
/// snapshot alone. Determinism is an in-process claim: the engine promises
/// bit-identical results across machines only in its enhanced-determinism
/// build, and a snapshot value never leaves the process.
#[verifier::external_body]
pub fn eng_step(e: &mut EngineState)
    ensures
        *final(e) == eng_stepped(*old(e)),
        eng_bodies(*final(e)).dom() == eng_bodies(*old(e)).dom(),
        forall|h: BodyHandle|
            eng_bodies(*old(e)).dom().contains(h) ==> (#[trigger] eng_bodies(*final(e))[h]).kind
                == eng_bodies(*old(e))[h].kind,
        forall|h: BodyHandle|
            eng_bodies(*old(e)).dom().contains(h) && eng_bodies(*old(e))[h].kind == BodyKind::Fixed
                ==> #[trigger] eng_bodies(*final(e))[h] == eng_bodies(*old(e))[h],
        eng_colliders(*final(e)) == eng_colliders(*old(e)),
        eng_gravity(*final(e)) == eng_gravity(*old(e)),
{
    PhysicsPipeline::new().step(
        e.gravity, &e.parameters, &mut e.islands, &mut e.broad_phase,
        &mut e.narrow_phase, &mut e.bodies, &mut e.colliders,
        &mut e.impulse_joints, &mut e.multibody_joints, &mut e.soft_bodies,
        &mut e.ccd_solver, &(), &(),
    );
    for (_, b) in e.bodies.iter_mut() {
        b.reset_forces(true);
        b.reset_torques(true);
    }
}

/// Relies on `QueryPipeline::intersect_shape` over a ball, filtered to
/// dynamic bodies: every reported collider is live, is parented to a live
/// dynamic body, and the engine's bounding-volume tree reports each collider
/// at most once. The tree is the one the last step refreshed, so a collider
/// attached after that step is not yet visible; a collider removed since is
/// filtered out by the liveness test.
#[verifier::external_body]
pub fn eng_sphere_hits(e: &EngineState, center: V3, radius: u32) -> (r: Vec<ColliderHandle>)
    ensures
        r@ == sphere_hits_of(*e, center, radius),
        forall|i: int|
            0 <= i < r@.len() ==> {
                &&& eng_colliders(*e).dom().contains(#[trigger] r@[i])
                &&& eng_bodies(*e).dom().contains(eng_colliders(*e)[r@[i]])
                &&& eng_bodies(*e)[eng_colliders(*e)[r@[i]]].kind == BodyKind::Dynamic
            },
        forall|i: int, j: int| 0 <= i < j < r@.len() ==> #[trigger] r@[i] != #[trigger] r@[j],
{
    let qp = e.broad_phase.as_query_pipeline(
        e.narrow_phase.query_dispatcher(),
        &e.bodies,
        &e.colliders,
        QueryFilter::only_dynamic(),
    );
    qp.intersect_shape(pose_in(&Iso::at(center)), &Ball::new(Real::from_bits(radius)))
        .map(|(h, _)| {
            let (index, generation) = h.into_raw_parts();
            ColliderHandle { index, generation }
        })
        .collect()
}

/// Relies on `QueryPipeline::cast_ray` with the ray's origin at the given
/// body's position, the direction normalized, and a filter excluding that
/// body: a reported hit is a live collider of another body; where every
/// collider belongs to the excluded body, nothing can be hit. The tree is
/// the one the last step refreshed, as for the overlap query.
#[verifier::external_body]
pub fn eng_cast_ray(
    e: &EngineState,
    from: BodyHandle,
    dir: V3,
    max_dist: u32,
) -> (r: Option<(ColliderHandle, u32)>)
    requires
        eng_bodies(*e).dom().contains(from),
    ensures
        r == ray_hit_of(*e, from, dir, max_dist),
        r is Some ==> {
            &&& eng_colliders(*e).dom().contains(r->Some_0.0)
            &&& eng_colliders(*e)[r->Some_0.0] != from
        },
        (forall|ch: ColliderHandle|
            eng_colliders(*e).dom().contains(ch) ==> #[trigger] eng_colliders(*e)[ch] == from)
            ==> r is None,
{
    let rh = rapier3d::dynamics::RigidBodyHandle::from_raw_parts(from.index, from.generation);
    let origin = e.bodies.get(rh).map(|b| b.translation()).unwrap_or_default();
    let qp = e.broad_phase.as_query_pipeline(
        e.narrow_phase.query_dispatcher(),
        &e.bodies,
        &e.colliders,
        QueryFilter::default().exclude_rigid_body(rh),
    );
    qp.cast_ray(&Ray::new(origin, v3_in(&dir).normalize_or_zero()), Real::from_bits(max_dist), true)
        .map(|(h, toi)| {
            let (index, generation) = h.into_raw_parts();
            (ColliderHandle { index, generation }, toi.to_bits())
        })
}

/// Relies on `KinematicCharacterController::move_shape` with its default
/// settings, excluding the given body: a pure sweep query returning the
/// corrected translation and contact flags, a deterministic function of the
/// snapshot and the arguments. What the corrected translation is on given
/// values is the engine's geometry; the contract only names it.
#[verifier::external_body]
pub fn eng_move_shape(
    e: &EngineState,
    dt: u32,
    shape: &SharedShape,
    shape_pose: Iso,
    desired_translation: V3,
    exclude: BodyHandle,
) -> (r: EffectiveMovement)
    ensures
        r == sweep_of(*e, dt, *shape, shape_pose, desired_translation, exclude),
{
    let rh = rapier3d::dynamics::RigidBodyHandle::from_raw_parts(exclude.index, exclude.generation);
    let qp = e.broad_phase.as_query_pipeline(
        e.narrow_phase.query_dispatcher(), &e.bodies, &e.colliders,
        QueryFilter::default().exclude_rigid_body(rh),
    );
    let m = KinematicCharacterController::default().move_shape(
        Real::from_bits(dt), &qp, &**shape, &pose_in(&shape_pose),
        v3_in(&desired_translation), |_| {},
    );
    EffectiveMovement {
        translation: v3_out(m.translation),
        grounded: m.grounded,
        is_sliding_down_slope: m.is_sliding_down_slope,
    }
}

/// Relies on `SharedShape::ball`.
#[verifier::external_body]
pub fn eng_ball_shape(radius: u32) -> (r: SharedShape)
    ensures
        r == ball_shape(radius),
{
    SharedShape::ball(Real::from_bits(radius))
}

/// Relies on `SharedShape::capsule_y`.
#[verifier::external_body]
pub fn eng_capsule_shape(half_height: u32, radius: u32) -> (r: SharedShape)
    ensures
        r == capsule_shape(half_height, radius),
{
    SharedShape::capsule_y(Real::from_bits(half_height), Real::from_bits(radius))
}

/// Relies on `SharedShape::cuboid`.
#[verifier::external_body]
pub fn eng_cuboid_shape(hx: u32, hy: u32, hz: u32) -> (r: SharedShape)
    ensures
        r == cuboid_shape(hx, hy, hz),
{
    SharedShape::cuboid(Real::from_bits(hx), Real::from_bits(hy), Real::from_bits(hz))
}

/// Relies on `SharedShape::cylinder`.
#[verifier::external_body]
pub fn eng_cylinder_shape(half_height: u32, radius: u32) -> (r: SharedShape)
    ensures
        r == cylinder_shape(half_height, radius),
{
    SharedShape::cylinder(Real::from_bits(half_height), Real::from_bits(radius))
}

/// Relies on `SharedShape::trimesh`: it fails on an empty index buffer and
/// panics while building its tree on an index outside the vertex buffer;
/// the precondition rules both out.
#[verifier::external_body]
pub fn eng_trimesh_shape(vertices: &Vec<V3>, triangles: &Vec<[u32; 3]>) -> (r: SharedShape)
    requires
        triangles@.len() >= 1,
        forall|k: int|
            0 <= k < triangles@.len() ==> crate::geom::tri_in_range(
                #[trigger] triangles@[k],
                vertices@.len() as int,
            ),
    ensures
        r == trimesh_shape(vertices@, triangles@),
{
    let vs = vertices.iter().map(v3_in).collect();
    SharedShape::trimesh(vs, triangles.clone()).expect("index buffer is non-empty")
}

} // verus!
