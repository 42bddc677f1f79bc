//! The entity proxy: what a scene node holds about its simulated body.
//!
//! A proxy pairs the caller-assigned external identifier and body kind with
//! the handle cached since registration. It owns no simulation state: every
//! read and every mutation re-resolves through the world, whose snapshot is
//! replaced wholesale each tick. An unregistered proxy fails the way every
//! stale lookup here fails: an empty result, never a fault.

use vstd::prelude::*;

use crate::engine::{eng_bodies, eng_with_force, eng_with_impulse};
use crate::geom::{BodyKind, Iso, Material, RaycastResult, ShapeDesc, V3};
use crate::handles::{BodyHandle, ColliderHandle};
use crate::state::{
    apply_add_body, apply_attach, apply_detach, apply_remove_body, raycast_model, ColliderEntry,
    StateModel,
};
use crate::world::{shape_value, world_with_current, AttachError, World};

verus! {

/// A caller-facing reference to one registered body.
pub struct BodyProxy {
    pub id: String,
    pub kind: BodyKind,
    pub handle: Option<BodyHandle>,
}

impl BodyProxy {
    /// A proxy not yet registered with any world.
    pub fn new(id: String, kind: BodyKind) -> (r: BodyProxy)
        ensures
            r.id == id,
            r.kind == kind,
            r.handle is None,
    {
        BodyProxy { id, kind, handle: None }
    }

    /// Called when the owning scene entity enters the scene: registers the
    /// body and caches its handle. Idempotent per identifier, like
    /// `World::add_body`.
    pub fn register(&mut self, world: &mut World, initial: Iso)
        requires
            old(world)@.wf(),
        ensures
            final(world)@.wf(),
            final(self).id == old(self).id,
            final(self).kind == old(self).kind,
            final(self).handle == Some(
                apply_add_body(old(world)@.current(), old(self).id@, old(self).kind, initial).1,
            ),
            final(world)@ == world_with_current(
                old(world)@,
                apply_add_body(old(world)@.current(), old(self).id@, old(self).kind, initial).0,
            ),
    {
        let h = world.add_body(self.id.clone(), self.kind, initial);
        self.handle = Some(h);
    }

    /// Called when the owning scene entity leaves the scene: unregisters the
    /// body (with every collider parented to it) and drops the cached
    /// handle. A proxy that never registered changes nothing.
    pub fn unregister(&mut self, world: &mut World)
        requires
            old(world)@.wf(),
        ensures
            final(world)@.wf(),
            final(self).id == old(self).id,
            final(self).kind == old(self).kind,
            final(self).handle is None,
            (old(self).handle matches Some(h) ==> final(world)@ == world_with_current(
                old(world)@,
                apply_remove_body(old(world)@.current(), h),
            )),
            (old(self).handle is None ==> final(world)@ == old(world)@),
    {
        match self.handle {
            Some(h) => {
                self.handle = None;
                world.remove_body(h);
            },
            None => {},
        }
    }

    /// Attach a collider to the proxied body. An unregistered proxy is a
    /// failed registration, like an unknown parent handle.
    pub fn add_collider(
        &self,
        world: &mut World,
        shape: &ShapeDesc,
        material: Material,
        local_pose: Iso,
    ) -> (r: Result<ColliderHandle, AttachError>)
        requires
            old(world)@.wf(),
        ensures
            final(world)@.wf(),
            (self.handle is None ==> (r matches Err(e) && e == AttachError::ParentNotFound
                && final(world)@ == old(world)@)),
            (self.handle matches Some(h) ==> {
                &&& (r is Ok <==> !shape.is_degenerate() && old(world)@.current().has_body_handle(
                    h,
                ))
                &&& (r matches Ok(ch) ==> apply_attach(
                    old(world)@.current(),
                    shape_value(*shape),
                    material,
                    local_pose,
                    h,
                ).1 == Some(ch) && final(world)@ == world_with_current(
                    old(world)@,
                    apply_attach(
                        old(world)@.current(),
                        shape_value(*shape),
                        material,
                        local_pose,
                        h,
                    ).0,
                ))
                &&& (r is Err ==> final(world)@ == old(world)@)
            }),
    {
        match self.handle {
            Some(h) => world.add_collider_to_body(shape, material, local_pose, h),
            None => Err(AttachError::ParentNotFound),
        }
    }

    /// Detach a collider of the proxied body, returning its entry.
    pub fn remove_collider(&self, world: &mut World, ch: ColliderHandle) -> (r: Option<
        ColliderEntry,
    >)
        requires
            old(world)@.wf(),
        ensures
            final(world)@.wf(),
            final(world)@ == world_with_current(
                old(world)@,
                apply_detach(old(world)@.current(), ch).0,
            ),
            r == apply_detach(old(world)@.current(), ch).1,
    {
        world.remove_collider(ch)
    }

    /// Route a force to the proxied body's accumulator. Reports whether the
    /// body was live; an unregistered or stale proxy changes nothing.
    pub fn add_force(&self, world: &mut World, force: V3) -> (ok: bool)
        requires
            old(world)@.wf(),
        ensures
            final(world)@.wf(),
            (self.handle is None ==> !ok && final(world)@ == old(world)@),
            (self.handle matches Some(h) ==> {
                &&& (ok <==> eng_bodies(old(world)@.current().engine).dom().contains(h))
                &&& (ok ==> final(world)@ == world_with_current(
                    old(world)@,
                    StateModel {
                        engine: eng_with_force(old(world)@.current().engine, h, force),
                        ..old(world)@.current()
                    },
                ))
                &&& (!ok ==> final(world)@ == old(world)@)
            }),
    {
        match self.handle {
            Some(h) => world.add_force(h, force),
            None => false,
        }
    }

    /// Route a linear impulse to the proxied body.
    pub fn apply_impulse(&self, world: &mut World, impulse: V3) -> (ok: bool)
        requires
            old(world)@.wf(),
        ensures
            final(world)@.wf(),
            (self.handle is None ==> !ok && final(world)@ == old(world)@),
            (self.handle matches Some(h) ==> {
                &&& (ok <==> eng_bodies(old(world)@.current().engine).dom().contains(h))
                &&& (ok ==> final(world)@ == world_with_current(
                    old(world)@,
                    StateModel {
                        engine: eng_with_impulse(old(world)@.current().engine, h, impulse),
                        ..old(world)@.current()
                    },
                ))
                &&& (!ok ==> final(world)@ == old(world)@)
            }),
    {
        match self.handle {
            Some(h) => world.apply_impulse(h, impulse),
            None => false,
        }
    }

    /// Cast a ray from the proxied body, excluding it from the candidates.
    /// An unregistered proxy misses.
    pub fn raycast(&self, world: &World, direction: V3, max_distance: u32) -> (r: RaycastResult)
        requires
            world@.wf(),
        ensures
            (self.handle is None ==> r is Miss),
            (self.handle matches Some(h) ==> (r is Miss <==> raycast_model(
                world@.current(),
                h,
                direction,
                max_distance,
            ) is None)),
    {
        match self.handle {
            Some(h) => world.raycast(h, direction, max_distance),
            None => RaycastResult::Miss,
        }
    }

    /// The proxied body's current linear velocity, re-resolved through the
    /// world. `None` for an unregistered or stale proxy.
    pub fn linear_velocity(&self, world: &World) -> (r: Option<V3>)
        requires
            world@.wf(),
        ensures
            r == (match self.handle {
                Some(h) => if eng_bodies(world@.current().engine).dom().contains(h) {
                    Some(eng_bodies(world@.current().engine)[h].linvel)
                } else {
                    Option::<V3>::None
                },
                None => Option::<V3>::None,
            }),
    {
        match self.handle {
            Some(h) => match world.body(h) {
                Some(m) => Some(m.linvel),
                None => None,
            },
            None => None,
        }
    }
}

} // verus!
