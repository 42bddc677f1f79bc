//! One complete physics snapshot and the registration operations on it.
//!
//! A [`PhysicsState`] pairs the opaque engine snapshot with verified
//! bookkeeping: the registered bodies (external identifier, handle, kind)
//! and the attached colliders (handle, parent, material, local pose). The
//! well-formedness invariant [`StateModel::wf`] ties the bookkeeping to the
//! engine's arenas: the tables list exactly the live handles, one external
//! identifier maps to exactly one body, and every collider's parent is a
//! live body of the same snapshot.
//!
//! Every mutation is pinned down by an `apply_*` specification function:
//! the state after the call is a function of the state before it and the
//! call's arguments. That functional form is what the replay laws build on.

use vstd::prelude::*;

use crate::engine::{
    eng_add_force, eng_add_torque, eng_apply_impulse, eng_apply_torque_impulse,
    eng_attach_collider, eng_bodies, eng_body_model, eng_cast_ray, eng_clone, eng_colliders,
    eng_detach_collider, eng_gravity, eng_insert_body, eng_mass_bits, eng_move_shape, eng_new,
    eng_new_body_handle, eng_new_collider_handle, eng_remove_body, eng_sphere_hits, eng_step,
    eng_stepped, eng_with_body, eng_with_collider, eng_with_force, eng_with_impulse,
    eng_with_torque, eng_with_torque_impulse, eng_without_body, eng_without_collider,
    mass_of, no_bodies, no_colliders, colliders_without_parent, ray_hit_of, sphere_hits_of,
    sweep_of, v3_zero, BodyModel,
    EngineState,
};
use crate::geom::{BodyKind, EffectiveMovement, Iso, Material, RaycastResult, V3};
use vstd::pervasive::unreached;
use crate::handles::{BodyHandle, ColliderHandle};
use rapier3d::geometry::SharedShape;

verus! {

/// A registered body: its caller-assigned external identifier, its handle in
/// the engine arena, and its kind.
pub struct BodyEntry {
    pub id: String,
    pub handle: BodyHandle,
    pub kind: BodyKind,
}

impl Clone for BodyEntry {
    fn clone(&self) -> (r: Self)
        ensures
            r == *self,
    {
        BodyEntry { id: self.id.clone(), handle: self.handle, kind: self.kind }
    }
}

/// The mathematical content of a [`BodyEntry`].
pub ghost struct BodyRec {
    pub id: Seq<char>,
    pub handle: BodyHandle,
    pub kind: BodyKind,
}

impl View for BodyEntry {
    type V = BodyRec;

    open spec fn view(&self) -> BodyRec {
        BodyRec { id: self.id@, handle: self.handle, kind: self.kind }
    }
}

/// An attached collider: its handle, the body it is parented to, its
/// material, and its pose relative to that body.
#[derive(Clone, Copy, PartialEq, Eq, Structural, Debug)]
pub struct ColliderEntry {
    pub handle: ColliderHandle,
    pub parent: BodyHandle,
    pub material: Material,
    pub local_pose: Iso,
}

/// The mathematical content of a [`PhysicsState`].
pub ghost struct StateModel {
    pub engine: EngineState,
    pub bodies: Seq<BodyRec>,
    pub colliders: Seq<ColliderEntry>,
}

impl StateModel {
    /// The bookkeeping matches the engine arenas exactly.
    pub open spec fn wf(self) -> bool {
        &&& (forall|i: int, j: int|
            0 <= i < self.bodies.len() && 0 <= j < self.bodies.len() && i != j ==> (
            #[trigger] self.bodies[i]).id != (#[trigger] self.bodies[j]).id)
        &&& (forall|i: int, j: int|
            0 <= i < self.bodies.len() && 0 <= j < self.bodies.len() && i != j ==> (
            #[trigger] self.bodies[i]).handle != (#[trigger] self.bodies[j]).handle)
        &&& (forall|i: int|
            0 <= i < self.bodies.len() ==> eng_bodies(self.engine).dom().contains(
                (#[trigger] self.bodies[i]).handle,
            ) && eng_bodies(self.engine)[self.bodies[i].handle].kind == self.bodies[i].kind)
        &&& (forall|h: BodyHandle|
            #[trigger] eng_bodies(self.engine).dom().contains(h) ==> exists|i: int|
                0 <= i < self.bodies.len() && (#[trigger] self.bodies[i]).handle == h)
        &&& (forall|i: int, j: int|
            0 <= i < self.colliders.len() && 0 <= j < self.colliders.len() && i != j ==> (
            #[trigger] self.colliders[i]).handle != (#[trigger] self.colliders[j]).handle)
        &&& (forall|i: int|
            0 <= i < self.colliders.len() ==> eng_colliders(self.engine).dom().contains(
                (#[trigger] self.colliders[i]).handle,
            ) && eng_colliders(self.engine)[self.colliders[i].handle]
                == self.colliders[i].parent && eng_bodies(self.engine).dom().contains(
                self.colliders[i].parent,
            ))
        &&& (forall|ch: ColliderHandle|
            #[trigger] eng_colliders(self.engine).dom().contains(ch) ==> exists|j: int|
                0 <= j < self.colliders.len() && (#[trigger] self.colliders[j]).handle == ch)
    }

    /// Some registered body carries this external identifier.
    pub open spec fn has_body_id(self, id: Seq<char>) -> bool {
        exists|i: int| 0 <= i < self.bodies.len() && (#[trigger] self.bodies[i]).id == id
    }

    /// Some registered body carries this handle.
    pub open spec fn has_body_handle(self, h: BodyHandle) -> bool {
        exists|i: int| 0 <= i < self.bodies.len() && (#[trigger] self.bodies[i]).handle == h
    }

    /// Some attached collider carries this handle.
    pub open spec fn has_collider(self, ch: ColliderHandle) -> bool {
        exists|i: int| 0 <= i < self.colliders.len() && (#[trigger] self.colliders[i]).handle == ch
    }

    /// The record registered under this external identifier (meaningful under
    /// `has_body_id`; unique under `wf`).
    pub open spec fn body_by_id(self, id: Seq<char>) -> BodyRec {
        self.bodies[choose|i: int|
            0 <= i < self.bodies.len() && (#[trigger] self.bodies[i]).id == id]
    }

    /// The record registered under this handle (meaningful under
    /// `has_body_handle`; unique under `wf`).
    pub open spec fn body_by_handle(self, h: BodyHandle) -> BodyRec {
        self.bodies[choose|i: int|
            0 <= i < self.bodies.len() && (#[trigger] self.bodies[i]).handle == h]
    }

    /// The collider entry registered under this handle (meaningful under
    /// `has_collider`; unique under `wf`).
    pub open spec fn collider_by_handle(self, ch: ColliderHandle) -> ColliderEntry {
        self.colliders[choose|i: int|
            0 <= i < self.colliders.len() && (#[trigger] self.colliders[i]).handle == ch]
    }
}

/// The body records without the one holding handle `h`.
pub open spec fn bodies_without_handle(s: Seq<BodyRec>, h: BodyHandle) -> Seq<BodyRec> {
    s.filter(|b: BodyRec| b.handle != h)
}

/// The collider entries without those parented to body `h`.
pub open spec fn colliders_not_parented(s: Seq<ColliderEntry>, h: BodyHandle) -> Seq<ColliderEntry> {
    s.filter(|c: ColliderEntry| c.parent != h)
}

/// The collider entries without the one holding handle `ch`.
pub open spec fn colliders_without_handle(
    s: Seq<ColliderEntry>,
    ch: ColliderHandle,
) -> Seq<ColliderEntry> {
    s.filter(|c: ColliderEntry| c.handle != ch)
}

/// Registration of a body: idempotent for an already-registered external
/// identifier, otherwise a fresh engine insertion plus one table row.
pub open spec fn apply_add_body(m: StateModel, id: Seq<char>, kind: BodyKind, pose: Iso) -> (
    StateModel,
    BodyHandle,
) {
    if m.has_body_id(id) {
        (m, m.body_by_id(id).handle)
    } else {
        let h = eng_new_body_handle(m.engine, kind, pose);
        (
            StateModel {
                engine: eng_with_body(m.engine, kind, pose),
                bodies: m.bodies.push(BodyRec { id, handle: h, kind }),
                colliders: m.colliders,
            },
            h,
        )
    }
}

/// Removal of a body: a no-op on a stale handle, otherwise the body's row,
/// its engine entry, and every collider parented to it leave the state.
pub open spec fn apply_remove_body(m: StateModel, h: BodyHandle) -> StateModel {
    if m.has_body_handle(h) {
        StateModel {
            engine: eng_without_body(m.engine, h),
            bodies: bodies_without_handle(m.bodies, h),
            colliders: colliders_not_parented(m.colliders, h),
        }
    } else {
        m
    }
}

/// Attachment of a collider: refused on an unregistered parent, otherwise a
/// fresh engine insertion plus one table row.
pub open spec fn apply_attach(
    m: StateModel,
    shape: SharedShape,
    material: Material,
    local_pose: Iso,
    parent: BodyHandle,
) -> (StateModel, Option<ColliderHandle>) {
    if m.has_body_handle(parent) {
        let ch = eng_new_collider_handle(m.engine, shape, material, local_pose, parent);
        (
            StateModel {
                engine: eng_with_collider(m.engine, shape, material, local_pose, parent),
                bodies: m.bodies,
                colliders: m.colliders.push(
                    ColliderEntry { handle: ch, parent, material, local_pose },
                ),
            },
            Some(ch),
        )
    } else {
        (m, None)
    }
}

/// Removal of a collider: a no-op on a stale handle, otherwise its row and
/// engine entry leave the state and the row is returned.
pub open spec fn apply_detach(m: StateModel, ch: ColliderHandle) -> (
    StateModel,
    Option<ColliderEntry>,
) {
    if m.has_collider(ch) {
        (
            StateModel {
                engine: eng_without_collider(m.engine, ch),
                bodies: m.bodies,
                colliders: colliders_without_handle(m.colliders, ch),
            },
            Some(m.collider_by_handle(ch)),
        )
    } else {
        (m, None)
    }
}

/// One fixed timestep: the engine advances; the registration tables do not
/// change.
pub open spec fn apply_step(m: StateModel) -> StateModel {
    StateModel { engine: eng_stepped(m.engine), bodies: m.bodies, colliders: m.colliders }
}

/// One complete, value-typed simulation snapshot.
pub struct PhysicsState {
    engine: EngineState,
    bodies: Vec<BodyEntry>,
    colliders: Vec<ColliderEntry>,
}

impl View for PhysicsState {
    type V = StateModel;

    closed spec fn view(&self) -> StateModel {
        StateModel {
            engine: self.engine,
            bodies: self.bodies@.map_values(|b: BodyEntry| b@),
            colliders: self.colliders@,
        }
    }
}

impl PhysicsState {
    /// The empty snapshot: no bodies, no colliders, the given gravity, the
    /// engine's default fixed timestep.
    pub fn new(gravity: V3) -> (r: PhysicsState)
        ensures
            r@.wf(),
            r@.bodies.len() == 0,
            r@.colliders.len() == 0,
            no_bodies(r@.engine),
            no_colliders(r@.engine),
            eng_gravity(r@.engine) == gravity,
    {
        let r = PhysicsState { engine: eng_new(gravity), bodies: Vec::new(), colliders: Vec::new() };
        proof {
            assert(eng_bodies(r@.engine).dom() =~= Set::empty());
            assert(eng_colliders(r@.engine).dom() =~= Set::empty());
        }
        r
    }

    /// An exact copy: the clone is the same snapshot value.
    pub fn duplicate(&self) -> (r: PhysicsState)
        ensures
            r@ == self@,
    {
        let engine = eng_clone(&self.engine);
        let bodies = self.bodies.clone();
        let colliders = self.colliders.clone();
        proof {
            assert forall|i: int| 0 <= i < bodies@.len() implies bodies@[i] == self.bodies@[i] by {
                assert(cloned::<BodyEntry>(self.bodies@[i], bodies@[i]));
            }
            assert(bodies@ =~= self.bodies@);
            assert forall|i: int|
                0 <= i < colliders@.len() implies colliders@[i] == self.colliders@[i] by {
                assert(cloned::<ColliderEntry>(self.colliders@[i], colliders@[i]));
            }
            assert(colliders@ =~= self.colliders@);
        }
        let r = PhysicsState { engine, bodies, colliders };
        proof {
            assert(r@ =~= self@);
        }
        r
    }

    /// The index of the body registered under `id`, if any.
    fn find_body_by_id(&self, id: &String) -> (r: Option<usize>)
        ensures
            (r matches Some(i) ==> i < self.bodies@.len() && self.bodies@[i as int]@.id == id@),
            (r is None ==> forall|j: int|
                0 <= j < self.bodies@.len() ==> (#[trigger] self.bodies@[j])@.id != id@),
    {
        let mut i: usize = 0;
        while i < self.bodies.len()
            invariant
                i <= self.bodies@.len(),
                forall|j: int| 0 <= j < i ==> (#[trigger] self.bodies@[j])@.id != id@,
            decreases self.bodies@.len() - i,
        {
            if self.bodies[i].id == *id {
                return Some(i);
            }
            i = i + 1;
        }
        None
    }

    /// The index of the body registered under handle `h`, if any.
    fn find_body_by_handle(&self, h: BodyHandle) -> (r: Option<usize>)
        ensures
            (r matches Some(i) ==> i < self.bodies@.len() && self.bodies@[i as int]@.handle == h),
            (r is None ==> forall|j: int|
                0 <= j < self.bodies@.len() ==> (#[trigger] self.bodies@[j])@.handle != h),
    {
        let mut i: usize = 0;
        while i < self.bodies.len()
            invariant
                i <= self.bodies@.len(),
                forall|j: int| 0 <= j < i ==> (#[trigger] self.bodies@[j])@.handle != h,
            decreases self.bodies@.len() - i,
        {
            if self.bodies[i].handle == h {
                return Some(i);
            }
            i = i + 1;
        }
        None
    }

    /// The index of the collider registered under handle `ch`, if any.
    fn find_collider_by_handle(&self, ch: ColliderHandle) -> (r: Option<usize>)
        ensures
            (r matches Some(i) ==> i < self.colliders@.len() && self.colliders@[i as int].handle
                == ch),
            (r is None ==> forall|j: int|
                0 <= j < self.colliders@.len() ==> (#[trigger] self.colliders@[j]).handle != ch),
    {
        let mut i: usize = 0;
        while i < self.colliders.len()
            invariant
                i <= self.colliders@.len(),
                forall|j: int| 0 <= j < i ==> (#[trigger] self.colliders@[j]).handle != ch,
            decreases self.colliders@.len() - i,
        {
            if self.colliders[i].handle == ch {
                return Some(i);
            }
            i = i + 1;
        }
        None
    }

    /// Register a body under an external identifier. Idempotent: a second
    /// registration under the same identifier returns the existing handle
    /// and changes nothing.
    pub fn add_body(&mut self, id: String, kind: BodyKind, pose: Iso) -> (h: BodyHandle)
        requires
            old(self)@.wf(),
        ensures
            final(self)@.wf(),
            final(self)@ == apply_add_body(old(self)@, id@, kind, pose).0,
            h == apply_add_body(old(self)@, id@, kind, pose).1,
            !old(self)@.has_body_id(id@) ==> eng_bodies(final(self)@.engine) == eng_bodies(
                old(self)@.engine,
            ).insert(h, BodyModel { kind, pose, linvel: v3_zero(), angvel: v3_zero() }),
    {
        match self.find_body_by_id(&id) {
            Some(i) => {
                let h = self.bodies[i].handle;
                proof {
                    assert(self@.bodies[i as int] == self.bodies@[i as int]@);
                    assert(self@.bodies[i as int].id == id@);
                    assert(self@.has_body_id(id@));
                    let gi = choose|k: int|
                        0 <= k < self@.bodies.len() && (#[trigger] self@.bodies[k]).id == id@;
                    assert(gi == i as int);
                }
                h
            },
            None => {
                let h = eng_insert_body(&mut self.engine, kind, pose);
                self.bodies.push(BodyEntry { id, handle: h, kind });
                proof {
                    let prev = old(self)@;
                    let cur = self@;
                    assert forall|k: int|
                        0 <= k < prev.bodies.len() implies (#[trigger] prev.bodies[k]).id
                            != id@ by {
                        assert(prev.bodies[k] == old(self).bodies@[k]@);
                    }
                    assert(!prev.has_body_id(id@));
                    assert(cur.bodies =~= prev.bodies.push(BodyRec { id: id@, handle: h, kind }));
                    assert(cur.colliders =~= prev.colliders);
                    assert(cur == apply_add_body(prev, id@, kind, pose).0);
                    assert forall|i: int, j: int|
                        0 <= i < cur.bodies.len() && 0 <= j < cur.bodies.len() && i != j implies (
                    #[trigger] cur.bodies[i]).handle != (#[trigger] cur.bodies[j]).handle by {
                        if i < prev.bodies.len() && j < prev.bodies.len() {
                        } else if i == prev.bodies.len() {
                            assert(eng_bodies(prev.engine).dom().contains(cur.bodies[j].handle));
                        } else {
                            assert(eng_bodies(prev.engine).dom().contains(cur.bodies[i].handle));
                        }
                    }
                    assert forall|hh: BodyHandle|
                        #[trigger] eng_bodies(cur.engine).dom().contains(hh) implies exists|i: int|
                        0 <= i < cur.bodies.len() && (#[trigger] cur.bodies[i]).handle == hh by {
                        if hh == h {
                            assert(cur.bodies[cur.bodies.len() - 1].handle == hh);
                        } else {
                            assert(eng_bodies(prev.engine).dom().contains(hh));
                            let i = choose|i: int|
                                0 <= i < prev.bodies.len() && (#[trigger] prev.bodies[i]).handle
                                    == hh;
                            assert(cur.bodies[i].handle == hh);
                        }
                    }
                    assert(cur.wf());
                }
                h
            },
        }
    }

    /// Unregister a body: idempotent on a stale handle; otherwise the body
    /// and every collider parented to it leave the snapshot.
    pub fn remove_body(&mut self, h: BodyHandle)
        requires
            old(self)@.wf(),
        ensures
            final(self)@.wf(),
            final(self)@ == apply_remove_body(old(self)@, h),
    {
        match self.find_body_by_handle(h) {
            None => {
                proof {
                    assert forall|k: int|
                        0 <= k < old(self)@.bodies.len() implies (
                    #[trigger] old(self)@.bodies[k]).handle != h by {
                        assert(old(self)@.bodies[k] == self.bodies@[k]@);
                    }
                    assert(!old(self)@.has_body_handle(h));
                }
            },
            Some(i) => {
                proof {
                    assert(old(self)@.bodies[i as int] == self.bodies@[i as int]@);
                    assert(old(self)@.bodies[i as int].handle == h);
                    assert(old(self)@.has_body_handle(h));
                }
                eng_remove_body(&mut self.engine, h);
                let ghost prev = old(self)@;
                let mut kept_bodies: Vec<BodyEntry> = Vec::new();
                let mut j: usize = 0;
                while j < self.bodies.len()
                    invariant
                        j <= self.bodies@.len(),
                        self.bodies@ == old(self).bodies@,
                        kept_bodies@.map_values(|b: BodyEntry| b@) =~= bodies_without_handle(
                            prev.bodies.subrange(0, j as int),
                            h,
                        ),
                        prev.bodies == self.bodies@.map_values(|b: BodyEntry| b@),
                    decreases self.bodies@.len() - j,
                {
                    let ghost pre = kept_bodies@.map_values(|b: BodyEntry| b@);
                    if !(self.bodies[j].handle == h) {
                        kept_bodies.push(self.bodies[j].clone());
                    }
                    proof {
                        lemma_filter_step_body(prev.bodies, h, j as int);
                        assert(kept_bodies@.map_values(|b: BodyEntry| b@) =~= (if prev.bodies[
                            j as int].handle != h {
                            pre.push(prev.bodies[j as int])
                        } else {
                            pre
                        }));
                    }
                    j = j + 1;
                }
                proof {
                    assert(prev.bodies.subrange(0, prev.bodies.len() as int) =~= prev.bodies);
                }
                self.bodies = kept_bodies;
                let mut kept: Vec<ColliderEntry> = Vec::new();
                let mut k: usize = 0;
                while k < self.colliders.len()
                    invariant
                        k <= self.colliders@.len(),
                        self.colliders@ == old(self).colliders@,
                        kept@ =~= colliders_not_parented(prev.colliders.subrange(0, k as int), h),
                        prev.colliders == self.colliders@,
                    decreases self.colliders@.len() - k,
                {
                    let ghost pre = kept@;
                    if !(self.colliders[k].parent == h) {
                        kept.push(self.colliders[k]);
                    }
                    proof {
                        lemma_filter_step_collider_parent(prev.colliders, h, k as int);
                        assert(kept@ =~= (if prev.colliders[k as int].parent != h {
                            pre.push(prev.colliders[k as int])
                        } else {
                            pre
                        }));
                    }
                    k = k + 1;
                }
                proof {
                    assert(prev.colliders.subrange(0, prev.colliders.len() as int)
                        =~= prev.colliders);
                }
                self.colliders = kept;
                proof {
                    lemma_remove_body_wf(prev, h, self@.engine);
                    assert(self@ =~= apply_remove_body(prev, h));
                }
            },
        }
    }

    /// Attach a collider to a registered body. Fails (returns `None`,
    /// changing nothing) when the parent handle is not registered.
    pub fn attach_collider(
        &mut self,
        shape: &SharedShape,
        material: Material,
        local_pose: Iso,
        parent: BodyHandle,
    ) -> (r: Option<ColliderHandle>)
        requires
            old(self)@.wf(),
        ensures
            final(self)@.wf(),
            final(self)@ == apply_attach(old(self)@, *shape, material, local_pose, parent).0,
            r == apply_attach(old(self)@, *shape, material, local_pose, parent).1,
    {
        match self.find_body_by_handle(parent) {
            None => {
                proof {
                    assert forall|k: int|
                        0 <= k < old(self)@.bodies.len() implies (
                    #[trigger] old(self)@.bodies[k]).handle != parent by {
                        assert(old(self)@.bodies[k] == self.bodies@[k]@);
                    }
                    assert(!old(self)@.has_body_handle(parent));
                }
                None
            },
            Some(i) => {
                proof {
                    assert(old(self)@.bodies[i as int] == self.bodies@[i as int]@);
                    assert(old(self)@.bodies[i as int].handle == parent);
                    assert(old(self)@.has_body_handle(parent));
                }
                let ch = eng_attach_collider(&mut self.engine, shape, material, local_pose, parent);
                self.colliders.push(ColliderEntry { handle: ch, parent, material, local_pose });
                proof {
                    let prev = old(self)@;
                    let cur = self@;
                    assert(cur.colliders =~= prev.colliders.push(
                        ColliderEntry { handle: ch, parent, material, local_pose },
                    ));
                    assert(cur.bodies =~= prev.bodies);
                    assert(cur == apply_attach(prev, *shape, material, local_pose, parent).0);
                    assert forall|p: int, q: int|
                        0 <= p < cur.colliders.len() && 0 <= q < cur.colliders.len() && p
                            != q implies (#[trigger] cur.colliders[p]).handle != (
                    #[trigger] cur.colliders[q]).handle by {
                        if p < prev.colliders.len() && q < prev.colliders.len() {
                        } else if p == prev.colliders.len() {
                            assert(eng_colliders(prev.engine).dom().contains(
                                cur.colliders[q].handle,
                            ));
                        } else {
                            assert(eng_colliders(prev.engine).dom().contains(
                                cur.colliders[p].handle,
                            ));
                        }
                    }
                    assert forall|c2: ColliderHandle|
                        #[trigger] eng_colliders(cur.engine).dom().contains(c2) implies exists|
                        j: int,
                    |
                        0 <= j < cur.colliders.len() && (#[trigger] cur.colliders[j]).handle
                            == c2 by {
                        if c2 == ch {
                            assert(cur.colliders[cur.colliders.len() - 1].handle == c2);
                        } else {
                            assert(eng_colliders(prev.engine).dom().contains(c2));
                            let j = choose|j: int|
                                0 <= j < prev.colliders.len() && (
                                #[trigger] prev.colliders[j]).handle == c2;
                            assert(cur.colliders[j].handle == c2);
                        }
                    }
                    assert(cur.wf());
                }
                Some(ch)
            },
        }
    }

    /// Detach a collider: a no-op returning `None` on a stale handle;
    /// otherwise the removed entry comes back, so the caller can recompute
    /// what depended on it.
    pub fn remove_collider(&mut self, ch: ColliderHandle) -> (r: Option<ColliderEntry>)
        requires
            old(self)@.wf(),
        ensures
            final(self)@.wf(),
            final(self)@ == apply_detach(old(self)@, ch).0,
            r == apply_detach(old(self)@, ch).1,
    {
        match self.find_collider_by_handle(ch) {
            None => {
                proof {
                    assert(!old(self)@.has_collider(ch));
                }
                None
            },
            Some(i) => {
                let entry = self.colliders[i];
                proof {
                    assert(old(self)@.colliders[i as int].handle == ch);
                    assert(old(self)@.has_collider(ch));
                    let gi = choose|k: int|
                        0 <= k < old(self)@.colliders.len() && (
                        #[trigger] old(self)@.colliders[k]).handle == ch;
                    assert(gi == i as int);
                }
                eng_detach_collider(&mut self.engine, ch);
                let ghost prev = old(self)@;
                let mut kept: Vec<ColliderEntry> = Vec::new();
                let mut k: usize = 0;
                while k < self.colliders.len()
                    invariant
                        k <= self.colliders@.len(),
                        self.colliders@ == old(self).colliders@,
                        kept@ =~= colliders_without_handle(prev.colliders.subrange(0, k as int), ch),
                        prev.colliders == self.colliders@,
                    decreases self.colliders@.len() - k,
                {
                    let ghost pre = kept@;
                    if !(self.colliders[k].handle == ch) {
                        kept.push(self.colliders[k]);
                    }
                    proof {
                        lemma_filter_step_collider_handle(prev.colliders, ch, k as int);
                        assert(kept@ =~= (if prev.colliders[k as int].handle != ch {
                            pre.push(prev.colliders[k as int])
                        } else {
                            pre
                        }));
                    }
                    k = k + 1;
                }
                proof {
                    assert(prev.colliders.subrange(0, prev.colliders.len() as int)
                        =~= prev.colliders);
                }
                self.colliders = kept;
                proof {
                    lemma_remove_collider_wf(prev, ch, self@.engine);
                    assert(self@ =~= apply_detach(prev, ch).0);
                }
                Some(entry)
            },
        }
    }

    /// The next tick's snapshot: this snapshot advanced by one fixed
    /// timestep. The registration tables carry over unchanged.
    pub fn stepped(&self) -> (r: PhysicsState)
        requires
            self@.wf(),
        ensures
            r@.wf(),
            r@ == apply_step(self@),
            eng_bodies(r@.engine).dom() == eng_bodies(self@.engine).dom(),
            forall|h: BodyHandle|
                eng_bodies(self@.engine).dom().contains(h) ==> (#[trigger] eng_bodies(
                    r@.engine,
                )[h]).kind == eng_bodies(self@.engine)[h].kind,
            forall|h: BodyHandle|
                eng_bodies(self@.engine).dom().contains(h) && eng_bodies(self@.engine)[h].kind
                    == BodyKind::Fixed ==> #[trigger] eng_bodies(r@.engine)[h] == eng_bodies(
                    self@.engine,
                )[h],
    {
        let mut r = self.duplicate();
        eng_step(&mut r.engine);
        proof {
            let prev = self@;
            let cur = r@;
            assert(cur.bodies == prev.bodies);
            assert(cur.colliders == prev.colliders);
            assert(cur =~= apply_step(prev));
            assert forall|i: int|
                0 <= i < cur.bodies.len() implies eng_bodies(cur.engine).dom().contains(
                (#[trigger] cur.bodies[i]).handle,
            ) && eng_bodies(cur.engine)[cur.bodies[i].handle].kind == cur.bodies[i].kind by {
                assert(eng_bodies(prev.engine).dom().contains(prev.bodies[i].handle));
            }
            assert forall|hh: BodyHandle|
                #[trigger] eng_bodies(cur.engine).dom().contains(hh) implies exists|i: int|
                0 <= i < cur.bodies.len() && (#[trigger] cur.bodies[i]).handle == hh by {
                assert(eng_bodies(prev.engine).dom().contains(hh));
            }
            assert(cur.wf());
        }
        r
    }

    /// What the engine records of a body: `None` on a stale handle.
    pub fn body_model(&self, h: BodyHandle) -> (r: Option<BodyModel>)
        ensures
            r == (if eng_bodies(self@.engine).dom().contains(h) {
                Some(eng_bodies(self@.engine)[h])
            } else {
                Option::<BodyModel>::None
            }),
    {
        eng_body_model(&self.engine, h)
    }

    /// The engine-derived mass of a live body, as a scalar bit pattern.
    pub fn mass_bits(&self, h: BodyHandle) -> (r: u32)
        requires
            eng_bodies(self@.engine).dom().contains(h),
        ensures
            r == mass_of(self@.engine, h),
    {
        eng_mass_bits(&self.engine, h)
    }

    /// Add to a body's force accumulator. Reports whether the handle was
    /// live; a stale handle changes nothing.
    pub fn add_force(&mut self, h: BodyHandle, force: V3) -> (ok: bool)
        requires
            old(self)@.wf(),
        ensures
            final(self)@.wf(),
            ok <==> eng_bodies(old(self)@.engine).dom().contains(h),
            ok ==> final(self)@ == (StateModel {
                engine: eng_with_force(old(self)@.engine, h, force),
                ..old(self)@
            }),
            ok ==> eng_bodies(final(self)@.engine) == eng_bodies(old(self)@.engine)
                && eng_colliders(final(self)@.engine) == eng_colliders(old(self)@.engine),
            !ok ==> final(self)@ == old(self)@,
    {
        match eng_body_model(&self.engine, h) {
            None => false,
            Some(_) => {
                eng_add_force(&mut self.engine, h, force);
                proof {
                    assert(self@ =~= (StateModel {
                        engine: eng_with_force(old(self)@.engine, h, force),
                        ..old(self)@
                    }));
                    assert(self@.bodies == old(self)@.bodies);
                    assert(self@.colliders == old(self)@.colliders);
                    assert(eng_bodies(self@.engine) == eng_bodies(old(self)@.engine));
                    assert(eng_colliders(self@.engine) == eng_colliders(old(self)@.engine));
                    assert(self@.wf());
                }
                true
            },
        }
    }

    /// Add to a body's torque accumulator. Reports whether the handle was
    /// live; a stale handle changes nothing.
    pub fn add_torque(&mut self, h: BodyHandle, torque: V3) -> (ok: bool)
        requires
            old(self)@.wf(),
        ensures
            final(self)@.wf(),
            ok <==> eng_bodies(old(self)@.engine).dom().contains(h),
            ok ==> final(self)@ == (StateModel {
                engine: eng_with_torque(old(self)@.engine, h, torque),
                ..old(self)@
            }),
            ok ==> eng_bodies(final(self)@.engine) == eng_bodies(old(self)@.engine)
                && eng_colliders(final(self)@.engine) == eng_colliders(old(self)@.engine),
            !ok ==> final(self)@ == old(self)@,
    {
        match eng_body_model(&self.engine, h) {
            None => false,
            Some(_) => {
                eng_add_torque(&mut self.engine, h, torque);
                proof {
                    assert(self@ =~= (StateModel {
                        engine: eng_with_torque(old(self)@.engine, h, torque),
                        ..old(self)@
                    }));
                    assert(self@.bodies == old(self)@.bodies);
                    assert(self@.colliders == old(self)@.colliders);
                    assert(eng_bodies(self@.engine) == eng_bodies(old(self)@.engine));
                    assert(eng_colliders(self@.engine) == eng_colliders(old(self)@.engine));
                    assert(self@.wf());
                }
                true
            },
        }
    }

    /// Apply a linear impulse to a live body: its velocity changes at once;
    /// no body moves and no other body is touched.
    pub fn apply_impulse(&mut self, h: BodyHandle, impulse: V3) -> (ok: bool)
        requires
            old(self)@.wf(),
        ensures
            final(self)@.wf(),
            ok <==> eng_bodies(old(self)@.engine).dom().contains(h),
            ok ==> final(self)@ == (StateModel {
                engine: eng_with_impulse(old(self)@.engine, h, impulse),
                ..old(self)@
            }),
            ok ==> eng_bodies(final(self)@.engine).dom() == eng_bodies(old(self)@.engine).dom()
                && eng_colliders(final(self)@.engine) == eng_colliders(old(self)@.engine),
            ok ==> forall|h2: BodyHandle|
                eng_bodies(old(self)@.engine).dom().contains(h2) ==> {
                    &&& (#[trigger] eng_bodies(final(self)@.engine)[h2]).kind == eng_bodies(
                        old(self)@.engine,
                    )[h2].kind
                    &&& eng_bodies(final(self)@.engine)[h2].pose == eng_bodies(
                        old(self)@.engine,
                    )[h2].pose
                    &&& (h2 != h ==> eng_bodies(final(self)@.engine)[h2] == eng_bodies(
                        old(self)@.engine,
                    )[h2])
                },
            !ok ==> final(self)@ == old(self)@,
    {
        match eng_body_model(&self.engine, h) {
            None => false,
            Some(_) => {
                eng_apply_impulse(&mut self.engine, h, impulse);
                proof {
                    assert(self@ =~= (StateModel {
                        engine: eng_with_impulse(old(self)@.engine, h, impulse),
                        ..old(self)@
                    }));
                    let prev = old(self)@;
                    let cur = self@;
                    assert(cur.bodies == prev.bodies);
                    assert(cur.colliders == prev.colliders);
                    assert(eng_colliders(cur.engine) == eng_colliders(prev.engine));
                    assert forall|i: int|
                        0 <= i < cur.bodies.len() implies eng_bodies(cur.engine).dom().contains(
                        (#[trigger] cur.bodies[i]).handle,
                    ) && eng_bodies(cur.engine)[cur.bodies[i].handle].kind
                        == cur.bodies[i].kind by {
                        assert(eng_bodies(prev.engine).dom().contains(cur.bodies[i].handle));
                    }
                    assert forall|hh: BodyHandle|
                        #[trigger] eng_bodies(cur.engine).dom().contains(hh) implies exists|i: int|
                        0 <= i < cur.bodies.len() && (#[trigger] cur.bodies[i]).handle == hh by {
                        assert(eng_bodies(prev.engine).dom().contains(hh));
                    }
                    assert forall|i: int|
                        0 <= i < cur.colliders.len() implies eng_colliders(
                        cur.engine,
                    ).dom().contains((#[trigger] cur.colliders[i]).handle) && eng_colliders(
                        cur.engine,
                    )[cur.colliders[i].handle] == cur.colliders[i].parent && eng_bodies(
                        cur.engine,
                    ).dom().contains(cur.colliders[i].parent) by {
                        assert(eng_bodies(prev.engine).dom().contains(cur.colliders[i].parent));
                    }
                    assert(cur.wf());
                }
                true
            },
        }
    }

    /// Apply an angular impulse to a live body.
    pub fn apply_torque_impulse(&mut self, h: BodyHandle, impulse: V3) -> (ok: bool)
        requires
            old(self)@.wf(),
        ensures
            final(self)@.wf(),
            ok <==> eng_bodies(old(self)@.engine).dom().contains(h),
            ok ==> final(self)@ == (StateModel {
                engine: eng_with_torque_impulse(old(self)@.engine, h, impulse),
                ..old(self)@
            }),
            ok ==> eng_bodies(final(self)@.engine).dom() == eng_bodies(old(self)@.engine).dom()
                && eng_colliders(final(self)@.engine) == eng_colliders(old(self)@.engine),
            ok ==> forall|h2: BodyHandle|
                eng_bodies(old(self)@.engine).dom().contains(h2) ==> {
                    &&& (#[trigger] eng_bodies(final(self)@.engine)[h2]).kind == eng_bodies(
                        old(self)@.engine,
                    )[h2].kind
                    &&& eng_bodies(final(self)@.engine)[h2].pose == eng_bodies(
                        old(self)@.engine,
                    )[h2].pose
                    &&& (h2 != h ==> eng_bodies(final(self)@.engine)[h2] == eng_bodies(
                        old(self)@.engine,
                    )[h2])
                },
            !ok ==> final(self)@ == old(self)@,
    {
        match eng_body_model(&self.engine, h) {
            None => false,
            Some(_) => {
                eng_apply_torque_impulse(&mut self.engine, h, impulse);
                proof {
                    assert(self@ =~= (StateModel {
                        engine: eng_with_torque_impulse(old(self)@.engine, h, impulse),
                        ..old(self)@
                    }));
                    let prev = old(self)@;
                    let cur = self@;
                    assert(cur.bodies == prev.bodies);
                    assert(cur.colliders == prev.colliders);
                    assert(eng_colliders(cur.engine) == eng_colliders(prev.engine));
                    assert forall|i: int|
                        0 <= i < cur.bodies.len() implies eng_bodies(cur.engine).dom().contains(
                        (#[trigger] cur.bodies[i]).handle,
                    ) && eng_bodies(cur.engine)[cur.bodies[i].handle].kind
                        == cur.bodies[i].kind by {
                        assert(eng_bodies(prev.engine).dom().contains(cur.bodies[i].handle));
                    }
                    assert forall|hh: BodyHandle|
                        #[trigger] eng_bodies(cur.engine).dom().contains(hh) implies exists|i: int|
                        0 <= i < cur.bodies.len() && (#[trigger] cur.bodies[i]).handle == hh by {
                        assert(eng_bodies(prev.engine).dom().contains(hh));
                    }
                    assert forall|i: int|
                        0 <= i < cur.colliders.len() implies eng_colliders(
                        cur.engine,
                    ).dom().contains((#[trigger] cur.colliders[i]).handle) && eng_colliders(
                        cur.engine,
                    )[cur.colliders[i].handle] == cur.colliders[i].parent && eng_bodies(
                        cur.engine,
                    ).dom().contains(cur.colliders[i].parent) by {
                        assert(eng_bodies(prev.engine).dom().contains(cur.colliders[i].parent));
                    }
                    assert(cur.wf());
                }
                true
            },
        }
    }

    /// The external identifiers of the dynamic bodies with a collider
    /// overlapping the given sphere, deduplicated by body, in the engine's
    /// query order.
    #[verifier::loop_isolation(false)]
    pub fn sphere_query(&self, center: V3, radius: u32) -> (r: Vec<String>)
        requires
            self@.wf(),
        ensures
            r.deep_view() == resolve_hits(
                self@,
                sphere_hits_of(self@.engine, center, radius),
                Set::empty(),
            ),
            ids_sound(self@, r.deep_view()),
            ids_distinct(r.deep_view()),
    {
        let hits = eng_sphere_hits(&self.engine, center, radius);
        let mut out: Vec<String> = Vec::new();
        let mut seen: Vec<BodyHandle> = Vec::new();
        let ghost m = self@;
        let ghost all = hits@;
        let mut i: usize = 0;
        proof {
            assert(all.skip(0) =~= all);
            assert(seen@.to_set() =~= Set::<BodyHandle>::empty());
            assert(out.deep_view() =~= Seq::<Seq<char>>::empty());
            assert(out.deep_view() + resolve_hits(m, all, Set::empty()) =~= resolve_hits(
                m,
                all,
                Set::empty(),
            ));
        }
        while i < hits.len()
            invariant
                i <= all.len(),
                resolve_hits(m, all, Set::empty()) == out.deep_view() + resolve_hits(
                    m,
                    all.skip(i as int),
                    seen@.to_set(),
                ),
                forall|k: int|
                    0 <= k < out.deep_view().len() ==> exists|b: int|
                        0 <= b < m.bodies.len() && (#[trigger] m.bodies[b]).id == (
                        #[trigger] out.deep_view()[k]) && m.bodies[b].kind == BodyKind::Dynamic
                            && seen@.contains(m.bodies[b].handle),
                forall|p: int, q: int|
                    0 <= p < q < out.deep_view().len() ==> (#[trigger] out.deep_view()[p]) != (
                    #[trigger] out.deep_view()[q]),
            decreases all.len() - i,
        {
            let ch = hits[i];
            let parent = match self.find_collider_by_handle(ch) {
                Some(ci) => self.colliders[ci].parent,
                None => {
                    proof {
                        assert(eng_colliders(m.engine).dom().contains(ch));
                        let j = choose|j: int|
                            0 <= j < m.colliders.len() && (#[trigger] m.colliders[j]).handle == ch;
                        assert(self.colliders@[j].handle == ch);
                        assert(false);
                    }
                    unreached()
                },
            };
            proof {
                assert(parent == eng_colliders(m.engine)[ch]);
            }
            let ghost pre_seen_seq = seen@;
            let ghost pre_seen = seen@.to_set();
            let ghost pre_out = out.deep_view();
            if !contains_handle(&seen, parent) {
                proof {
                    assert(!pre_seen.contains(parent));
                }
                let entry_id = match self.find_body_by_handle(parent) {
                    Some(bi) => {
                        proof {
                            assert(m.bodies[bi as int] == self.bodies@[bi as int]@);
                            assert(m.bodies[bi as int].handle == parent);
                            let gb = choose|b: int|
                                0 <= b < m.bodies.len() && (#[trigger] m.bodies[b]).handle
                                    == parent;
                            assert(gb == bi as int);
                            assert(m.body_by_handle(parent) == m.bodies[bi as int]);
                            assert(eng_bodies(m.engine)[parent].kind == BodyKind::Dynamic);
                        }
                        self.bodies[bi].id.clone()
                    },
                    None => {
                        proof {
                            assert(eng_bodies(m.engine).dom().contains(parent));
                            let b = choose|b: int|
                                0 <= b < m.bodies.len() && (#[trigger] m.bodies[b]).handle
                                    == parent;
                            assert(self.bodies@[b]@.handle == parent);
                            assert(false);
                        }
                        unreached()
                    },
                };
                out.push(entry_id);
                seen.push(parent);
                proof {
                    pre_seen_seq.lemma_push_to_set_commute(parent);
                    assert(seen@.to_set() =~= pre_seen.insert(parent));
                    assert(out.deep_view() =~= pre_out.push(m.body_by_handle(parent).id));
                    assert(seen@ == pre_seen_seq.push(parent));
                    assert forall|x: BodyHandle| pre_seen_seq.contains(x) implies seen@.contains(
                        x,
                    ) by {
                        let j = choose|j: int|
                            0 <= j < pre_seen_seq.len() && pre_seen_seq[j] == x;
                        assert(seen@[j] == x);
                    }
                    assert(seen@[seen@.len() - 1] == parent);
                    assert(seen@.contains(parent));
                    let nb = choose|b: int|
                        0 <= b < m.bodies.len() && (#[trigger] m.bodies[b]).handle == parent;
                    assert forall|p: int, q: int|
                        0 <= p < q < out.deep_view().len() implies (
                    #[trigger] out.deep_view()[p]) != (#[trigger] out.deep_view()[q]) by {
                        if q == out.deep_view().len() - 1 {
                            let bp = choose|b: int|
                                0 <= b < m.bodies.len() && (#[trigger] m.bodies[b]).id
                                    == pre_out[p] && m.bodies[b].kind == BodyKind::Dynamic
                                    && pre_seen_seq.contains(m.bodies[b].handle);
                            assert(!pre_seen_seq.contains(parent));
                            assert(m.bodies[bp].handle != parent);
                            assert(bp != nb);
                            assert(m.bodies[bp].id != m.bodies[nb].id);
                            assert(out.deep_view()[p] == pre_out[p]);
                            assert(out.deep_view()[q] == m.bodies[nb].id);
                        }
                    }
                    assert(all.skip(i as int)[0] == all[i as int]);
                    assert(all.skip(i as int).drop_first() =~= all.skip(i as int + 1));
                    assert(resolve_hits(m, all.skip(i as int), pre_seen) == seq![
                        m.body_by_handle(parent).id,
                    ] + resolve_hits(m, all.skip(i as int + 1), pre_seen.insert(parent)));
                    assert(pre_out + resolve_hits(m, all.skip(i as int), pre_seen) =~= out.deep_view()
                        + resolve_hits(m, all.skip(i as int + 1), seen@.to_set()));
                }
            } else {
                proof {
                    assert(pre_seen.contains(parent));
                    assert(all.skip(i as int)[0] == all[i as int]);
                    assert(all.skip(i as int).drop_first() =~= all.skip(i as int + 1));
                    assert(resolve_hits(m, all.skip(i as int), pre_seen) == resolve_hits(
                        m,
                        all.skip(i as int + 1),
                        pre_seen,
                    ));
                }
            }
            i = i + 1;
        }
        proof {
            assert(all.skip(all.len() as int) =~= Seq::<ColliderHandle>::empty());
            assert(out.deep_view() + resolve_hits(m, all.skip(all.len() as int), seen@.to_set())
                =~= out.deep_view());
            assert forall|k: int|
                0 <= k < out.deep_view().len() implies exists|i: int|
                0 <= i < m.bodies.len() && (#[trigger] m.bodies[i]).id == (
            #[trigger] out.deep_view()[k]) && m.bodies[i].kind == BodyKind::Dynamic by {
                let b = choose|b: int|
                    0 <= b < m.bodies.len() && (#[trigger] m.bodies[b]).id == (
                    #[trigger] out.deep_view()[k]) && m.bodies[b].kind == BodyKind::Dynamic
                        && seen@.contains(m.bodies[b].handle);
                assert(m.bodies[b].id == out.deep_view()[k]);
            }
            assert(ids_sound(m, out.deep_view()));
            assert(ids_distinct(out.deep_view()));
        }
        out
    }

    /// A one-shot ray cast from a registered body, excluding that body.
    /// A stale handle misses, like every lookup here.
    pub fn raycast_query(&self, from: BodyHandle, dir: V3, max_dist: u32) -> (r: RaycastResult)
        requires
            self@.wf(),
        ensures
            (r is Miss <==> raycast_model(self@, from, dir, max_dist) is None),
            (r matches RaycastResult::Hit { id, distance } ==> raycast_model(
                self@,
                from,
                dir,
                max_dist,
            ) matches Some(p) && id@ == p.0 && distance == p.1),
            (r matches RaycastResult::Hit { id, distance } ==> exists|i: int|
                0 <= i < self@.bodies.len() && (#[trigger] self@.bodies[i]).id == id@
                    && self@.bodies[i].handle != from),
            (self@.has_body_handle(from) && (forall|i: int|
                0 <= i < self@.colliders.len() ==> (#[trigger] self@.colliders[i]).parent == from)
                ==> r is Miss),
    {
        let ghost m = self@;
        match self.find_body_by_handle(from) {
            None => {
                proof {
                    assert forall|k: int|
                        0 <= k < m.bodies.len() implies (#[trigger] m.bodies[k]).handle != from by {
                        assert(m.bodies[k] == self.bodies@[k]@);
                    }
                    assert(!m.has_body_handle(from));
                }
                RaycastResult::Miss
            },
            Some(bi) => {
                proof {
                    assert(m.bodies[bi as int] == self.bodies@[bi as int]@);
                    assert(m.has_body_handle(from));
                    assert(eng_bodies(m.engine).dom().contains(from));
                    assert forall|ch: ColliderHandle|
                        (forall|i: int|
                            0 <= i < m.colliders.len() ==> (#[trigger] m.colliders[i]).parent
                                == from) && eng_colliders(m.engine).dom().contains(
                            ch,
                        ) implies #[trigger] eng_colliders(m.engine)[ch] == from by {
                        let j = choose|j: int|
                            0 <= j < m.colliders.len() && (#[trigger] m.colliders[j]).handle == ch;
                        assert(m.colliders[j].parent == from);
                    }
                }
                match eng_cast_ray(&self.engine, from, dir, max_dist) {
                    None => RaycastResult::Miss,
                    Some((ch, d)) => {
                        let parent = match self.find_collider_by_handle(ch) {
                            Some(ci) => self.colliders[ci].parent,
                            None => {
                                proof {
                                    let j = choose|j: int|
                                        0 <= j < m.colliders.len() && (
                                        #[trigger] m.colliders[j]).handle == ch;
                                    assert(self.colliders@[j].handle == ch);
                                    assert(false);
                                }
                                unreached()
                            },
                        };
                        proof {
                            assert(parent == eng_colliders(m.engine)[ch]);
                        }
                        match self.find_body_by_handle(parent) {
                            Some(pi) => {
                                proof {
                                    assert(m.bodies[pi as int] == self.bodies@[pi as int]@);
                                    let gb = choose|b: int|
                                        0 <= b < m.bodies.len() && (#[trigger] m.bodies[b]).handle
                                            == parent;
                                    assert(gb == pi as int);
                                    assert(m.body_by_handle(parent) == m.bodies[pi as int]);
                                }
                                RaycastResult::Hit { id: self.bodies[pi].id.clone(), distance: d }
                            },
                            None => {
                                proof {
                                    assert(eng_bodies(m.engine).dom().contains(parent));
                                    let b = choose|b: int|
                                        0 <= b < m.bodies.len() && (#[trigger] m.bodies[b]).handle
                                            == parent;
                                    assert(self.bodies@[b]@.handle == parent);
                                    assert(false);
                                }
                                unreached()
                            },
                        }
                    },
                }
            },
        }
    }

    /// A kinematic character sweep against this snapshot, excluding one body:
    /// a pure query whose result is a function of the snapshot and the
    /// arguments alone; the snapshot is not changed.
    pub fn sweep_query(
        &self,
        dt: u32,
        shape: &SharedShape,
        shape_pose: Iso,
        desired_translation: V3,
        exclude: BodyHandle,
    ) -> (r: EffectiveMovement)
        ensures
            r == sweep_of(self@.engine, dt, *shape, shape_pose, desired_translation, exclude),
    {
        eng_move_shape(&self.engine, dt, shape, shape_pose, desired_translation, exclude)
    }

    /// The current pose of every registered body, paired with its external
    /// identifier, in registration order: what a caller synchronizes its
    /// scene entities from after a step.
    #[verifier::loop_isolation(false)]
    pub fn poses(&self) -> (r: Vec<PoseSync>)
        requires
            self@.wf(),
        ensures
            r@.len() == self@.bodies.len(),
            forall|k: int|
                0 <= k < r@.len() ==> (#[trigger] r@[k]).id@ == self@.bodies[k].id && r@[k].pose
                    == eng_bodies(self@.engine)[self@.bodies[k].handle].pose,
    {
        let mut r: Vec<PoseSync> = Vec::new();
        let mut i: usize = 0;
        while i < self.bodies.len()
            invariant
                i <= self.bodies@.len(),
                r@.len() == i,
                forall|k: int|
                    0 <= k < i ==> (#[trigger] r@[k]).id@ == self@.bodies[k].id && r@[k].pose
                        == eng_bodies(self@.engine)[self@.bodies[k].handle].pose,
            decreases self.bodies@.len() - i,
        {
            proof {
                assert(self@.bodies[i as int] == self.bodies@[i as int]@);
            }
            let bm = match self.body_model(self.bodies[i].handle) {
                Some(bm) => bm,
                None => {
                    proof {
                        assert(false);
                    }
                    unreached()
                },
            };
            r.push(PoseSync { id: self.bodies[i].id.clone(), pose: bm.pose });
            i = i + 1;
        }
        r
    }
}

/// One body's pose keyed by its external identifier, for transform sync.
pub struct PoseSync {
    pub id: String,
    pub pose: Iso,
}

/// The external identifiers that resolving a query's collider hits yields:
/// each hit resolves to its parent body, bodies already seen are skipped,
/// and the rest map to their external identifiers in hit order.
pub open spec fn resolve_hits(
    m: StateModel,
    hits: Seq<ColliderHandle>,
    seen: Set<BodyHandle>,
) -> Seq<Seq<char>>
    decreases hits.len(),
{
    if hits.len() == 0 {
        Seq::empty()
    } else {
        let parent = eng_colliders(m.engine)[hits[0]];
        if seen.contains(parent) {
            resolve_hits(m, hits.drop_first(), seen)
        } else {
            seq![m.body_by_handle(parent).id] + resolve_hits(
                m,
                hits.drop_first(),
                seen.insert(parent),
            )
        }
    }
}

/// Every identifier in `ids` names a registered dynamic body of `m`.
pub open spec fn ids_sound(m: StateModel, ids: Seq<Seq<char>>) -> bool {
    forall|k: int|
        0 <= k < ids.len() ==> exists|i: int|
            0 <= i < m.bodies.len() && (#[trigger] m.bodies[i]).id == (#[trigger] ids[k])
                && m.bodies[i].kind == BodyKind::Dynamic
}

/// No identifier in `ids` occurs twice.
pub open spec fn ids_distinct(ids: Seq<Seq<char>>) -> bool {
    forall|p: int, q: int| 0 <= p < q < ids.len() ==> (#[trigger] ids[p]) != (#[trigger] ids[q])
}

/// What a ray cast returns at the model level: the external identifier of
/// the closest struck body with the distance, or nothing.
pub open spec fn raycast_model(m: StateModel, from: BodyHandle, dir: V3, max_dist: u32) -> Option<
    (Seq<char>, u32),
> {
    if !m.has_body_handle(from) {
        None
    } else {
        match ray_hit_of(m.engine, from, dir, max_dist) {
            None => None,
            Some((ch, d)) => Some((m.body_by_handle(eng_colliders(m.engine)[ch]).id, d)),
        }
    }
}

/// Whether a vector of handles contains the given handle.
fn contains_handle(v: &Vec<BodyHandle>, h: BodyHandle) -> (r: bool)
    ensures
        r == v@.contains(h),
{
    let mut i: usize = 0;
    while i < v.len()
        invariant
            i <= v@.len(),
            forall|j: int| 0 <= j < i ==> v@[j] != h,
        decreases v@.len() - i,
    {
        if v[i] == h {
            return true;
        }
        i = i + 1;
    }
    proof {
        assert(!v@.contains(h));
    }
    false
}

/// Filtering one more body record extends the filtered prefix by that record
/// exactly when its handle differs.
proof fn lemma_filter_step_body(s: Seq<BodyRec>, h: BodyHandle, j: int)
    requires
        0 <= j < s.len(),
    ensures
        bodies_without_handle(s.subrange(0, j + 1), h) == (if s[j].handle != h {
            bodies_without_handle(s.subrange(0, j), h).push(s[j])
        } else {
            bodies_without_handle(s.subrange(0, j), h)
        }),
{
    reveal(Seq::filter);
    assert(s.subrange(0, j + 1).drop_last() =~= s.subrange(0, j));
    assert(s.subrange(0, j + 1).last() == s[j]);
}

/// Filtering one more collider entry by parent extends the filtered prefix
/// by that entry exactly when its parent differs.
proof fn lemma_filter_step_collider_parent(s: Seq<ColliderEntry>, h: BodyHandle, j: int)
    requires
        0 <= j < s.len(),
    ensures
        colliders_not_parented(s.subrange(0, j + 1), h) == (if s[j].parent != h {
            colliders_not_parented(s.subrange(0, j), h).push(s[j])
        } else {
            colliders_not_parented(s.subrange(0, j), h)
        }),
{
    reveal(Seq::filter);
    assert(s.subrange(0, j + 1).drop_last() =~= s.subrange(0, j));
    assert(s.subrange(0, j + 1).last() == s[j]);
}

/// Filtering one more collider entry by handle extends the filtered prefix
/// by that entry exactly when its handle differs.
proof fn lemma_filter_step_collider_handle(s: Seq<ColliderEntry>, ch: ColliderHandle, j: int)
    requires
        0 <= j < s.len(),
    ensures
        colliders_without_handle(s.subrange(0, j + 1), ch) == (if s[j].handle != ch {
            colliders_without_handle(s.subrange(0, j), ch).push(s[j])
        } else {
            colliders_without_handle(s.subrange(0, j), ch)
        }),
{
    reveal(Seq::filter);
    assert(s.subrange(0, j + 1).drop_last() =~= s.subrange(0, j));
    assert(s.subrange(0, j + 1).last() == s[j]);
}

/// The element at position `k` of a filtered sequence occurs in the original
/// and satisfies the filter.
pub(crate) proof fn lemma_filter_body_origin(s: Seq<BodyRec>, h: BodyHandle, k: int)
    requires
        0 <= k < bodies_without_handle(s, h).len(),
    ensures
        exists|t: int|
            0 <= t < s.len() && s[t] == bodies_without_handle(s, h)[k] && s[t].handle != h,
    decreases s.len(),
{
    reveal(Seq::filter);
    let fs = bodies_without_handle(s, h);
    assert(s.len() > 0);
    let fd = bodies_without_handle(s.drop_last(), h);
    if k < fd.len() {
        lemma_filter_body_origin(s.drop_last(), h, k);
        let t = choose|t: int|
            0 <= t < s.drop_last().len() && s.drop_last()[t] == fd[k] && s.drop_last()[t].handle
                != h;
        assert(s[t] == s.drop_last()[t]);
        assert(s[t] == fs[k] && s[t].handle != h);
    } else {
        assert(fs[k] == s.last());
        assert(s[s.len() - 1] == fs[k] && s[s.len() - 1].handle != h);
    }
}

/// The element at position `k` of a parent-filtered sequence occurs in the
/// original and has another parent.
pub(crate) proof fn lemma_filter_collider_parent_origin(s: Seq<ColliderEntry>, h: BodyHandle, k: int)
    requires
        0 <= k < colliders_not_parented(s, h).len(),
    ensures
        exists|t: int|
            0 <= t < s.len() && s[t] == colliders_not_parented(s, h)[k] && s[t].parent != h,
    decreases s.len(),
{
    reveal(Seq::filter);
    let fs = colliders_not_parented(s, h);
    assert(s.len() > 0);
    let fd = colliders_not_parented(s.drop_last(), h);
    if k < fd.len() {
        lemma_filter_collider_parent_origin(s.drop_last(), h, k);
        let t = choose|t: int|
            0 <= t < s.drop_last().len() && s.drop_last()[t] == fd[k] && s.drop_last()[t].parent
                != h;
        assert(s[t] == s.drop_last()[t]);
        assert(s[t] == fs[k] && s[t].parent != h);
    } else {
        assert(fs[k] == s.last());
        assert(s[s.len() - 1] == fs[k] && s[s.len() - 1].parent != h);
    }
}

/// The element at position `k` of a handle-filtered sequence occurs in the
/// original and has another handle.
proof fn lemma_filter_collider_handle_origin(s: Seq<ColliderEntry>, ch: ColliderHandle, k: int)
    requires
        0 <= k < colliders_without_handle(s, ch).len(),
    ensures
        exists|t: int|
            0 <= t < s.len() && s[t] == colliders_without_handle(s, ch)[k] && s[t].handle != ch,
    decreases s.len(),
{
    reveal(Seq::filter);
    let fs = colliders_without_handle(s, ch);
    assert(s.len() > 0);
    let fd = colliders_without_handle(s.drop_last(), ch);
    if k < fd.len() {
        lemma_filter_collider_handle_origin(s.drop_last(), ch, k);
        let t = choose|t: int|
            0 <= t < s.drop_last().len() && s.drop_last()[t] == fd[k] && s.drop_last()[t].handle
                != ch;
        assert(s[t] == s.drop_last()[t]);
        assert(s[t] == fs[k] && s[t].handle != ch);
    } else {
        assert(fs[k] == s.last());
        assert(s[s.len() - 1] == fs[k] && s[s.len() - 1].handle != ch);
    }
}

/// An original element that the filter admits occurs in the filtered sequence.
proof fn lemma_filter_body_keeps(s: Seq<BodyRec>, h: BodyHandle, t: int)
    requires
        0 <= t < s.len(),
        s[t].handle != h,
    ensures
        exists|k: int|
            0 <= k < bodies_without_handle(s, h).len() && bodies_without_handle(s, h)[k] == s[t],
    decreases s.len(),
{
    reveal(Seq::filter);
    let fs = bodies_without_handle(s, h);
    let fd = bodies_without_handle(s.drop_last(), h);
    if t < s.len() - 1 {
        assert(s.drop_last()[t] == s[t]);
        lemma_filter_body_keeps(s.drop_last(), h, t);
        let k = choose|k: int| 0 <= k < fd.len() && fd[k] == s.drop_last()[t];
        assert(fs[k] == s[t]);
    } else {
        assert(fs[fs.len() - 1] == s[t]);
    }
}

/// An original entry of another parent occurs in the parent-filtered sequence.
proof fn lemma_filter_collider_parent_keeps(s: Seq<ColliderEntry>, h: BodyHandle, t: int)
    requires
        0 <= t < s.len(),
        s[t].parent != h,
    ensures
        exists|k: int|
            0 <= k < colliders_not_parented(s, h).len() && colliders_not_parented(s, h)[k] == s[t],
    decreases s.len(),
{
    reveal(Seq::filter);
    let fs = colliders_not_parented(s, h);
    let fd = colliders_not_parented(s.drop_last(), h);
    if t < s.len() - 1 {
        assert(s.drop_last()[t] == s[t]);
        lemma_filter_collider_parent_keeps(s.drop_last(), h, t);
        let k = choose|k: int| 0 <= k < fd.len() && fd[k] == s.drop_last()[t];
        assert(fs[k] == s[t]);
    } else {
        assert(fs[fs.len() - 1] == s[t]);
    }
}

/// An original entry of another handle occurs in the handle-filtered sequence.
proof fn lemma_filter_collider_handle_keeps(s: Seq<ColliderEntry>, ch: ColliderHandle, t: int)
    requires
        0 <= t < s.len(),
        s[t].handle != ch,
    ensures
        exists|k: int|
            0 <= k < colliders_without_handle(s, ch).len() && colliders_without_handle(s, ch)[k]
                == s[t],
    decreases s.len(),
{
    reveal(Seq::filter);
    let fs = colliders_without_handle(s, ch);
    let fd = colliders_without_handle(s.drop_last(), ch);
    if t < s.len() - 1 {
        assert(s.drop_last()[t] == s[t]);
        lemma_filter_collider_handle_keeps(s.drop_last(), ch, t);
        let k = choose|k: int| 0 <= k < fd.len() && fd[k] == s.drop_last()[t];
        assert(fs[k] == s[t]);
    } else {
        assert(fs[fs.len() - 1] == s[t]);
    }
}

/// Distinct handles and identifiers survive filtering body records.
proof fn lemma_filter_distinct_body(s: Seq<BodyRec>, h: BodyHandle, i: int, j: int)
    requires
        forall|p: int, q: int|
            0 <= p < s.len() && 0 <= q < s.len() && p != q ==> (#[trigger] s[p]).handle != (
            #[trigger] s[q]).handle,
        forall|p: int, q: int|
            0 <= p < s.len() && 0 <= q < s.len() && p != q ==> (#[trigger] s[p]).id != (
            #[trigger] s[q]).id,
        0 <= i < bodies_without_handle(s, h).len(),
        0 <= j < bodies_without_handle(s, h).len(),
        i != j,
    ensures
        bodies_without_handle(s, h)[i].handle != bodies_without_handle(s, h)[j].handle,
        bodies_without_handle(s, h)[i].id != bodies_without_handle(s, h)[j].id,
    decreases s.len(),
{
    reveal(Seq::filter);
    let fs = bodies_without_handle(s, h);
    assert(s.len() > 0);
    let fd = bodies_without_handle(s.drop_last(), h);
    assert forall|p: int, q: int|
        0 <= p < s.drop_last().len() && 0 <= q < s.drop_last().len() && p != q implies (
    #[trigger] s.drop_last()[p]).handle != (#[trigger] s.drop_last()[q]).handle && (
    #[trigger] s.drop_last()[p]).id != (#[trigger] s.drop_last()[q]).id by {
        assert(s[p] == s.drop_last()[p]);
        assert(s[q] == s.drop_last()[q]);
    }
    if i < fd.len() && j < fd.len() {
        lemma_filter_distinct_body(s.drop_last(), h, i, j);
        assert(fs[i] == fd[i] && fs[j] == fd[j]);
    } else {
        let lo = if i < fd.len() {
            i
        } else {
            j
        };
        lemma_filter_body_origin(s.drop_last(), h, lo);
        let t = choose|t: int|
            0 <= t < s.drop_last().len() && s.drop_last()[t] == fd[lo] && s.drop_last()[t].handle
                != h;
        assert(s[t] == s.drop_last()[t]);
        assert(fs[lo] == fd[lo]);
        assert(s[t] == fs[lo]);
        assert(fs[fs.len() - 1] == s[s.len() - 1]);
        assert(s[t].id != s[s.len() - 1].id);
        assert(s[t].handle != s[s.len() - 1].handle);
    }
}

/// Distinct handles survive filtering collider entries by parent.
proof fn lemma_filter_distinct_collider_parent(s: Seq<ColliderEntry>, h: BodyHandle, i: int, j: int)
    requires
        forall|p: int, q: int|
            0 <= p < s.len() && 0 <= q < s.len() && p != q ==> (#[trigger] s[p]).handle != (
            #[trigger] s[q]).handle,
        0 <= i < colliders_not_parented(s, h).len(),
        0 <= j < colliders_not_parented(s, h).len(),
        i != j,
    ensures
        colliders_not_parented(s, h)[i].handle != colliders_not_parented(s, h)[j].handle,
    decreases s.len(),
{
    reveal(Seq::filter);
    let fs = colliders_not_parented(s, h);
    assert(s.len() > 0);
    let fd = colliders_not_parented(s.drop_last(), h);
    assert forall|p: int, q: int|
        0 <= p < s.drop_last().len() && 0 <= q < s.drop_last().len() && p != q implies (
    #[trigger] s.drop_last()[p]).handle != (#[trigger] s.drop_last()[q]).handle by {
        assert(s[p] == s.drop_last()[p]);
        assert(s[q] == s.drop_last()[q]);
    }
    if i < fd.len() && j < fd.len() {
        lemma_filter_distinct_collider_parent(s.drop_last(), h, i, j);
        assert(fs[i] == fd[i] && fs[j] == fd[j]);
    } else {
        let lo = if i < fd.len() {
            i
        } else {
            j
        };
        lemma_filter_collider_parent_origin(s.drop_last(), h, lo);
        let t = choose|t: int|
            0 <= t < s.drop_last().len() && s.drop_last()[t] == fd[lo] && s.drop_last()[t].parent
                != h;
        assert(s[t] == s.drop_last()[t]);
        assert(fs[lo] == fd[lo]);
        assert(s[t] == fs[lo]);
        assert(fs[fs.len() - 1] == s[s.len() - 1]);
        assert(s[t].handle != s[s.len() - 1].handle);
    }
}

/// Distinct handles survive filtering collider entries by handle.
proof fn lemma_filter_distinct_collider_handle(
    s: Seq<ColliderEntry>,
    ch: ColliderHandle,
    i: int,
    j: int,
)
    requires
        forall|p: int, q: int|
            0 <= p < s.len() && 0 <= q < s.len() && p != q ==> (#[trigger] s[p]).handle != (
            #[trigger] s[q]).handle,
        0 <= i < colliders_without_handle(s, ch).len(),
        0 <= j < colliders_without_handle(s, ch).len(),
        i != j,
    ensures
        colliders_without_handle(s, ch)[i].handle != colliders_without_handle(s, ch)[j].handle,
    decreases s.len(),
{
    reveal(Seq::filter);
    let fs = colliders_without_handle(s, ch);
    assert(s.len() > 0);
    let fd = colliders_without_handle(s.drop_last(), ch);
    assert forall|p: int, q: int|
        0 <= p < s.drop_last().len() && 0 <= q < s.drop_last().len() && p != q implies (
    #[trigger] s.drop_last()[p]).handle != (#[trigger] s.drop_last()[q]).handle by {
        assert(s[p] == s.drop_last()[p]);
        assert(s[q] == s.drop_last()[q]);
    }
    if i < fd.len() && j < fd.len() {
        lemma_filter_distinct_collider_handle(s.drop_last(), ch, i, j);
        assert(fs[i] == fd[i] && fs[j] == fd[j]);
    } else {
        let lo = if i < fd.len() {
            i
        } else {
            j
        };
        lemma_filter_collider_handle_origin(s.drop_last(), ch, lo);
        let t = choose|t: int|
            0 <= t < s.drop_last().len() && s.drop_last()[t] == fd[lo] && s.drop_last()[t].handle
                != ch;
        assert(s[t] == s.drop_last()[t]);
        assert(fs[lo] == fd[lo]);
        assert(s[t] == fs[lo]);
        assert(fs[fs.len() - 1] == s[s.len() - 1]);
        assert(s[t].handle != s[s.len() - 1].handle);
    }
}

/// Removing a body preserves well-formedness, given what the engine
/// guarantees of the removal: the body leaves the body map and exactly the
/// colliders parented to it leave the collider map.
proof fn lemma_remove_body_wf(m: StateModel, h: BodyHandle, e2: EngineState)
    requires
        m.wf(),
        m.has_body_handle(h),
        eng_bodies(e2) == eng_bodies(m.engine).remove(h),
        eng_colliders(e2) == colliders_without_parent(eng_colliders(m.engine), h),
    ensures
        (StateModel {
            engine: e2,
            bodies: bodies_without_handle(m.bodies, h),
            colliders: colliders_not_parented(m.colliders, h),
        }).wf(),
{
    let m2 = StateModel {
        engine: e2,
        bodies: bodies_without_handle(m.bodies, h),
        colliders: colliders_not_parented(m.colliders, h),
    };
    assert forall|i: int, j: int|
        0 <= i < m2.bodies.len() && 0 <= j < m2.bodies.len() && i != j implies (
    #[trigger] m2.bodies[i]).id != (#[trigger] m2.bodies[j]).id && (
    #[trigger] m2.bodies[i]).handle != (#[trigger] m2.bodies[j]).handle by {
        lemma_filter_distinct_body(m.bodies, h, i, j);
    }
    assert forall|i: int|
        0 <= i < m2.bodies.len() implies eng_bodies(m2.engine).dom().contains(
        (#[trigger] m2.bodies[i]).handle,
    ) && eng_bodies(m2.engine)[m2.bodies[i].handle].kind == m2.bodies[i].kind by {
        lemma_filter_body_origin(m.bodies, h, i);
        let t = choose|t: int|
            0 <= t < m.bodies.len() && m.bodies[t] == bodies_without_handle(m.bodies, h)[i]
                && m.bodies[t].handle != h;
        assert(eng_bodies(m.engine).dom().contains(m2.bodies[i].handle));
        assert(m2.bodies[i].handle != h);
    }
    assert forall|hh: BodyHandle|
        #[trigger] eng_bodies(m2.engine).dom().contains(hh) implies exists|i: int|
        0 <= i < m2.bodies.len() && (#[trigger] m2.bodies[i]).handle == hh by {
        assert(eng_bodies(m.engine).dom().contains(hh) && hh != h);
        let t = choose|t: int| 0 <= t < m.bodies.len() && (#[trigger] m.bodies[t]).handle == hh;
        lemma_filter_body_keeps(m.bodies, h, t);
        let k = choose|k: int|
            0 <= k < bodies_without_handle(m.bodies, h).len() && bodies_without_handle(m.bodies, h)[
            k] == m.bodies[t];
        assert(m2.bodies[k].handle == hh);
    }
    assert forall|i: int, j: int|
        0 <= i < m2.colliders.len() && 0 <= j < m2.colliders.len() && i != j implies (
    #[trigger] m2.colliders[i]).handle != (#[trigger] m2.colliders[j]).handle by {
        lemma_filter_distinct_collider_parent(m.colliders, h, i, j);
    }
    assert forall|i: int|
        0 <= i < m2.colliders.len() implies eng_colliders(m2.engine).dom().contains(
        (#[trigger] m2.colliders[i]).handle,
    ) && eng_colliders(m2.engine)[m2.colliders[i].handle] == m2.colliders[i].parent && eng_bodies(
        m2.engine,
    ).dom().contains(m2.colliders[i].parent) by {
        lemma_filter_collider_parent_origin(m.colliders, h, i);
        let t = choose|t: int|
            0 <= t < m.colliders.len() && m.colliders[t] == colliders_not_parented(m.colliders, h)[
            i] && m.colliders[t].parent != h;
        assert(eng_colliders(m.engine).dom().contains(m2.colliders[i].handle));
        assert(eng_bodies(m.engine).dom().contains(m2.colliders[i].parent));
        assert(m2.colliders[i].parent != h);
        assert(eng_colliders(m2.engine).dom().contains(m2.colliders[i].handle));
    }
    assert forall|c2: ColliderHandle|
        #[trigger] eng_colliders(m2.engine).dom().contains(c2) implies exists|j: int|
        0 <= j < m2.colliders.len() && (#[trigger] m2.colliders[j]).handle == c2 by {
        assert(eng_colliders(m.engine).dom().contains(c2) && eng_colliders(m.engine)[c2] != h);
        let t = choose|t: int|
            0 <= t < m.colliders.len() && (#[trigger] m.colliders[t]).handle == c2;
        assert(m.colliders[t].parent != h);
        lemma_filter_collider_parent_keeps(m.colliders, h, t);
        let k = choose|k: int|
            0 <= k < colliders_not_parented(m.colliders, h).len() && colliders_not_parented(
                m.colliders,
                h,
            )[k] == m.colliders[t];
        assert(m2.colliders[k].handle == c2);
    }
}

/// Removing a collider preserves well-formedness, given what the engine
/// guarantees of the removal: the collider leaves the collider map and the
/// body map does not change.
proof fn lemma_remove_collider_wf(m: StateModel, ch: ColliderHandle, e2: EngineState)
    requires
        m.wf(),
        m.has_collider(ch),
        eng_colliders(e2) == eng_colliders(m.engine).remove(ch),
        eng_bodies(e2) == eng_bodies(m.engine),
    ensures
        (StateModel {
            engine: e2,
            bodies: m.bodies,
            colliders: colliders_without_handle(m.colliders, ch),
        }).wf(),
{
    let m2 = StateModel {
        engine: e2,
        bodies: m.bodies,
        colliders: colliders_without_handle(m.colliders, ch),
    };
    assert forall|i: int, j: int|
        0 <= i < m2.colliders.len() && 0 <= j < m2.colliders.len() && i != j implies (
    #[trigger] m2.colliders[i]).handle != (#[trigger] m2.colliders[j]).handle by {
        lemma_filter_distinct_collider_handle(m.colliders, ch, i, j);
    }
    assert forall|i: int|
        0 <= i < m2.colliders.len() implies eng_colliders(m2.engine).dom().contains(
        (#[trigger] m2.colliders[i]).handle,
    ) && eng_colliders(m2.engine)[m2.colliders[i].handle] == m2.colliders[i].parent && eng_bodies(
        m2.engine,
    ).dom().contains(m2.colliders[i].parent) by {
        lemma_filter_collider_handle_origin(m.colliders, ch, i);
        let t = choose|t: int|
            0 <= t < m.colliders.len() && m.colliders[t] == colliders_without_handle(
                m.colliders,
                ch,
            )[i] && m.colliders[t].handle != ch;
        assert(eng_colliders(m.engine).dom().contains(m2.colliders[i].handle));
        assert(m2.colliders[i].handle != ch);
    }
    assert forall|c2: ColliderHandle|
        #[trigger] eng_colliders(m2.engine).dom().contains(c2) implies exists|j: int|
        0 <= j < m2.colliders.len() && (#[trigger] m2.colliders[j]).handle == c2 by {
        assert(eng_colliders(m.engine).dom().contains(c2) && c2 != ch);
        let t = choose|t: int|
            0 <= t < m.colliders.len() && (#[trigger] m.colliders[t]).handle == c2;
        lemma_filter_collider_handle_keeps(m.colliders, ch, t);
        let k = choose|k: int|
            0 <= k < colliders_without_handle(m.colliders, ch).len() && colliders_without_handle(
                m.colliders,
                ch,
            )[k] == m.colliders[t];
        assert(m2.colliders[k].handle == c2);
    }
}

} // verus!
