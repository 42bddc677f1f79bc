//! The laws the rollback design stands on, checked by the verifier.
//!
//! Every mutation of a snapshot is pinned down by a specification function
//! of the snapshot and the call's arguments (see `state`), so a whole run is
//! a fold of those functions. The lemmas here state what that buys:
//! rewinding restores exactly the stored snapshot and replaying the same
//! calls reproduces the same snapshots; registration is idempotent per
//! external identifier; and removing a body clears its identifier and its
//! colliders from the snapshot, so no later query can resolve to it.

use vstd::prelude::*;

use crate::engine::{eng_bodies, eng_colliders};
use crate::geom::{BodyKind, Iso, Material};
use crate::handles::{BodyHandle, ColliderHandle};
use crate::state::{
    apply_add_body, apply_attach, apply_detach, apply_remove_body, apply_step,
    bodies_without_handle, lemma_filter_body_origin, lemma_filter_collider_parent_origin,
    resolve_hits, StateModel,
};
use crate::world::{world_load, WorldModel};
use rapier3d::geometry::SharedShape;

verus! {

/// One call against the current snapshot, with its arguments.
pub ghost enum Op {
    AddBody { id: Seq<char>, kind: BodyKind, pose: Iso },
    RemoveBody { h: BodyHandle },
    AttachCollider { shape: SharedShape, material: Material, local_pose: Iso, parent: BodyHandle },
    RemoveCollider { ch: ColliderHandle },
    Step,
}

/// The snapshot a call leaves behind.
pub open spec fn op_apply(m: StateModel, op: Op) -> StateModel {
    match op {
        Op::AddBody { id, kind, pose } => apply_add_body(m, id, kind, pose).0,
        Op::RemoveBody { h } => apply_remove_body(m, h),
        Op::AttachCollider { shape, material, local_pose, parent } => apply_attach(
            m,
            shape,
            material,
            local_pose,
            parent,
        ).0,
        Op::RemoveCollider { ch } => apply_detach(m, ch).0,
        Op::Step => apply_step(m),
    }
}

/// The snapshots a run visits: element `k` is the snapshot after the first
/// `k` calls.
pub open spec fn run_trace(m: StateModel, ops: Seq<Op>) -> Seq<StateModel>
    decreases ops.len(),
{
    if ops.len() == 0 {
        seq![m]
    } else {
        seq![m] + run_trace(op_apply(m, ops[0]), ops.drop_first())
    }
}

/// Rewinding to a retained tick restores exactly the stored snapshot: the
/// world after `load_state` has that snapshot as its current tick, bit for
/// bit.
pub proof fn lemma_load_restores(w: WorldModel, tick: u64)
    requires
        w.wf(),
        w.retains(tick as int),
    ensures
        world_load(w, tick).current() == w.state_at(tick as int),
        world_load(w, tick).current_tick() == tick,
{
    let loaded = world_load(w, tick);
    assert(loaded.states.last() == w.states[tick - w.base]);
}

/// Determinism of replay: two worlds that retain the same snapshot for a
/// tick — for instance, the same world before and after simulating past that
/// tick — visit identical snapshots when the same calls are re-issued after
/// rewinding to it. Transforms and velocities are scalar bit patterns in a
/// snapshot, so "identical" is bit-identical.
pub proof fn lemma_rollback_replay(w1: WorldModel, w2: WorldModel, tick: u64, ops: Seq<Op>)
    requires
        w1.wf(),
        w2.wf(),
        w1.retains(tick as int),
        w2.retains(tick as int),
        w1.state_at(tick as int) == w2.state_at(tick as int),
    ensures
        run_trace(world_load(w1, tick).current(), ops) == run_trace(
            world_load(w2, tick).current(),
            ops,
        ),
{
    lemma_load_restores(w1, tick);
    lemma_load_restores(w2, tick);
}

/// Registration is idempotent per external identifier: registering the same
/// identifier twice without an intervening removal returns the same handle
/// both times and leaves the snapshot of the first registration unchanged —
/// no duplicate body is created.
pub proof fn lemma_add_body_idempotent(m: StateModel, id: Seq<char>, kind: BodyKind, pose: Iso)
    requires
        m.wf(),
    ensures
        apply_add_body(apply_add_body(m, id, kind, pose).0, id, kind, pose).0 == apply_add_body(
            m,
            id,
            kind,
            pose,
        ).0,
        apply_add_body(apply_add_body(m, id, kind, pose).0, id, kind, pose).1 == apply_add_body(
            m,
            id,
            kind,
            pose,
        ).1,
{
    let (m1, h1) = apply_add_body(m, id, kind, pose);
    if m.has_body_id(id) {
        assert(m1 == m);
    } else {
        let n = m.bodies.len() as int;
        assert(m1.bodies[n].id == id);
        assert(m1.has_body_id(id));
        assert forall|j: int| 0 <= j < n implies (#[trigger] m1.bodies[j]).id != id by {
            assert(m1.bodies[j] == m.bodies[j]);
        }
        let gi = choose|i: int| 0 <= i < m1.bodies.len() && (#[trigger] m1.bodies[i]).id == id;
        assert(gi == n);
        assert(m1.body_by_id(id).handle == h1);
    }
}

/// Removing a body clears it from the snapshot: no registered body carries
/// its external identifier any more, and no collider of the snapshot is
/// parented to it.
pub proof fn lemma_remove_body_clears(m: StateModel, i: int, h: BodyHandle)
    requires
        m.wf(),
        0 <= i < m.bodies.len(),
        m.bodies[i].handle == h,
    ensures
        !apply_remove_body(m, h).has_body_id(m.bodies[i].id),
        forall|j: int|
            0 <= j < apply_remove_body(m, h).colliders.len() ==> (
            #[trigger] apply_remove_body(m, h).colliders[j]).parent != h,
{
    let id = m.bodies[i].id;
    let m2 = apply_remove_body(m, h);
    assert(m.has_body_handle(h));
    assert(m2.bodies == bodies_without_handle(m.bodies, h));
    assert forall|k: int| 0 <= k < m2.bodies.len() implies (#[trigger] m2.bodies[k]).id != id by {
        lemma_filter_body_origin(m.bodies, h, k);
        let t = choose|t: int|
            0 <= t < m.bodies.len() && m.bodies[t] == bodies_without_handle(m.bodies, h)[k]
                && m.bodies[t].handle != h;
        assert(t != i);
        assert(m.bodies[t].id != m.bodies[i].id);
    }
    assert forall|j: int|
        0 <= j < m2.colliders.len() implies (#[trigger] m2.colliders[j]).parent != h by {
        lemma_filter_collider_parent_origin(m.colliders, h, j);
    }
}

/// Resolution only yields the identifiers of registered bodies: a query of a
/// snapshot in which no body carries an identifier — for instance, one whose
/// body was just removed — never reports that identifier, whatever colliders
/// the engine's spatial index handed back.
pub proof fn lemma_resolution_yields_registered(
    m: StateModel,
    hits: Seq<ColliderHandle>,
    seen: Set<BodyHandle>,
    id: Seq<char>,
)
    requires
        m.wf(),
        !m.has_body_id(id),
        forall|i: int|
            0 <= i < hits.len() ==> eng_colliders(m.engine).dom().contains(#[trigger] hits[i]),
    ensures
        forall|k: int|
            0 <= k < resolve_hits(m, hits, seen).len() ==> (#[trigger] resolve_hits(
                m,
                hits,
                seen,
            )[k]) != id,
    decreases hits.len(),
{
    if hits.len() > 0 {
        let parent = eng_colliders(m.engine)[hits[0]];
        assert(eng_colliders(m.engine).dom().contains(hits[0]));
        let cj = choose|j: int|
            0 <= j < m.colliders.len() && (#[trigger] m.colliders[j]).handle == hits[0];
        assert(m.colliders[cj].parent == parent);
        assert(eng_bodies(m.engine).dom().contains(parent));
        let bi = choose|b: int|
            0 <= b < m.bodies.len() && (#[trigger] m.bodies[b]).handle == parent;
        assert forall|q: int|
            0 <= q < hits.drop_first().len() implies eng_colliders(m.engine).dom().contains(
            #[trigger] hits.drop_first()[q],
        ) by {
            assert(hits.drop_first()[q] == hits[q + 1]);
        }
        if seen.contains(parent) {
            lemma_resolution_yields_registered(m, hits.drop_first(), seen, id);
            assert(resolve_hits(m, hits, seen) == resolve_hits(m, hits.drop_first(), seen));
        } else {
            lemma_resolution_yields_registered(m, hits.drop_first(), seen.insert(parent), id);
            let gb = choose|b: int|
                0 <= b < m.bodies.len() && (#[trigger] m.bodies[b]).handle == parent;
            assert(m.body_by_handle(parent) == m.bodies[gb]);
            assert(m.bodies[gb].id != id);
            let out = resolve_hits(m, hits, seen);
            let rest = resolve_hits(m, hits.drop_first(), seen.insert(parent));
            assert(out == seq![m.body_by_handle(parent).id] + rest);
            assert forall|k: int| 0 <= k < out.len() implies (#[trigger] out[k]) != id by {
                if k == 0 {
                    assert(out[0] == m.bodies[gb].id);
                } else {
                    assert(out[k] == rest[k - 1]);
                }
            }
        }
    } else {
        assert(resolve_hits(m, hits, seen).len() == 0);
    }
}

} // verus!
