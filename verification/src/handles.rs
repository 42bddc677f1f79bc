//! Generation-safe identifiers for bodies and colliders.
//!
//! A handle pairs an arena index with a generation counter. The engine's
//! arenas bump the generation whenever a slot is reused, so a handle kept
//! across a removal never aliases the slot's new occupant: a stale lookup
//! misses instead of reading the wrong entity.

use vstd::prelude::*;

verus! {

/// Identifier of a rigid body within one physics-state lineage.
#[derive(Clone, Copy, PartialEq, Eq, Structural, Debug)]
pub struct BodyHandle {
    pub index: u32,
    pub generation: u32,
}

/// Identifier of a collider within one physics-state lineage.
#[derive(Clone, Copy, PartialEq, Eq, Structural, Debug)]
pub struct ColliderHandle {
    pub index: u32,
    pub generation: u32,
}

} // verus!
