//! Plain data carried through the simulation core.
//!
//! Every scalar that the physics engine computes with is held here as the raw
//! bit pattern of its machine representation (a `u32`). The verified logic
//! never does arithmetic on these scalars: it stores them, compares them
//! exactly, and hands them to the engine boundary, which turns bits back into
//! machine numbers. Exact bit equality is precisely the currency of the
//! rollback design: replaying a tick must reproduce the stored state bit for
//! bit.

use vstd::prelude::*;

verus! {

/// A three-component vector, each component the bit pattern of a scalar.
#[derive(Clone, Copy, PartialEq, Eq, Structural, Debug)]
pub struct V3 {
    pub x: u32,
    pub y: u32,
    pub z: u32,
}

/// A rotation quaternion, each component the bit pattern of a scalar.
#[derive(Clone, Copy, PartialEq, Eq, Structural, Debug)]
pub struct Quat4 {
    pub x: u32,
    pub y: u32,
    pub z: u32,
    pub w: u32,
}

/// A rigid transform: a translation and a rotation.
#[derive(Clone, Copy, PartialEq, Eq, Structural, Debug)]
pub struct Iso {
    pub translation: V3,
    pub rotation: Quat4,
}

impl Iso {
    /// The identity rotation has w = 1.0, whose bit pattern is 0x3F80_0000.
    pub fn at(translation: V3) -> (r: Iso)
        ensures
            r.translation == translation,
            r.rotation == (Quat4 { x: 0, y: 0, z: 0, w: 0x3F80_0000 }),
    {
        Iso { translation, rotation: Quat4 { x: 0, y: 0, z: 0, w: 0x3F80_0000 } }
    }
}

/// How a body responds to the simulation step.
#[derive(Clone, Copy, PartialEq, Eq, Structural, Debug)]
pub enum BodyKind {
    /// Integrates under forces, impulses and contacts.
    Dynamic,
    /// Never moves.
    Fixed,
    /// Moves only by an externally supplied target position.
    KinematicPositionBased,
}

/// Surface material of a collider, as scalar bit patterns.
#[derive(Clone, Copy, PartialEq, Eq, Structural, Debug)]
pub struct Material {
    pub restitution: u32,
    pub density: u32,
}

/// A declarative collider shape. Each variant carries the parameters from
/// which the engine boundary builds the actual shape description.
#[derive(Debug)]
pub enum ShapeDesc {
    /// A sphere with the given radius.
    Ball { radius: u32 },
    /// A capsule along the local `y` axis.
    Capsule { half_height: u32, radius: u32 },
    /// An axis-aligned box given by its half extents.
    Cuboid { hx: u32, hy: u32, hz: u32 },
    /// A cylinder along the local `y` axis.
    Cylinder { half_height: u32, radius: u32 },
    /// A triangle mesh: vertices and index triples.
    Mesh { vertices: Vec<V3>, triangles: Vec<[u32; 3]> },
}

/// Whether a triangle's three indices all point into a vertex buffer of
/// length `n`.
pub open spec fn tri_in_range(t: [u32; 3], n: int) -> bool {
    t[0] < n && t[1] < n && t[2] < n
}

impl ShapeDesc {
    /// A shape source that cannot produce usable geometry: a mesh with no
    /// triangles, or one whose index buffer points outside its vertex
    /// buffer. Registration of such a shape yields no collider.
    pub open spec fn is_degenerate(&self) -> bool {
        match self {
            ShapeDesc::Mesh { vertices, triangles } => triangles@.len() == 0 || exists|k: int|
                0 <= k < triangles@.len() && !tri_in_range(
                    #[trigger] triangles@[k],
                    vertices@.len() as int,
                ),
            _ => false,
        }
    }
}

/// Whether a mesh source is usable: at least one triangle, every index
/// inside the vertex buffer.
pub fn mesh_usable(vertices: &Vec<V3>, triangles: &Vec<[u32; 3]>) -> (r: bool)
    ensures
        r == (triangles@.len() > 0 && (forall|k: int|
            0 <= k < triangles@.len() ==> tri_in_range(
                #[trigger] triangles@[k],
                vertices@.len() as int,
            ))),
{
    if triangles.len() == 0 {
        return false;
    }
    let n = vertices.len();
    let mut k: usize = 0;
    while k < triangles.len()
        invariant
            k <= triangles@.len(),
            forall|j: int|
                0 <= j < k ==> tri_in_range(#[trigger] triangles@[j], vertices@.len() as int),
            n == vertices@.len(),
        decreases triangles@.len() - k,
    {
        let t = triangles[k];
        if !((t[0] as usize) < n && (t[1] as usize) < n && (t[2] as usize) < n) {
            return false;
        }
        k = k + 1;
    }
    true
}

/// Group a flat index buffer into triangles, three indices each. A trailing
/// remainder shorter than a triangle is dropped.
pub fn group_triples(indices: &Vec<u32>) -> (r: Vec<[u32; 3]>)
    ensures
        r@.len() == indices@.len() / 3,
        forall|k: int|
            0 <= k < r@.len() ==> (#[trigger] r@[k])[0] == indices@[3 * k] && r@[k][1] == indices@[3
                * k + 1] && r@[k][2] == indices@[3 * k + 2],
{
    let mut r: Vec<[u32; 3]> = Vec::new();
    let mut i: usize = 0;
    while indices.len() - i >= 3
        invariant
            i == 3 * r@.len(),
            i <= indices@.len(),
            forall|k: int|
                0 <= k < r@.len() ==> (#[trigger] r@[k])[0] == indices@[3 * k] && r@[k][1]
                    == indices@[3 * k + 1] && r@[k][2] == indices@[3 * k + 2],
        decreases indices@.len() - i,
    {
        r.push([indices[i], indices[i + 1], indices[i + 2]]);
        i = i + 3;
    }
    proof {
        assert(r@.len() == indices@.len() / 3) by (nonlinear_arith)
            requires
                3 * r@.len() <= indices@.len() < 3 * r@.len() + 3,
        ;
    }
    r
}

/// Outcome of a ray cast: either nothing within reach, or the external
/// identifier of the closest struck body with the distance to the hit,
/// as a scalar bit pattern.
#[derive(Debug)]
pub enum RaycastResult {
    Miss,
    Hit { id: String, distance: u32 },
}

/// Result of a kinematic character sweep: the corrected translation plus
/// contact information, mirrored from the engine's controller output.
#[derive(Clone, Copy, PartialEq, Eq, Structural, Debug)]
pub struct EffectiveMovement {
    pub translation: V3,
    pub grounded: bool,
    pub is_sliding_down_slope: bool,
}

} // verus!
