use vstd::prelude::*;
use crate::geometry::{UNIT, Vec3i};

verus! {

/// Influence radius given to every registered vertex.
pub const DEFAULT_VERTEX_RADIUS: i64 = UNIT;

/// An RGBA colour, one byte per channel.
#[derive(Clone, Copy, Debug, PartialEq, Eq, Structural)]
pub struct Rgba {
    pub r: u8,
    pub g: u8,
    pub b: u8,
    pub a: u8,
}

impl Rgba {
    pub open spec fn is_white(self) -> bool {
        self.r == 255 && self.g == 255 && self.b == 255 && self.a == 255
    }

    /// Opaque white.
    pub fn white() -> (c: Rgba)
        ensures
            c.is_white(),
    {
        Rgba { r: 255, g: 255, b: 255, a: 255 }
    }
}

/// One mesh vertex under edit.
#[derive(Clone, Copy, Debug, PartialEq, Eq, Structural)]
pub struct PlaneVertex {
    /// Slot of the vertex in its surface's mesh buffers.
    pub index: usize,
    /// Local position last written to the mesh.
    pub loc: Vec3i,
    /// Colour last written to the mesh.
    pub clr: Rgba,
    /// Reach of the vertex when a brush looks for vertices to select.
    pub radius: i64,
    /// Identifier of the owning surface.
    pub plane_entity: usize,
}

impl PlaneVertex {
    pub fn new(index: usize, loc: &Vec3i, clr: &Rgba, radius: i64, plane_entity: usize) -> (r:
        PlaneVertex)
        ensures
            r == (PlaneVertex { index, loc: *loc, clr: *clr, radius, plane_entity }),
    {
        PlaneVertex { loc: *loc, clr: *clr, index, radius, plane_entity }
    }
}

/// The position and colour attribute buffers of a surface's mesh.
#[derive(Debug)]
pub struct MeshBuffers {
    pub positions: Vec<Vec3i>,
    pub colors: Vec<Rgba>,
}

/// The colours to register a mesh with: its own, or opaque white for every
/// vertex where the mesh has none.
pub fn extract_mesh_data(positions: Vec<Vec3i>, colors: Option<Vec<Rgba>>) -> (r: (
    Vec<Vec3i>,
    Vec<Rgba>,
))
    ensures
        r.0@ == positions@,
        match colors {
            Some(c) => r.1@ == c@,
            None => r.1@.len() == positions@.len() && forall|i: int|
                0 <= i < r.1@.len() ==> #[trigger] r.1@[i].is_white(),
        },
{
    match colors {
        Some(c) => (positions, c),
        None => {
            let mut c: Vec<Rgba> = Vec::new();
            let mut i: usize = 0;
            while i < positions.len()
                invariant
                    i <= positions@.len(),
                    c@.len() == i,
                    forall|j: int| 0 <= j < c@.len() ==> #[trigger] c@[j].is_white(),
                decreases positions@.len() - i,
            {
                c.push(Rgba::white());
                i = i + 1;
            }
            (positions, c)
        },
    }
}

/// Why a mesh could not be registered for editing.
#[derive(Clone, Copy, Debug, PartialEq, Eq, Structural)]
pub enum RegisterError {
    /// The position and colour buffers differ in length.
    LengthMismatch,
    /// A vertex lies outside the supported world.
    OutOfRange,
}

/// The vertex record for slot `i` of a mesh registered on `plane_entity`.
pub open spec fn registered(
    plane_entity: usize,
    positions: Seq<Vec3i>,
    colors: Seq<Rgba>,
    i: int,
) -> PlaneVertex {
    PlaneVertex {
        index: i as usize,
        loc: positions[i],
        clr: colors[i],
        radius: DEFAULT_VERTEX_RADIUS,
        plane_entity,
    }
}

/// One vertex record per mesh slot, in slot order.
pub fn register_vertices(plane_entity: usize, positions: &Vec<Vec3i>, colors: &Vec<Rgba>) -> (r:
    Result<Vec<PlaneVertex>, RegisterError>)
    ensures
        r is Err <==> positions@.len() != colors@.len(),
        r matches Err(e) ==> e == RegisterError::LengthMismatch,
        r matches Ok(v) ==> v@.len() == positions@.len() && forall|i: int|
            0 <= i < v@.len() ==> #[trigger] v@[i] == registered(
                plane_entity,
                positions@,
                colors@,
                i,
            ),
{
    if positions.len() != colors.len() {
        return Err(RegisterError::LengthMismatch);
    }
    let mut v: Vec<PlaneVertex> = Vec::new();
    let mut i: usize = 0;
    while i < positions.len()
        invariant
            i <= positions@.len(),
            positions@.len() == colors@.len(),
            v@.len() == i,
            forall|j: int|
                0 <= j < i ==> #[trigger] v@[j] == registered(plane_entity, positions@, colors@, j),
        decreases positions@.len() - i,
    {
        v.push(PlaneVertex::new(i, &positions[i], &colors[i], DEFAULT_VERTEX_RADIUS, plane_entity));
        i = i + 1;
    }
    Ok(v)
}

} // verus!
