use vstd::prelude::*;
use crate::brush::{BrushSettings, BrushStroke, StrokeTest, in_reach, raised, within_reach};
use crate::geometry::{COORD_LIMIT, UNIT, Vec3i, lemma_mul_bound};
use crate::pointer::{PlacedSurface, WorldPoint};
use crate::vertex::{MeshBuffers, PlaneVertex, RegisterError, Rgba, extract_mesh_data, register_vertices, registered};

verus! {

/// `UNIT` times the world `x` of a vertex at local position `t` on `s`; the
/// scale is in sub-units, so a scale of one is `UNIT`.
pub open spec fn world_x(s: PlacedSurface, t: Vec3i) -> int {
    s.translation.x * UNIT + s.scale.x * t.x
}

/// `UNIT` times the world `z` of a vertex at local position `t` on `s`.
pub open spec fn world_z(s: PlacedSurface, t: Vec3i) -> int {
    s.translation.z * UNIT + s.scale.z * t.z
}

/// A vertex `v` at local position `t` on `s` is within reach of a brush of
/// `radius` centred at `p`: their planar distance is at most the sum of the
/// two radii.
pub open spec fn vertex_reached(s: PlacedSurface, v: PlaneVertex, t: Vec3i, p: WorldPoint, radius: int) -> bool {
    within_reach(p, world_x(s, t), world_z(s, t), radius + v.radius)
}

/// A vertex at local position `t` on `s` lies within the supported world.
pub open spec fn fits_world(s: PlacedSurface, t: Vec3i) -> bool {
    &&& t.in_world()
    &&& -UNIT * COORD_LIMIT <= world_x(s, t) <= UNIT * COORD_LIMIT
    &&& -UNIT * COORD_LIMIT <= world_z(s, t) <= UNIT * COORD_LIMIT
}

/// `UNIT` times the world `x` and `z` of a vertex, computed without overflow
/// for any inputs.
fn scaled_world(s: PlacedSurface, t: Vec3i) -> (r: (i128, i128))
    ensures
        r.0 == world_x(s, t),
        r.1 == world_z(s, t),
{
    proof {
        let big: int = 0x8000_0000_0000_0000;
        lemma_mul_bound(s.scale.x as int, t.x as int, big, big);
        lemma_mul_bound(s.scale.z as int, t.z as int, big, big);
        lemma_mul_bound(s.translation.x as int, UNIT as int, big, UNIT as int);
        lemma_mul_bound(s.translation.z as int, UNIT as int, big, UNIT as int);
    }
    let k = UNIT as i128;
    let x = (s.translation.x as i128) * k + (s.scale.x as i128) * (t.x as i128);
    let z = (s.translation.z as i128) * k + (s.scale.z as i128) * (t.z as i128);
    (x, z)
}

/// Whether a vertex at local position `t` on `s` lies within the world.
fn fits(s: PlacedSurface, t: Vec3i) -> (r: bool)
    ensures
        r == fits_world(s, t),
{
    let (x, z) = scaled_world(s, t);
    let l = COORD_LIMIT;
    let w: i128 = 524288000;
    assert(UNIT * COORD_LIMIT == 524288000) by (nonlinear_arith);
    -l <= t.x && t.x <= l && -l <= t.y && t.y <= l && -l <= t.z && t.z <= l && -w <= x && x <= w
        && -w <= z && z <= w
}

/// `UNIT` times the world `x` and `z` of a vertex at local position `t` on `s`.
fn world_position(s: PlacedSurface, t: Vec3i) -> (r: (i64, i64))
    requires
        fits_world(s, t),
    ensures
        r.0 == world_x(s, t),
        r.1 == world_z(s, t),
{
    let (x, z) = scaled_world(s, t);
    (x as i64, z as i64)
}

/// The vertices of one surface under edit, the brush stroke in progress and
/// the surface's mesh buffers.
pub struct TerrainEdit {
    pub plane_entity: usize,
    pub surface: PlacedSurface,
    /// The vertex records; record `i` describes mesh slot `i`.
    pub vertices: Vec<PlaneVertex>,
    /// The current local position of each vertex, which edits move.
    pub transforms: Vec<Vec3i>,
    /// Which vertices are under the brush in the current stroke.
    pub selected: Vec<bool>,
    /// Which vertices were moved since the mesh was last brought up to date.
    pub changed: Vec<bool>,
    pub stroke: Option<BrushStroke>,
    pub mesh: MeshBuffers,
}

impl TerrainEdit {
    pub open spec fn len(self) -> nat {
        self.vertices@.len()
    }

    pub open spec fn vertex_ok(self, i: int) -> bool {
        let v = self.vertices@[i];
        let t = self.transforms@[i];
        &&& v.index == i
        &&& v.plane_entity == self.plane_entity
        &&& 0 <= v.radius <= COORD_LIMIT
        &&& fits_world(self.surface, t)
        &&& self.mesh.positions@[v.index as int] == v.loc
        &&& self.mesh.colors@[v.index as int] == v.clr
        &&& !self.changed@[i] ==> v.loc == t
    }

    pub open spec fn wf(self) -> bool {
        let n = self.len();
        &&& self.surface.wf()
        &&& self.transforms@.len() == n
        &&& self.selected@.len() == n
        &&& self.changed@.len() == n
        &&& self.mesh.positions@.len() == n
        &&& self.mesh.colors@.len() == n
        &&& forall|i: int| 0 <= i < n ==> #[trigger] self.vertex_ok(i)
        &&& self.stroke is None ==> forall|i: int| 0 <= i < n ==> !#[trigger] self.selected@[i]
        &&& self.stroke matches Some(s) ==> s.data@.len() == n && 0 <= s.radius <= COORD_LIMIT
    }

    /// Vertex `i` is within reach of a brush of `radius` centred at `p`.
    pub open spec fn reaches(self, p: WorldPoint, radius: int, i: int) -> bool {
        vertex_reached(self.surface, self.vertices@[i], self.transforms@[i], p, radius)
    }
}

/// `n` copies of `false`.
fn all_false(n: usize) -> (r: Vec<bool>)
    ensures
        r@.len() == n,
        forall|i: int| 0 <= i < n ==> !#[trigger] r@[i],
{
    let mut r: Vec<bool> = Vec::new();
    let mut i: usize = 0;
    while i < n
        invariant
            i <= n,
            r@.len() == i,
            forall|j: int| 0 <= j < i ==> !#[trigger] r@[j],
        decreases n - i,
    {
        r.push(false);
        i = i + 1;
    }
    r
}

impl TerrainEdit {
    /// Registers the mesh of a surface for editing: one vertex record per
    /// mesh slot, each at its mesh position and colour (opaque white where the
    /// mesh has no colours), with the default vertex radius, nothing selected
    /// and no stroke.
    pub fn new(
        plane_entity: usize,
        surface: PlacedSurface,
        positions: Vec<Vec3i>,
        colors: Option<Vec<Rgba>>,
    ) -> (r: Result<TerrainEdit, RegisterError>)
        requires
            surface.wf(),
        ensures
            (r matches Err(RegisterError::LengthMismatch)) <==> (
            colors matches Some(c) && c@.len() != positions@.len()),
            (r matches Err(RegisterError::OutOfRange)) <==> (!(
            colors matches Some(c) && c@.len() != positions@.len()) && exists|i: int|
                0 <= i < positions@.len() && !#[trigger] fits_world(surface, positions@[i])),
            r matches Ok(e) ==> {
                &&& e.wf()
                &&& e.plane_entity == plane_entity
                &&& e.surface == surface
                &&& e.stroke is None
                &&& e.len() == positions@.len()
                &&& e.transforms@ == positions@
                &&& e.mesh.positions@ == positions@
                &&& match colors {
                    Some(c) => e.mesh.colors@ == c@,
                    None => forall|i: int| 0 <= i < e.len() ==> #[trigger] e.mesh.colors@[i].is_white(),
                }
                &&& forall|i: int|
                    0 <= i < e.len() ==> #[trigger] e.vertices@[i] == registered(
                        plane_entity,
                        positions@,
                        e.mesh.colors@,
                        i,
                    )
                &&& forall|i: int| 0 <= i < e.len() ==> !#[trigger] e.selected@[i] && !e.changed@[i]
            },
    {
        let ghost colors0 = colors;
        let ghost positions0 = positions@;
        let (pos, clr) = extract_mesh_data(positions, colors);
        let vertices = match register_vertices(plane_entity, &pos, &clr) {
            Ok(v) => v,
            Err(e) => {
                return Err(e);
            },
        };
        let n = pos.len();
        let mut transforms: Vec<Vec3i> = Vec::new();
        let mut i: usize = 0;
        while i < n
            invariant
                i <= n,
                n == pos@.len(),
                n == clr@.len(),
                pos@ == positions0,
                positions0 == positions@,
                colors0 == colors,
                colors0 matches Some(c) ==> c@ == clr@,
                transforms@ == pos@.subrange(0, i as int),
                forall|j: int| 0 <= j < i ==> #[trigger] fits_world(surface, pos@[j]),
            decreases n - i,
        {
            let t = pos[i];
            if !fits(surface, t) {
                assert(!fits_world(surface, pos@[i as int]));
                return Err(RegisterError::OutOfRange);
            }
            transforms.push(t);
            i = i + 1;
            assert(transforms@ =~= pos@.subrange(0, i as int));
        }
        assert(transforms@ =~= pos@);
        let selected = all_false(n);
        let changed = all_false(n);
        let e = TerrainEdit {
            plane_entity,
            surface,
            vertices,
            transforms,
            selected,
            changed,
            stroke: None,
            mesh: MeshBuffers { positions: pos, colors: clr },
        };
        assert forall|i: int| 0 <= i < n implies #[trigger] e.vertex_ok(i) by {
            assert(e.vertices@[i] == registered(plane_entity, e.mesh.positions@, e.mesh.colors@, i));
        }
        Ok(e)
    }
}

/// Clears every flag.
fn clear_all(v: &mut Vec<bool>)
    ensures
        final(v)@.len() == old(v)@.len(),
        forall|i: int| 0 <= i < final(v)@.len() ==> !#[trigger] final(v)@[i],
{
    let mut i: usize = 0;
    while i < v.len()
        invariant
            i <= v@.len(),
            v@.len() == old(v)@.len(),
            forall|j: int| 0 <= j < i ==> !#[trigger] v@[j],
        decreases v@.len() - i,
    {
        v.set(i, false);
        i = i + 1;
    }
}

/// Marks every unmarked vertex that a brush of `radius` at `p` reaches, and
/// records the outcome of each test in `data`.
fn scan(
    surface: &PlacedSurface,
    vertices: &Vec<PlaneVertex>,
    transforms: &Vec<Vec3i>,
    selected: &mut Vec<bool>,
    data: &mut Vec<StrokeTest>,
    p: WorldPoint,
    radius: i64,
)
    requires
        p.wf(),
        0 <= radius <= COORD_LIMIT,
        transforms@.len() == vertices@.len(),
        old(selected)@.len() == vertices@.len(),
        old(data)@.len() == vertices@.len(),
        forall|i: int|
            0 <= i < vertices@.len() ==> fits_world(*surface, #[trigger] transforms@[i]) && 0
                <= vertices@[i].radius <= COORD_LIMIT,
    ensures
        final(selected)@.len() == vertices@.len(),
        final(data)@.len() == vertices@.len(),
        forall|i: int|
            0 <= i < vertices@.len() ==> #[trigger] final(selected)@[i] == (old(selected)@[i]
                || vertex_reached(*surface, vertices@[i], transforms@[i], p, radius as int)),
        forall|i: int|
            0 <= i < vertices@.len() ==> #[trigger] final(data)@[i] == (if old(selected)@[i] {
                old(data)@[i]
            } else if vertex_reached(*surface, vertices@[i], transforms@[i], p, radius as int) {
                StrokeTest::Positive
            } else {
                StrokeTest::Negative
            }),
{
    let n = vertices.len();
    let mut i: usize = 0;
    while i < n
        invariant
            i <= n,
            n == vertices@.len(),
            p.wf(),
            0 <= radius <= COORD_LIMIT,
            transforms@.len() == n,
            selected@.len() == n,
            data@.len() == n,
            forall|j: int|
                0 <= j < n ==> fits_world(*surface, #[trigger] transforms@[j]) && 0
                    <= vertices@[j].radius <= COORD_LIMIT,
            forall|j: int| i <= j < n ==> #[trigger] selected@[j] == old(selected)@[j],
            forall|j: int| i <= j < n ==> #[trigger] data@[j] == old(data)@[j],
            forall|j: int|
                0 <= j < i ==> #[trigger] selected@[j] == (old(selected)@[j] || vertex_reached(
                    *surface,
                    vertices@[j],
                    transforms@[j],
                    p,
                    radius as int,
                )),
            forall|j: int|
                0 <= j < i ==> #[trigger] data@[j] == (if old(selected)@[j] {
                    old(data)@[j]
                } else if vertex_reached(*surface, vertices@[j], transforms@[j], p, radius as int) {
                    StrokeTest::Positive
                } else {
                    StrokeTest::Negative
                }),
        decreases n - i,
    {
        if !selected[i] {
            let t = transforms[i];
            let v = vertices[i];
            assert(fits_world(*surface, transforms@[i as int]));
            let (wx, wz) = world_position(*surface, t);
            if in_reach(p, wx, wz, radius + v.radius) {
                selected.set(i, true);
                data.set(i, StrokeTest::Positive);
            } else {
                data.set(i, StrokeTest::Negative);
            }
        }
        i = i + 1;
    }
}

/// Applies the stroke's deformation to every selected vertex and marks it
/// as moved.
fn deform_selected(
    stroke: &BrushStroke,
    selected: &Vec<bool>,
    transforms: &mut Vec<Vec3i>,
    changed: &mut Vec<bool>,
)
    requires
        old(transforms)@.len() == selected@.len(),
        old(changed)@.len() == selected@.len(),
        forall|i: int| 0 <= i < selected@.len() ==> (#[trigger] old(transforms)@[i]).in_world(),
    ensures
        final(transforms)@.len() == selected@.len(),
        final(changed)@.len() == selected@.len(),
        forall|i: int|
            0 <= i < selected@.len() ==> #[trigger] final(transforms)@[i] == (if selected@[i] {
                raised(old(transforms)@[i])
            } else {
                old(transforms)@[i]
            }),
        forall|i: int|
            0 <= i < selected@.len() ==> #[trigger] final(changed)@[i] == (old(changed)@[i]
                || selected@[i]),
{
    let n = selected.len();
    let mut i: usize = 0;
    while i < n
        invariant
            i <= n,
            n == selected@.len(),
            transforms@.len() == n,
            changed@.len() == n,
            forall|j: int| i <= j < n ==> #[trigger] transforms@[j] == old(transforms)@[j],
            forall|j: int| i <= j < n ==> #[trigger] changed@[j] == old(changed)@[j],
            forall|j: int| 0 <= j < n ==> (#[trigger] old(transforms)@[j]).in_world(),
            forall|j: int|
                0 <= j < i ==> #[trigger] transforms@[j] == (if selected@[j] {
                    raised(old(transforms)@[j])
                } else {
                    old(transforms)@[j]
                }),
            forall|j: int| 0 <= j < i ==> #[trigger] changed@[j] == (old(changed)@[j] || selected@[j]),
        decreases n - i,
    {
        if selected[i] {
            let mut t = transforms[i];
            stroke.apply(&mut t);
            transforms.set(i, t);
            changed.set(i, true);
        }
        i = i + 1;
    }
}

/// The record `v` after its position was brought up to `t`.
pub open spec fn synced(v: PlaneVertex, t: Vec3i) -> PlaneVertex {
    PlaneVertex { loc: t, ..v }
}

/// Writes the position of every moved vertex into its record and into the
/// mesh slot of its index, and clears the moved marks.
fn sync_slots(
    vertices: &mut Vec<PlaneVertex>,
    transforms: &Vec<Vec3i>,
    changed: &mut Vec<bool>,
    mesh: &mut MeshBuffers,
)
    requires
        old(vertices)@.len() == transforms@.len(),
        old(changed)@.len() == transforms@.len(),
        old(mesh).positions@.len() == transforms@.len(),
        old(mesh).colors@.len() == transforms@.len(),
        forall|i: int| 0 <= i < transforms@.len() ==> (#[trigger] old(vertices)@[i]).index == i,
    ensures
        final(vertices)@.len() == transforms@.len(),
        final(changed)@.len() == transforms@.len(),
        final(mesh).positions@.len() == transforms@.len(),
        final(mesh).colors@.len() == transforms@.len(),
        forall|i: int|
            0 <= i < transforms@.len() ==> #[trigger] final(vertices)@[i] == (if old(changed)@[i] {
                synced(old(vertices)@[i], transforms@[i])
            } else {
                old(vertices)@[i]
            }),
        forall|i: int|
            0 <= i < transforms@.len() ==> #[trigger] final(mesh).positions@[i] == (if old(changed)@[i] {
                transforms@[i]
            } else {
                old(mesh).positions@[i]
            }),
        forall|i: int|
            0 <= i < transforms@.len() ==> #[trigger] final(mesh).colors@[i] == (if old(changed)@[i] {
                old(vertices)@[i].clr
            } else {
                old(mesh).colors@[i]
            }),
        forall|i: int| 0 <= i < transforms@.len() ==> !#[trigger] final(changed)@[i],
{
    let n = transforms.len();
    let mut i: usize = 0;
    while i < n
        invariant
            i <= n,
            n == transforms@.len(),
            vertices@.len() == n,
            changed@.len() == n,
            mesh.positions@.len() == n,
            mesh.colors@.len() == n,
            forall|j: int| 0 <= j < n ==> (#[trigger] old(vertices)@[j]).index == j,
            forall|j: int| i <= j < n ==> #[trigger] vertices@[j] == old(vertices)@[j],
            forall|j: int| i <= j < n ==> #[trigger] changed@[j] == old(changed)@[j],
            forall|j: int| i <= j < n ==> #[trigger] mesh.positions@[j] == old(mesh).positions@[j],
            forall|j: int| i <= j < n ==> #[trigger] mesh.colors@[j] == old(mesh).colors@[j],
            forall|j: int|
                0 <= j < i ==> #[trigger] vertices@[j] == (if old(changed)@[j] {
                    synced(old(vertices)@[j], transforms@[j])
                } else {
                    old(vertices)@[j]
                }),
            forall|j: int|
                0 <= j < i ==> #[trigger] mesh.positions@[j] == (if old(changed)@[j] {
                    transforms@[j]
                } else {
                    old(mesh).positions@[j]
                }),
            forall|j: int|
                0 <= j < i ==> #[trigger] mesh.colors@[j] == (if old(changed)@[j] {
                    old(vertices)@[j].clr
                } else {
                    old(mesh).colors@[j]
                }),
            forall|j: int| 0 <= j < i ==> !#[trigger] changed@[j],
        decreases n - i,
    {
        if changed[i] {
            let mut v = vertices[i];
            v.loc = transforms[i];
            vertices.set(i, v);
            mesh.positions.set(v.index, v.loc);
            mesh.colors.set(v.index, v.clr);
            changed.set(i, false);
        }
        i = i + 1;
    }
}

impl TerrainEdit {
    /// Ends the stroke in progress, if any, and clears every selection.
    pub fn drag_end(&mut self)
        requires
            old(self).wf(),
        ensures
            final(self).wf(),
            final(self).stroke is None,
            forall|i: int| 0 <= i < final(self).len() ==> !#[trigger] final(self).selected@[i],
            final(self).plane_entity == old(self).plane_entity,
            final(self).surface == old(self).surface,
            final(self).vertices == old(self).vertices,
            final(self).transforms == old(self).transforms,
            final(self).changed == old(self).changed,
            final(self).mesh == old(self).mesh,
    {
        self.stroke = None;
        clear_all(&mut self.selected);
        assert forall|i: int| 0 <= i < self.len() implies #[trigger] self.vertex_ok(i) by {
            assert(old(self).vertex_ok(i));
        }
    }

    /// Clears every selection; a stroke in progress goes on.
    pub fn deselect_all_vertices(&mut self)
        requires
            old(self).wf(),
        ensures
            final(self).wf(),
            forall|i: int| 0 <= i < final(self).len() ==> !#[trigger] final(self).selected@[i],
            final(self).plane_entity == old(self).plane_entity,
            final(self).surface == old(self).surface,
            final(self).vertices == old(self).vertices,
            final(self).transforms == old(self).transforms,
            final(self).changed == old(self).changed,
            final(self).mesh == old(self).mesh,
            final(self).stroke == old(self).stroke,
    {
        clear_all(&mut self.selected);
        assert forall|i: int| 0 <= i < self.len() implies #[trigger] self.vertex_ok(i) by {
            assert(old(self).vertex_ok(i));
        }
    }

    /// Starts a stroke at the world hit `hit` with the brush of `settings`.
    /// A stroke still in progress is ended first, which clears every
    /// selection; without a world hit no stroke is started.
    pub fn drag_start(&mut self, hit: Option<WorldPoint>, settings: &BrushSettings)
        requires
            old(self).wf(),
            settings.wf(),
        ensures
            final(self).wf(),
            final(self).stroke is Some <==> hit is Some,
            final(self).stroke matches Some(s) ==> s.typ == settings.typ && s.radius
                == settings.radius && Some(s.center) == hit && s.data@ == Seq::new(
                old(self).len(),
                |i: int| StrokeTest::Untested,
            ),
            forall|i: int| 0 <= i < final(self).len() ==> !#[trigger] final(self).selected@[i],
            final(self).plane_entity == old(self).plane_entity,
            final(self).surface == old(self).surface,
            final(self).vertices == old(self).vertices,
            final(self).transforms == old(self).transforms,
            final(self).changed == old(self).changed,
            final(self).mesh == old(self).mesh,
    {
        if self.stroke.is_some() {
            self.drag_end();
        }
        let ghost mid = *self;
        match hit {
            None => {},
            Some(p) => {
                self.stroke = Some(BrushStroke::new(settings.typ, settings.radius, p, self.vertices.len()));
            },
        }
        assert forall|i: int| 0 <= i < self.len() implies #[trigger] self.vertex_ok(i) by {
            assert(mid.vertex_ok(i));
        }
    }

    /// One drag-move frame of the stroke in progress, at the world hit `hit`.
    /// The stroke's indicator moves to the hit; every unselected vertex within
    /// reach of the brush becomes selected; then every selected vertex is
    /// deformed once and marked as moved. Without a stroke or a hit nothing
    /// changes. A raise never lifts a vertex above `COORD_LIMIT`: the height
    /// stops there, the largest the library's exact arithmetic supports.
    pub fn drag(&mut self, hit: Option<WorldPoint>)
        requires
            old(self).wf(),
            hit matches Some(p) ==> p.wf(),
        ensures
            final(self).wf(),
            final(self).plane_entity == old(self).plane_entity,
            final(self).surface == old(self).surface,
            final(self).vertices == old(self).vertices,
            final(self).mesh == old(self).mesh,
            final(self).stroke is Some <==> old(self).stroke is Some,
            (old(self).stroke is None || hit is None) ==> {
                &&& final(self).stroke == old(self).stroke
                &&& final(self).selected == old(self).selected
                &&& final(self).transforms == old(self).transforms
                &&& final(self).changed == old(self).changed
            },
            forall|i: int|
                0 <= i < old(self).len() && old(self).selected@[i] ==> #[trigger] final(
                    self).selected@[i],
            old(self).stroke matches Some(s) ==> (hit matches Some(p) ==> {
                let f = final(self).stroke->Some_0;
                &&& f.typ == s.typ
                &&& f.radius == s.radius
                &&& f.center == p
                &&& forall|i: int|
                    0 <= i < old(self).len() ==> #[trigger] final(self).selected@[i] == (old(self).selected@[i] || old(self).reaches(p, s.radius as int, i))
                &&& forall|i: int|
                    0 <= i < old(self).len() ==> #[trigger] final(self).transforms@[i] == (if final(self).selected@[i] {
                        raised(old(self).transforms@[i])
                    } else {
                        old(self).transforms@[i]
                    })
                &&& forall|i: int|
                    0 <= i < old(self).len() ==> #[trigger] final(self).changed@[i] == (old(self).changed@[i] || final(self).selected@[i])
                &&& forall|i: int|
                    0 <= i < old(self).len() && old(self).selected@[i] ==> #[trigger] f.data@[i]
                        == s.data@[i]
                &&& forall|i: int|
                    0 <= i < old(self).len() && !old(self).selected@[i] ==> #[trigger] f.data@[i]
                        == (if old(self).reaches(p, s.radius as int, i) {
                        StrokeTest::Positive
                    } else {
                        StrokeTest::Negative
                    })
            }),
    {
        let p = match hit {
            Some(p) => p,
            None => {
                return;
            },
        };
        let mut stroke = match self.stroke.take() {
            Some(s) => s,
            None => {
                return;
            },
        };
        stroke.center = p;
        assert forall|i: int| 0 <= i < self.len() implies fits_world(self.surface, #[trigger] self.transforms@[i])
            && 0 <= self.vertices@[i].radius <= COORD_LIMIT by {
            assert(old(self).vertex_ok(i));
        }
        scan(&self.surface, &self.vertices, &self.transforms, &mut self.selected, &mut stroke.data, p, stroke.radius);
        deform_selected(&stroke, &self.selected, &mut self.transforms, &mut self.changed);
        self.stroke = Some(stroke);
        assert forall|i: int| 0 <= i < self.len() implies #[trigger] self.vertex_ok(i) by {
            assert(old(self).vertex_ok(i));
        }
    }

    /// Brings the mesh up to date: the record of every moved vertex takes its
    /// current position, which is written into the mesh slot of the record's
    /// index, together with its colour.
    pub fn sync_mesh(&mut self)
        requires
            old(self).wf(),
        ensures
            final(self).wf(),
            final(self).plane_entity == old(self).plane_entity,
            final(self).surface == old(self).surface,
            final(self).transforms == old(self).transforms,
            final(self).selected == old(self).selected,
            final(self).stroke == old(self).stroke,
            final(self).len() == old(self).len(),
            forall|i: int|
                0 <= i < old(self).len() ==> #[trigger] final(self).vertices@[i] == (if old(self).changed@[i] {
                    synced(old(self).vertices@[i], old(self).transforms@[i])
                } else {
                    old(self).vertices@[i]
                }),
            forall|i: int|
                0 <= i < old(self).len() ==> #[trigger] final(self).vertices@[i].loc == final(self).transforms@[i],
            forall|i: int| 0 <= i < old(self).len() ==> !#[trigger] final(self).changed@[i],
            forall|i: int|
                0 <= i < old(self).len() ==> (#[trigger] final(self).vertices@[i]).index == old(
                    self).vertices@[i].index && final(self).mesh.positions@[final(self).vertices@[i].index as int]
                    == final(self).vertices@[i].loc,
    {
        assert forall|i: int| 0 <= i < self.len() implies (#[trigger] self.vertices@[i]).index == i by {
            assert(self.vertex_ok(i));
        }
        sync_slots(&mut self.vertices, &self.transforms, &mut self.changed, &mut self.mesh);
        assert forall|i: int| 0 <= i < self.len() implies #[trigger] self.vertex_ok(i) by {
            assert(old(self).vertex_ok(i));
        }
        assert forall|i: int| 0 <= i < self.len() implies #[trigger] self.vertices@[i].loc == self.transforms@[i] by {
            assert(old(self).vertex_ok(i));
        }
        assert forall|i: int| 0 <= i < self.len() implies (#[trigger] self.vertices@[i]).index
            == old(self).vertices@[i].index && self.mesh.positions@[self.vertices@[i].index as int]
            == self.vertices@[i].loc by {
            assert(old(self).vertex_ok(i));
            assert(self.vertex_ok(i));
        }
    }
}

/// Every vertex record keeps the slot it was registered for, and the mesh
/// holds in that slot the position and colour last written to the record.
pub proof fn lemma_mesh_matches_records(e: TerrainEdit)
    requires
        e.wf(),
    ensures
        forall|i: int|
            0 <= i < e.len() ==> (#[trigger] e.vertices@[i]).index == i && e.mesh.positions@[e.vertices@[
                i].index as int] == e.vertices@[i].loc && e.mesh.colors@[e.vertices@[i].index as int]
                == e.vertices@[i].clr,
{
    assert forall|i: int| 0 <= i < e.len() implies (#[trigger] e.vertices@[i]).index == i
        && e.mesh.positions@[e.vertices@[i].index as int] == e.vertices@[i].loc
        && e.mesh.colors@[e.vertices@[i].index as int] == e.vertices@[i].clr by {
        assert(e.vertex_ok(i));
    }
}

} // verus!
