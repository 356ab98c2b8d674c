use vstd::prelude::*;
use crate::geometry::{COORD_LIMIT, DEN_LIMIT, NUM_LIMIT, UNIT, Distance, PlaneToEdit, Vec3i, frac_le, lemma_first_hit_unique, lemma_frac_le_trans};

verus! {

/// A surface in the scene: its descriptor and its world placement. The scale
/// is in sub-units, `UNIT` standing for a scale of one.
#[derive(Clone, Copy, Debug, PartialEq, Eq, Structural)]
pub struct PlacedSurface {
    pub plane: PlaneToEdit,
    pub translation: Vec3i,
    pub scale: Vec3i,
}

impl PlacedSurface {
    pub open spec fn wf(self) -> bool {
        self.plane.placement_ok(self.translation, self.scale)
    }

    /// Whether the surface and its placement lie within the supported world.
    pub fn is_valid(&self) -> (r: bool)
        ensures
            r == self.wf(),
    {
        let l = (UNIT as i128) * (COORD_LIMIT as i128);
        let p = self.plane;
        proof {
            crate::geometry::lemma_mul_bound(p.width as int, self.scale.x as int, 0x8000_0000_0000_0000, 0x8000_0000_0000_0000);
            crate::geometry::lemma_mul_bound(p.height as int, self.scale.y as int, 0x8000_0000_0000_0000, 0x8000_0000_0000_0000);
        }
        let wx = (p.width as i128) * (self.scale.x as i128);
        let wz = (p.height as i128) * (self.scale.y as i128);
        0 < p.width && 0 < p.height && self.translation.is_in_world() && -l <= wx && wx <= l && -l
            <= wz && wz <= l
    }

    /// The ray first meets this surface at `t`, strictly ahead of its origin.
    pub open spec fn positive_hit(self, origin: Vec3i, direction: Vec3i, t: Distance) -> bool {
        self.plane.is_first_hit(self.translation, self.scale, origin, direction, t) && t.num > 0
    }
}

/// A point with rational coordinates `(x / den, y / den, z / den)`.
#[derive(Clone, Copy, Debug, PartialEq, Eq, Structural)]
pub struct WorldPoint {
    pub x: i64,
    pub y: i64,
    pub z: i64,
    pub den: i64,
}

impl WorldPoint {
    pub open spec fn wf(self) -> bool {
        &&& -HIT_LIMIT <= self.x <= HIT_LIMIT
        &&& -HIT_LIMIT <= self.y <= HIT_LIMIT
        &&& -HIT_LIMIT <= self.z <= HIT_LIMIT
        &&& 0 < self.den <= DEN_LIMIT
    }
}

/// Bound on the scaled coordinates of a point along a ray.
pub const HIT_LIMIT: i64 = 10 * UNIT * COORD_LIMIT * COORD_LIMIT;

/// The point `origin + t * direction`.
pub open spec fn point_at(origin: Vec3i, direction: Vec3i, t: Distance) -> WorldPoint {
    WorldPoint {
        x: (origin.x * t.den + direction.x * t.num) as i64,
        y: (origin.y * t.den + direction.y * t.num) as i64,
        z: (origin.z * t.den + direction.z * t.num) as i64,
        den: t.den,
    }
}

/// A cursor position on the screen, in pixels.
#[derive(Clone, Copy, Debug, PartialEq, Eq, Structural)]
pub struct CursorPos {
    pub x: i64,
    pub y: i64,
}

/// What is known of the pointer during one frame.
#[derive(Clone, Copy, Debug, PartialEq, Eq, Structural)]
pub struct PointerData {
    pub cursor_pos: Option<CursorPos>,
    pub world_pos: Option<WorldPoint>,
}

impl PointerData {
    /// Nothing known.
    pub fn new() -> (r: PointerData)
        ensures
            r.cursor_pos is None,
            r.world_pos is None,
    {
        PointerData { cursor_pos: None, world_pos: None }
    }

    /// Forgets everything known.
    pub fn reset(&mut self)
        ensures
            final(self).cursor_pos is None,
            final(self).world_pos is None,
    {
        *self = PointerData::new();
    }
}

/// The nearest surface that the ray meets strictly ahead of its origin, with
/// the distance; the first such surface on a tie.
pub fn nearest_hit(surfaces: &Vec<PlacedSurface>, origin: Vec3i, direction: Vec3i) -> (r: Option<
    (usize, Distance),
>)
    requires
        forall|i: int| 0 <= i < surfaces@.len() ==> #[trigger] surfaces@[i].wf(),
        origin.in_world(),
        direction.in_world(),
    ensures
        match r {
            Some((i, t)) => {
                &&& i < surfaces@.len()
                &&& surfaces@[i as int].positive_hit(origin, direction, t)
                &&& forall|j: int, u: Distance|
                    0 <= j < surfaces@.len() && #[trigger] surfaces@[j].positive_hit(
                        origin,
                        direction,
                        u,
                    ) ==> frac_le(t.num as int, t.den as int, u.num as int, u.den as int)
                &&& forall|j: int, u: Distance|
                    0 <= j < i && #[trigger] surfaces@[j].positive_hit(origin, direction, u)
                        ==> !frac_le(u.num as int, u.den as int, t.num as int, t.den as int)
            },
            None => forall|j: int, u: Distance|
                0 <= j < surfaces@.len() ==> !#[trigger] surfaces@[j].positive_hit(
                    origin,
                    direction,
                    u,
                ),
        },
{
    let mut best: Option<(usize, Distance)> = None;
    let mut k: usize = 0;
    while k < surfaces.len()
        invariant
            k <= surfaces@.len(),
            forall|i: int| 0 <= i < surfaces@.len() ==> #[trigger] surfaces@[i].wf(),
            origin.in_world(),
            direction.in_world(),
            match best {
                Some((i, t)) => {
                    &&& i < k
                    &&& surfaces@[i as int].positive_hit(origin, direction, t)
                    &&& forall|j: int, u: Distance|
                        0 <= j < k && #[trigger] surfaces@[j].positive_hit(origin, direction, u)
                            ==> frac_le(t.num as int, t.den as int, u.num as int, u.den as int)
                    &&& forall|j: int, u: Distance|
                        0 <= j < i && #[trigger] surfaces@[j].positive_hit(origin, direction, u)
                            ==> !frac_le(u.num as int, u.den as int, t.num as int, t.den as int)
                },
                None => forall|j: int, u: Distance|
                    0 <= j < k ==> !#[trigger] surfaces@[j].positive_hit(origin, direction, u),
            },
        decreases surfaces@.len() - k,
    {
        let s = surfaces[k];
        assert(surfaces@[k as int].wf());
        let hit = s.plane.ray_intersection(s.translation, s.scale, origin, direction);
        let old_best = best;
        match hit {
            Some(tk) => {
                if tk.num > 0 {
                    let better = match best {
                        None => true,
                        Some((_, t)) => {
                            proof {
                                crate::geometry::lemma_mul_bound(tk.num as int, t.den as int, NUM_LIMIT as int, DEN_LIMIT as int);
                                crate::geometry::lemma_mul_bound(t.num as int, tk.den as int, NUM_LIMIT as int, DEN_LIMIT as int);
                                crate::geometry::lemma_limits();
                            }
                            (tk.num as i128) * (t.den as i128) < (t.num as i128) * (tk.den as i128)
                        },
                    };
                    if better {
                        best = Some((k, tk));
                    } else {
                        assert(old_best matches Some((_, t)) && frac_le(t.num as int, t.den as int, tk.num as int, tk.den as int));
                    }
                }
            },
            None => {},
        }
        proof {
            assert forall|j: int, u: Distance|
                0 <= j < k + 1 && #[trigger] surfaces@[j].positive_hit(origin, direction, u)
                implies j < k || (hit matches Some(tk) && tk.num > 0 && frac_le(tk.num as int, tk.den as int, u.num as int, u.den as int)
                    && frac_le(u.num as int, u.den as int, tk.num as int, tk.den as int)) by {
                if j == k {
                    match hit {
                        Some(tk) => {
                            lemma_first_hit_unique(s.plane, s.translation, s.scale, origin, direction, tk, u);
                        },
                        None => {
                            assert(surfaces@[j] == s);
                            assert(s.plane.on_surface_at(s.translation, s.scale, origin, direction, u.num as int, u.den as int));
                        },
                    }
                }
            }
            match best {
                Some((i, t)) => {
                    assert forall|j: int, u: Distance|
                        0 <= j < k + 1 && #[trigger] surfaces@[j].positive_hit(origin, direction, u)
                        implies frac_le(t.num as int, t.den as int, u.num as int, u.den as int) by {
                        if j < k && i == k {
                            if let Some((_, t0)) = old_best {
                                lemma_frac_le_trans(t.num as int, t.den as int, t0.num as int, t0.den as int, u.num as int, u.den as int);
                            }
                        }
                        if j == k {
                            if let Some((_, t0)) = old_best {
                                if i < k {
                                    let tk = hit->Some_0;
                                    lemma_frac_le_trans(t.num as int, t.den as int, tk.num as int, tk.den as int, u.num as int, u.den as int);
                                }
                            }
                        }
                    }
                    if i == k {
                        if let Some((_, t0)) = old_best {
                            assert forall|j: int, u: Distance|
                                0 <= j < i && #[trigger] surfaces@[j].positive_hit(origin, direction, u)
                                implies !frac_le(u.num as int, u.den as int, t.num as int, t.den as int) by {
                                if frac_le(u.num as int, u.den as int, t.num as int, t.den as int) {
                                    lemma_frac_le_trans(t0.num as int, t0.den as int, u.num as int, u.den as int, t.num as int, t.den as int);
                                }
                            }
                        }
                    }
                },
                None => {},
            }
        }
        k = k + 1;
    }
    best
}


/// A ray from the camera through the cursor.
#[derive(Clone, Copy, Debug, PartialEq, Eq, Structural)]
pub struct Ray {
    pub origin: Vec3i,
    pub direction: Vec3i,
}

impl Ray {
    pub open spec fn wf(self) -> bool {
        self.origin.in_world() && self.direction.in_world()
    }

    /// Whether the ray lies within the supported world.
    pub fn is_valid(&self) -> (r: bool)
        ensures
            r == self.wf(),
    {
        self.origin.is_in_world() && self.direction.is_in_world()
    }
}

/// `t` is the distance of a hit strictly ahead of the origin on some surface,
/// and no surface is hit strictly ahead of the origin at a smaller distance.
pub open spec fn is_nearest(surfaces: Seq<PlacedSurface>, ray: Ray, t: Distance) -> bool {
    &&& exists|i: int| 0 <= i < surfaces.len() && #[trigger] surfaces[i].positive_hit(ray.origin, ray.direction, t)
    &&& forall|j: int, u: Distance|
        0 <= j < surfaces.len() && #[trigger] surfaces[j].positive_hit(ray.origin, ray.direction, u)
            ==> frac_le(t.num as int, t.den as int, u.num as int, u.den as int)
}

/// Some surface is hit strictly ahead of the ray's origin.
pub open spec fn hits_any(surfaces: Seq<PlacedSurface>, ray: Ray) -> bool {
    exists|j: int, u: Distance|
        0 <= j < surfaces.len() && #[trigger] surfaces[j].positive_hit(ray.origin, ray.direction, u)
}

/// The point at distance `t` along `ray`.
pub fn point_along(ray: Ray, t: Distance) -> (p: WorldPoint)
    requires
        ray.wf(),
        t.wf(),
    ensures
        p == point_at(ray.origin, ray.direction, t),
        p.wf(),
{
    let o = ray.origin;
    let d = ray.direction;
    proof {
        let l = COORD_LIMIT as int;
        assert(COORD_LIMIT * DEN_LIMIT + COORD_LIMIT * NUM_LIMIT == HIT_LIMIT) by (nonlinear_arith);
        crate::geometry::lemma_mul_bound(o.x as int, t.den as int, l, DEN_LIMIT as int);
        crate::geometry::lemma_mul_bound(o.y as int, t.den as int, l, DEN_LIMIT as int);
        crate::geometry::lemma_mul_bound(o.z as int, t.den as int, l, DEN_LIMIT as int);
        crate::geometry::lemma_mul_bound(d.x as int, t.num as int, l, NUM_LIMIT as int);
        crate::geometry::lemma_mul_bound(d.y as int, t.num as int, l, NUM_LIMIT as int);
        crate::geometry::lemma_mul_bound(d.z as int, t.num as int, l, NUM_LIMIT as int);
    }
    WorldPoint {
        x: o.x * t.den + d.x * t.num,
        y: o.y * t.den + d.y * t.num,
        z: o.z * t.den + d.z * t.num,
        den: t.den,
    }
}

/// One frame of pointer projection. The cursor position is recorded when
/// known; the world hit is the point where the camera ray first meets the
/// nearest surface, and is known only when the cursor is known, not over
/// the user interface, and a ray is available that hits some surface.
pub fn project_pointer(
    cursor: Option<CursorPos>,
    over_ui: bool,
    ray: Option<Ray>,
    surfaces: &Vec<PlacedSurface>,
) -> (r: PointerData)
    requires
        forall|i: int| 0 <= i < surfaces@.len() ==> #[trigger] surfaces@[i].wf(),
        ray matches Some(ray) ==> ray.wf(),
    ensures
        r.cursor_pos == cursor,
        r.world_pos is Some <==> (cursor is Some && !over_ui && ray is Some && hits_any(
            surfaces@,
            ray->Some_0,
        )),
        r.world_pos matches Some(p) ==> p.wf(),
        r.world_pos matches Some(p) ==> exists|t: Distance|
            #![trigger point_at(ray->Some_0.origin, ray->Some_0.direction, t)]
            is_nearest(surfaces@, ray->Some_0, t) && t.wf() && p == point_at(
                ray->Some_0.origin,
                ray->Some_0.direction,
                t,
            ),
{
    let mut data = PointerData::new();
    if cursor.is_none() {
        return data;
    }
    data.cursor_pos = cursor;
    if over_ui {
        return data;
    }
    match ray {
        None => data,
        Some(ray) => {
            match nearest_hit(surfaces, ray.origin, ray.direction) {
                Some((i, t)) => {
                    let p = point_along(ray, t);
                    assert(surfaces@[i as int].positive_hit(ray.origin, ray.direction, t));
                    assert(is_nearest(surfaces@, ray, t));
                    data.world_pos = Some(p);
                    data
                },
                None => data,
            }
        },
    }
}

} // verus!
