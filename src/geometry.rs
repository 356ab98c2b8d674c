use vstd::prelude::*;

verus! {

/// Number of integer sub-units in one world unit.
pub const UNIT: i64 = 1000;

/// Largest magnitude of a coordinate, a direction component or a surface
/// extent, in sub-units, that the library accepts. Exact hit tests multiply
/// coordinates, scales and distances together; this bound keeps every such
/// product within 128-bit integers.
pub const COORD_LIMIT: i64 = 524288;

/// Bound on the numerator of a hit distance and of a span end.
pub const NUM_LIMIT: i64 = 8 * UNIT * COORD_LIMIT;

/// Bound on the denominator of a hit distance and of a span.
pub const DEN_LIMIT: i64 = 2 * UNIT * COORD_LIMIT;

/// A point or a vector with integer components in sub-units.
#[derive(Clone, Copy, Debug, PartialEq, Eq, Structural)]
pub struct Vec3i {
    pub x: i64,
    pub y: i64,
    pub z: i64,
}

impl Vec3i {
    pub open spec fn in_world(self) -> bool {
        -COORD_LIMIT <= self.x <= COORD_LIMIT && -COORD_LIMIT <= self.y <= COORD_LIMIT
            && -COORD_LIMIT <= self.z <= COORD_LIMIT
    }

    pub fn is_in_world(&self) -> (r: bool)
        ensures
            r == self.in_world(),
    {
        -COORD_LIMIT <= self.x && self.x <= COORD_LIMIT && -COORD_LIMIT <= self.y && self.y
            <= COORD_LIMIT && -COORD_LIMIT <= self.z && self.z <= COORD_LIMIT
    }

    pub fn new(x: i64, y: i64, z: i64) -> (r: Vec3i)
        ensures
            r == (Vec3i { x, y, z }),
    {
        Vec3i { x, y, z }
    }
}

/// A non-negative distance along a ray, `num / den` times the ray's
/// direction vector.
#[derive(Clone, Copy, Debug, PartialEq, Eq, Structural)]
pub struct Distance {
    pub num: i64,
    pub den: i64,
}

impl Distance {
    pub open spec fn wf(self) -> bool {
        0 <= self.num <= NUM_LIMIT && 0 < self.den <= DEN_LIMIT
    }
}

/// A finite rectangular ground plane: its width and height before scaling.
#[derive(Clone, Copy, Debug, PartialEq, Eq, Structural)]
pub struct PlaneToEdit {
    pub width: i64,
    pub height: i64,
    pub subdivisions: u32,
}

pub open spec fn abs(a: int) -> int {
    if a < 0 {
        -a
    } else {
        a
    }
}

/// Coordinate `o + (n / m) * d` lies within half of `extent / UNIT` of `c`
/// (all sides multiplied by `2 * UNIT * m`). The extent carries the scale's
/// factor `UNIT`: it is `UNIT` times the full extent in sub-units.
pub open spec fn axis_ok(o: int, d: int, c: int, extent: int, n: int, m: int) -> bool {
    -extent * m <= 2 * UNIT * (o * m + d * n - c * m) <= extent * m
}

impl PlaneToEdit {
    pub open spec fn wf(self) -> bool {
        0 < self.width && 0 < self.height
    }

    /// `UNIT` times the scaled width. A scale is in sub-units: `UNIT` is a
    /// scale of one, `UNIT / 2` halves the surface.
    pub open spec fn extent_x(self, scale: Vec3i) -> int {
        abs(self.width * scale.x)
    }

    /// `UNIT` times the scaled height (the scale's `y` applies to the height).
    pub open spec fn extent_z(self, scale: Vec3i) -> int {
        abs(self.height * scale.y)
    }

    /// The inputs of a hit test stay within the supported world.
    pub open spec fn placement_ok(self, loc: Vec3i, scale: Vec3i) -> bool {
        self.wf() && loc.in_world() && self.extent_x(scale) <= UNIT * COORD_LIMIT
            && self.extent_z(scale) <= UNIT * COORD_LIMIT
    }

    /// The point `origin + (n / m) * direction` lies on the rectangle placed
    /// at `loc` with `scale`: at the plane's height, within its half-extents.
    pub open spec fn on_surface_at(
        self,
        loc: Vec3i,
        scale: Vec3i,
        origin: Vec3i,
        direction: Vec3i,
        n: int,
        m: int,
    ) -> bool {
        &&& axis_ok(origin.x as int, direction.x as int, loc.x as int, self.extent_x(scale), n, m)
        &&& axis_ok(origin.y as int, direction.y as int, loc.y as int, 0, n, m)
        &&& axis_ok(origin.z as int, direction.z as int, loc.z as int, self.extent_z(scale), n, m)
    }

    /// `t` is the least non-negative distance at which the ray meets the surface.
    pub open spec fn is_first_hit(
        self,
        loc: Vec3i,
        scale: Vec3i,
        origin: Vec3i,
        direction: Vec3i,
        t: Distance,
    ) -> bool {
        &&& t.wf()
        &&& self.on_surface_at(loc, scale, origin, direction, t.num as int, t.den as int)
        &&& forall|n: int, m: int|
            #![trigger self.on_surface_at(loc, scale, origin, direction, n, m)]
            0 <= n && 0 < m && self.on_surface_at(loc, scale, origin, direction, n, m) ==> t.num
                * m <= n * t.den
    }

    /// The ray meets the surface at no non-negative distance.
    pub open spec fn never_hit(self, loc: Vec3i, scale: Vec3i, origin: Vec3i, direction: Vec3i) -> bool {
        forall|n: int, m: int|
            #![trigger self.on_surface_at(loc, scale, origin, direction, n, m)]
            0 <= n && 0 < m ==> !self.on_surface_at(loc, scale, origin, direction, n, m)
    }
}


/// Where along a ray one axis of a box is satisfied.
#[derive(Clone, Copy, Debug, PartialEq, Eq, Structural)]
pub enum Span {
    /// At no distance.
    Empty,
    /// At every distance.
    All,
    /// At the distances from `lo / den` to `hi / den`.
    Range { lo: i64, hi: i64, den: i64 },
}

impl Span {
    pub open spec fn wf(self) -> bool {
        match self {
            Span::Range { lo, hi, den } => -NUM_LIMIT <= lo <= NUM_LIMIT && -NUM_LIMIT <= hi
                <= NUM_LIMIT && 0 < den <= DEN_LIMIT,
            _ => true,
        }
    }

    /// The distance `n / m` lies in the span.
    pub open spec fn holds(self, n: int, m: int) -> bool {
        match self {
            Span::Empty => false,
            Span::All => true,
            Span::Range { lo, hi, den } => lo * m <= n * den && n * den <= hi * m,
        }
    }
}

proof fn lemma_axis_span(o: int, d: int, c: int, e: int, n: int, m: int)
    requires
        0 < m,
    ensures
        d > 0 ==> (axis_ok(o, d, c, e, n, m) <==> ((2 * UNIT * (c - o) - e) * m <= n * (2 * UNIT
            * d) && n * (2 * UNIT * d) <= (2 * UNIT * (c - o) + e) * m)),
        d < 0 ==> (axis_ok(o, d, c, e, n, m) <==> ((-(2 * UNIT * (c - o) + e)) * m <= n * (-(2
            * UNIT * d)) && n * (-(2 * UNIT * d)) <= (-(2 * UNIT * (c - o) - e)) * m)),
        d == 0 ==> (axis_ok(o, d, c, e, n, m) <==> (2 * UNIT * (c - o) - e <= 0 && 0 <= 2 * UNIT
            * (c - o) + e)),
{
    let k = 2 * UNIT;
    let x = d * n;
    let y = (c - o) * m;
    let z = e * m;
    assert(k * (o * m + d * n - c * m) == k * x - k * y) by (nonlinear_arith)
        requires
            x == d * n,
            y == (c - o) * m,
    ;
    assert(-e * m == -z) by (nonlinear_arith)
        requires
            z == e * m,
    ;
    assert((k * (c - o) - e) * m == k * y - z) by (nonlinear_arith)
        requires
            y == (c - o) * m,
            z == e * m,
    ;
    assert((k * (c - o) + e) * m == k * y + z) by (nonlinear_arith)
        requires
            y == (c - o) * m,
            z == e * m,
    ;
    assert((-(k * (c - o) + e)) * m == -k * y - z) by (nonlinear_arith)
        requires
            y == (c - o) * m,
            z == e * m,
    ;
    assert((-(k * (c - o) - e)) * m == -k * y + z) by (nonlinear_arith)
        requires
            y == (c - o) * m,
            z == e * m,
    ;
    assert(n * (k * d) == k * x) by (nonlinear_arith)
        requires
            x == d * n,
    ;
    assert(n * (-(k * d)) == -k * x) by (nonlinear_arith)
        requires
            x == d * n,
    ;
    if d < 0 {
        assert(n * (-(2 * UNIT * d)) == -(n * (2 * UNIT * d))) by (nonlinear_arith);
        assert((-(2 * UNIT * (c - o) + e)) * m == -((2 * UNIT * (c - o) + e) * m)) by (nonlinear_arith);
        assert((-(2 * UNIT * (c - o) - e)) * m == -((2 * UNIT * (c - o) - e) * m)) by (nonlinear_arith);
    }
    if d == 0 {
        assert(x == 0);
        assert((k * (c - o) - e) * m <= 0 <==> k * (c - o) - e <= 0) by (nonlinear_arith)
            requires
                0 < m,
        ;
        assert(0 <= (k * (c - o) + e) * m <==> 0 <= k * (c - o) + e) by (nonlinear_arith)
            requires
                0 < m,
        ;
    }
}

/// The span of distances at which `o + t * d` lies within half of `e / UNIT`
/// of `c`.
pub fn axis_span(o: i64, d: i64, c: i64, e: i64) -> (s: Span)
    requires
        -COORD_LIMIT <= o <= COORD_LIMIT,
        -COORD_LIMIT <= d <= COORD_LIMIT,
        -COORD_LIMIT <= c <= COORD_LIMIT,
        0 <= e <= UNIT * COORD_LIMIT,
    ensures
        s.wf(),
        forall|n: int, m: int|
            #![trigger axis_ok(o as int, d as int, c as int, e as int, n, m)]
            0 < m ==> (s.holds(n, m) <==> axis_ok(o as int, d as int, c as int, e as int, n, m)),
{
    let a = 2 * UNIT * (c - o) - e;
    let b = 2 * UNIT * (c - o) + e;
    let s = if d > 0 {
        Span::Range { lo: a, hi: b, den: 2 * UNIT * d }
    } else if d < 0 {
        Span::Range { lo: -b, hi: -a, den: -(2 * UNIT * d) }
    } else if a <= 0 && 0 <= b {
        Span::All
    } else {
        Span::Empty
    };
    assert forall|n: int, m: int|
        #![trigger axis_ok(o as int, d as int, c as int, e as int, n, m)]
        0 < m implies (s.holds(n, m) <==> axis_ok(o as int, d as int, c as int, e as int, n, m)) by {
        lemma_axis_span(o as int, d as int, c as int, e as int, n, m);
    }
    s
}


/// `a / b <= c / d` for positive `b` and `d`.
pub open spec fn frac_le(a: int, b: int, c: int, d: int) -> bool {
    a * d <= c * b
}

pub proof fn lemma_frac_le_trans(a: int, b: int, c: int, d: int, e: int, f: int)
    requires
        0 < b,
        0 < d,
        0 < f,
        frac_le(a, b, c, d),
        frac_le(c, d, e, f),
    ensures
        frac_le(a, b, e, f),
{
    assert(a * d * f <= c * b * f) by (nonlinear_arith)
        requires
            a * d <= c * b,
            0 < f,
    ;
    assert(c * f * b <= e * d * b) by (nonlinear_arith)
        requires
            c * f <= e * d,
            0 < b,
    ;
    assert(a * f * d <= e * b * d) by (nonlinear_arith)
        requires
            a * d * f <= c * b * f,
            c * f * b <= e * d * b,
    ;
    assert(a * f <= e * b) by (nonlinear_arith)
        requires
            a * f * d <= e * b * d,
            0 < d,
    ;
}

/// Products of the bounds on distances and spans stay far within `i128`.
pub proof fn lemma_limits()
    ensures
        NUM_LIMIT * DEN_LIMIT == 4398046511104000000,
        NUM_LIMIT * NUM_LIMIT == 17592186044416000000,
{
    assert(NUM_LIMIT * DEN_LIMIT == 4398046511104000000) by (nonlinear_arith);
    assert(NUM_LIMIT * NUM_LIMIT == 17592186044416000000) by (nonlinear_arith);
}

pub proof fn lemma_mul_bound(a: int, b: int, ba: int, bb: int)
    requires
        -ba <= a <= ba,
        -bb <= b <= bb,
    ensures
        -(ba * bb) <= a * b <= ba * bb,
{
    assert(-(ba * bb) <= a * b <= ba * bb) by (nonlinear_arith)
        requires
            -ba <= a <= ba,
            -bb <= b <= bb,
    ;
}

/// Raises the entry distance `t` to the lower end of `s`, if that is later.
fn raise_entry(t: Distance, s: Span) -> (r: Distance)
    requires
        t.wf(),
        s.wf(),
    ensures
        r.wf(),
        frac_le(t.num as int, t.den as int, r.num as int, r.den as int),
        r == t || (s matches Span::Range { lo, den, .. } && r.num == lo && r.den == den),
        s matches Span::Range { lo, den, .. } ==> frac_le(lo as int, den as int, r.num as int, r.den as int),
{
    match s {
        Span::Range { lo, hi, den } => {
            proof {
                lemma_limits();
                lemma_mul_bound(lo as int, t.den as int, NUM_LIMIT as int, DEN_LIMIT as int);
                lemma_mul_bound(t.num as int, den as int, NUM_LIMIT as int, DEN_LIMIT as int);
            }
            if (lo as i128) * (t.den as i128) > (t.num as i128) * (den as i128) {
                assert(lo > 0) by (nonlinear_arith)
                    requires
                        lo * t.den > t.num * den,
                        0 <= t.num,
                        0 < t.den,
                        0 < den,
                ;
                Distance { num: lo, den }
            } else {
                t
            }
        },
        _ => t,
    }
}

/// The entry distance `t` is not past the upper end of `s`.
fn fits_span(t: Distance, s: Span) -> (r: bool)
    requires
        t.wf(),
        s.wf(),
    ensures
        r == match s {
            Span::Empty => false,
            Span::All => true,
            Span::Range { hi, den, .. } => frac_le(t.num as int, t.den as int, hi as int, den as int),
        },
{
    match s {
        Span::Empty => false,
        Span::All => true,
        Span::Range { lo, hi, den } => {
            proof {
                lemma_limits();
                lemma_mul_bound(hi as int, t.den as int, NUM_LIMIT as int, DEN_LIMIT as int);
                lemma_mul_bound(t.num as int, den as int, NUM_LIMIT as int, DEN_LIMIT as int);
            }
            (t.num as i128) * (den as i128) <= (hi as i128) * (
        t.den as i128)
        },
    }
}

impl PlaneToEdit {
    /// Distance along the ray `origin + t * direction` at which it first meets
    /// this surface placed at `loc` with `scale`, or `None` if it never does.
    /// The surface is a rectangle of zero depth, so a ray parallel to it meets
    /// it only when it runs within its plane.
    pub fn ray_intersection(&self, loc: Vec3i, scale: Vec3i, origin: Vec3i, direction: Vec3i) -> (r:
        Option<Distance>)
        requires
            self.placement_ok(loc, scale),
            origin.in_world(),
            direction.in_world(),
        ensures
            match r {
                Some(t) => self.is_first_hit(loc, scale, origin, direction, t),
                None => self.never_hit(loc, scale, origin, direction),
            },
            direction.y == 0 && origin.y != loc.y ==> r is None,
    {
        let wx = self.width * scale.x;
        let ex = if wx < 0 {
            -wx
        } else {
            wx
        };
        let wz = self.height * scale.y;
        let ez = if wz < 0 {
            -wz
        } else {
            wz
        };
        let sx = axis_span(origin.x, direction.x, loc.x, ex);
        let sy = axis_span(origin.y, direction.y, loc.y, 0);
        let sz = axis_span(origin.z, direction.z, loc.z, ez);
        let t0 = Distance { num: 0, den: 1 };
        let t1 = raise_entry(t0, sx);
        let t2 = raise_entry(t1, sy);
        let t = raise_entry(t2, sz);
        let ghost on = |n: int, m: int| self.on_surface_at(loc, scale, origin, direction, n, m);
        assert forall|n: int, m: int| 0 <= n && 0 < m && #[trigger] on(n, m) implies frac_le(
            t.num as int,
            t.den as int,
            n,
            m,
        ) by {
            assert(axis_ok(origin.x as int, direction.x as int, loc.x as int, ex as int, n, m));
            assert(axis_ok(origin.y as int, direction.y as int, loc.y as int, 0, n, m));
            assert(axis_ok(origin.z as int, direction.z as int, loc.z as int, ez as int, n, m));
            assert(0 * m <= n * 1) by (nonlinear_arith)
                requires
                    0 <= n,
            ;
        }
        let fx = fits_span(t, sx);
        let fy = fits_span(t, sy);
        let fz = fits_span(t, sz);
        if fx && fy && fz {
            proof {
                if let Span::Range { lo, den, .. } = sx {
                    lemma_frac_le_trans(lo as int, den as int, t1.num as int, t1.den as int, t2.num as int, t2.den as int);
                    lemma_frac_le_trans(lo as int, den as int, t2.num as int, t2.den as int, t.num as int, t.den as int);
                }
                if let Span::Range { lo, den, .. } = sy {
                    lemma_frac_le_trans(lo as int, den as int, t2.num as int, t2.den as int, t.num as int, t.den as int);
                }
                assert(axis_ok(origin.x as int, direction.x as int, loc.x as int, ex as int, t.num as int, t.den as int));
                assert(axis_ok(origin.y as int, direction.y as int, loc.y as int, 0, t.num as int, t.den as int));
                assert(axis_ok(origin.z as int, direction.z as int, loc.z as int, ez as int, t.num as int, t.den as int));
                assert forall|n: int, m: int|
                    #![trigger self.on_surface_at(loc, scale, origin, direction, n, m)]
                    0 <= n && 0 < m && self.on_surface_at(loc, scale, origin, direction, n, m)
                    implies t.num * m <= n * t.den by {
                    assert(on(n, m));
                }
            }
            proof {
                if direction.y == 0 && origin.y != loc.y {
                    lemma_parallel_ray_misses(*self, loc, scale, origin, direction);
                }
            }
            Some(t)
        } else {
            proof {
                assert forall|n: int, m: int|
                    #![trigger self.on_surface_at(loc, scale, origin, direction, n, m)]
                    0 <= n && 0 < m implies !self.on_surface_at(loc, scale, origin, direction, n, m) by {
                    if self.on_surface_at(loc, scale, origin, direction, n, m) {
                        assert(on(n, m));
                        assert(axis_ok(origin.x as int, direction.x as int, loc.x as int, ex as int, n, m));
                        assert(axis_ok(origin.y as int, direction.y as int, loc.y as int, 0, n, m));
                        assert(axis_ok(origin.z as int, direction.z as int, loc.z as int, ez as int, n, m));
                        if let Span::Range { hi, den, .. } = sx {
                            lemma_frac_le_trans(t.num as int, t.den as int, n, m, hi as int, den as int);
                        }
                        if let Span::Range { hi, den, .. } = sy {
                            lemma_frac_le_trans(t.num as int, t.den as int, n, m, hi as int, den as int);
                        }
                        if let Span::Range { hi, den, .. } = sz {
                            lemma_frac_le_trans(t.num as int, t.den as int, n, m, hi as int, den as int);
                        }
                    }
                }
            }
            None
        }
    }
}


/// A first hit of a ray on a surface is unique as a distance.
pub proof fn lemma_first_hit_unique(
    plane: PlaneToEdit,
    loc: Vec3i,
    scale: Vec3i,
    origin: Vec3i,
    direction: Vec3i,
    t: Distance,
    u: Distance,
)
    requires
        plane.is_first_hit(loc, scale, origin, direction, t),
        plane.is_first_hit(loc, scale, origin, direction, u),
    ensures
        frac_le(t.num as int, t.den as int, u.num as int, u.den as int),
        frac_le(u.num as int, u.den as int, t.num as int, t.den as int),
        t.num > 0 <==> u.num > 0,
{
    assert(plane.on_surface_at(loc, scale, origin, direction, u.num as int, u.den as int));
    assert(plane.on_surface_at(loc, scale, origin, direction, t.num as int, t.den as int));
    assert(t.num > 0 <==> u.num > 0) by (nonlinear_arith)
        requires
            t.num * u.den <= u.num * t.den,
            u.num * t.den <= t.num * u.den,
            0 <= t.num,
            0 <= u.num,
            0 < t.den,
            0 < u.den,
    ;
}

/// A ray whose direction has no vertical component, starting off the
/// plane's height, never meets the surface.
pub proof fn lemma_parallel_ray_misses(
    plane: PlaneToEdit,
    loc: Vec3i,
    scale: Vec3i,
    origin: Vec3i,
    direction: Vec3i,
)
    requires
        direction.y == 0,
        origin.y != loc.y,
    ensures
        plane.never_hit(loc, scale, origin, direction),
        forall|t: Distance| !plane.is_first_hit(loc, scale, origin, direction, t),
{
    assert forall|n: int, m: int|
        #![trigger plane.on_surface_at(loc, scale, origin, direction, n, m)]
        0 < m implies !plane.on_surface_at(loc, scale, origin, direction, n, m) by {
        let gap = origin.y - loc.y;
        assert(origin.y * m + direction.y * n - loc.y * m == gap * m) by (nonlinear_arith)
            requires
                direction.y == 0,
                gap == origin.y - loc.y,
        ;
        assert(gap * m != 0) by (nonlinear_arith)
            requires
                gap != 0,
                0 < m,
        ;
    }
    assert forall|t: Distance| !plane.is_first_hit(loc, scale, origin, direction, t) by {
        if t.wf() {
            assert(!plane.on_surface_at(loc, scale, origin, direction, t.num as int, t.den as int));
        }
    }
}

} // verus!
