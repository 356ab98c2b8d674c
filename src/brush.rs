use vstd::prelude::*;
use crate::geometry::{COORD_LIMIT, DEN_LIMIT, UNIT, Vec3i, lemma_mul_bound};
use crate::pointer::{PlacedSurface, WorldPoint, HIT_LIMIT};

verus! {

/// Height added to a selected vertex each frame by a height-raise brush.
pub const RAISE_STEP: i64 = 500;

/// The kind of deformation a brush applies.
#[derive(Clone, Copy, Debug, PartialEq, Eq, Structural)]
pub enum BrushType {
    /// Raises selected vertices.
    Heights,
}

impl BrushType {
    pub fn to_str(&self) -> (r: &'static str)
        ensures
            r@ == "heights"@,
    {
        match self {
            BrushType::Heights => "heights",
        }
    }
}

/// The brush that the next stroke will use.
#[derive(Clone, Copy, Debug, PartialEq, Eq, Structural)]
pub struct BrushSettings {
    pub typ: BrushType,
    pub radius: i64,
}

impl BrushSettings {
    pub open spec fn wf(self) -> bool {
        0 <= self.radius <= COORD_LIMIT
    }

    /// Whether the radius lies within the supported world.
    pub fn is_valid(&self) -> (r: bool)
        ensures
            r == self.wf(),
    {
        0 <= self.radius && self.radius <= COORD_LIMIT
    }
}

impl Default for BrushSettings {
    fn default() -> (r: BrushSettings)
        ensures
            r == (BrushSettings { typ: BrushType::Heights, radius: UNIT }),
    {
        BrushSettings { typ: BrushType::Heights, radius: UNIT }
    }
}

/// What a stroke has learnt of one vertex.
#[derive(Clone, Copy, Debug, PartialEq, Eq, Structural)]
pub enum StrokeTest {
    Untested,
    /// Out of reach when last tested.
    Negative,
    /// Found within reach.
    Positive,
}

/// A brush stroke in progress.
#[derive(Debug)]
pub struct BrushStroke {
    pub typ: BrushType,
    pub radius: i64,
    /// Where the stroke's indicator stands: the latest world hit.
    pub center: WorldPoint,
    /// Per vertex slot, the outcome of the last test in this stroke.
    pub data: Vec<StrokeTest>,
}

/// The position `t` after one height-raise step, stopped at `COORD_LIMIT`.
pub open spec fn raised(t: Vec3i) -> Vec3i {
    Vec3i {
        y: if t.y + RAISE_STEP <= COORD_LIMIT {
            (t.y + RAISE_STEP) as i64
        } else {
            COORD_LIMIT
        },
        ..t
    }
}

impl BrushStroke {
    pub fn new(typ: BrushType, radius: i64, center: WorldPoint, n: usize) -> (r: BrushStroke)
        ensures
            r.typ == typ,
            r.radius == radius,
            r.center == center,
            r.data@ == Seq::new(n as nat, |i: int| StrokeTest::Untested),
    {
        let mut data: Vec<StrokeTest> = Vec::new();
        let mut i: usize = 0;
        while i < n
            invariant
                i <= n,
                data@ == Seq::new(i as nat, |j: int| StrokeTest::Untested),
            decreases n - i,
        {
            data.push(StrokeTest::Untested);
            i = i + 1;
            assert(data@ =~= Seq::new(i as nat, |j: int| StrokeTest::Untested));
        }
        BrushStroke { typ, radius, center, data }
    }

    /// Applies the stroke's deformation to one vertex position: a height-raise
    /// brush lifts it by `RAISE_STEP`, stopping at `COORD_LIMIT`, the highest
    /// position the library supports.
    pub fn apply(&self, transform: &mut Vec3i)
        requires
            old(transform).in_world(),
        ensures
            *final(transform) == raised(*old(transform)),
            final(transform).in_world(),
    {
        match self.typ {
            BrushType::Heights => {
                if transform.y <= COORD_LIMIT - RAISE_STEP {
                    transform.y = transform.y + RAISE_STEP;
                } else {
                    transform.y = COORD_LIMIT;
                }
            },
        }
    }
}

/// The planar (horizontal) distance from `p` to `(wx / UNIT, wz / UNIT)` is
/// at most `limit`: both sides are multiplied by `UNIT * p.den`.
pub open spec fn within_reach(p: WorldPoint, wx: int, wz: int, limit: int) -> bool {
    let dx = p.x * UNIT - wx * p.den;
    let dz = p.z * UNIT - wz * p.den;
    dx * dx + dz * dz <= (limit * p.den * UNIT) * (limit * p.den * UNIT)
}

proof fn lemma_square_bound(a: int, b: int)
    requires
        -b <= a <= b,
    ensures
        0 <= a * a <= b * b,
{
    assert(0 <= a * a <= b * b) by (nonlinear_arith)
        requires
            -b <= a <= b,
    ;
}

/// Whether `p` is within `limit` of `(wx / UNIT, wz / UNIT)` in the
/// horizontal plane.
pub fn in_reach(p: WorldPoint, wx: i64, wz: i64, limit: i64) -> (r: bool)
    requires
        p.wf(),
        -UNIT * COORD_LIMIT <= wx <= UNIT * COORD_LIMIT,
        -UNIT * COORD_LIMIT <= wz <= UNIT * COORD_LIMIT,
        0 <= limit <= 2 * COORD_LIMIT,
    ensures
        r == within_reach(p, wx as int, wz as int, limit as int),
{
    proof {
        assert(HIT_LIMIT * UNIT == 2748779069440000000) by (nonlinear_arith);
        assert(UNIT * COORD_LIMIT * DEN_LIMIT == 549755813888000000) by (nonlinear_arith);
        assert(2 * COORD_LIMIT * DEN_LIMIT == 1099511627776000) by (nonlinear_arith);
        lemma_mul_bound(p.x as int, UNIT as int, HIT_LIMIT as int, UNIT as int);
        lemma_mul_bound(p.z as int, UNIT as int, HIT_LIMIT as int, UNIT as int);
        lemma_mul_bound(wx as int, p.den as int, UNIT * COORD_LIMIT, DEN_LIMIT as int);
        lemma_mul_bound(wz as int, p.den as int, UNIT * COORD_LIMIT, DEN_LIMIT as int);
        lemma_mul_bound(limit as int, p.den as int, 2 * COORD_LIMIT, DEN_LIMIT as int);
    }
    let dx = (p.x as i128) * (UNIT as i128) - (wx as i128) * (p.den as i128);
    let dz = (p.z as i128) * (UNIT as i128) - (wz as i128) * (p.den as i128);
    let ld = (limit as i128) * (p.den as i128);
    proof {
        lemma_mul_bound(ld as int, UNIT as int, 1099511627776000, UNIT as int);
    }
    let reach = ld * (UNIT as i128);
    proof {
        lemma_square_bound(dx as int, 3298534883328000000);
        lemma_square_bound(dz as int, 3298534883328000000);
        lemma_square_bound(reach as int, 1099511627776000000);
    }
    dx * dx + dz * dz <= reach * reach
}

} // verus!
