//! Fixed-point 3-D vectors and the Euclidean distance between them.

use vstd::prelude::*;
use crate::fixed::{
    COORD_LIMIT, SEGMENT_LIMIT, is_sqrt_floor, isqrt, lerp_fix, lerp_int,
    lemma_sq_bound, lemma_sqrt_floor_exists, lemma_sqrt_floor_is, sqrt_floor,
};

verus! {

/// A point or direction in 3-D space, in plain integer units.
#[derive(Clone, Copy, Debug, PartialEq, Eq, Structural)]
pub struct Vec3Fix {
    pub x: i64,
    pub y: i64,
    pub z: i64,
}

impl Vec3Fix {
    /// Every component lies within `limit` in magnitude.
    pub open spec fn in_bounds(self, limit: int) -> bool {
        &&& -limit <= self.x <= limit
        &&& -limit <= self.y <= limit
        &&& -limit <= self.z <= limit
    }

    /// The origin, which also serves as the zero direction.
    pub fn origin() -> (v: Vec3Fix)
        ensures
            v == (Vec3Fix { x: 0, y: 0, z: 0 }),
    {
        Vec3Fix { x: 0, y: 0, z: 0 }
    }
}

/// The squared Euclidean distance between `a` and `b`.
pub open spec fn dist2_spec(a: Vec3Fix, b: Vec3Fix) -> int {
    (b.x - a.x) * (b.x - a.x) + (b.y - a.y) * (b.y - a.y) + (b.z - a.z) * (b.z - a.z)
}

/// The Euclidean distance between `a` and `b`, rounded down to an integer.
pub open spec fn dist_spec(a: Vec3Fix, b: Vec3Fix) -> int {
    sqrt_floor(dist2_spec(a, b))
}

/// A squared distance is never negative.
pub proof fn lemma_dist2_nonneg(a: Vec3Fix, b: Vec3Fix)
    ensures
        dist2_spec(a, b) >= 0,
{
    crate::fixed::lemma_sq_nonneg(b.x - a.x);
    crate::fixed::lemma_sq_nonneg(b.y - a.y);
    crate::fixed::lemma_sq_nonneg(b.z - a.z);
}

/// A distance is never negative.
pub proof fn lemma_dist_nonneg(a: Vec3Fix, b: Vec3Fix)
    ensures
        dist_spec(a, b) >= 0,
{
    lemma_dist2_nonneg(a, b);
    lemma_sqrt_floor_exists(dist2_spec(a, b));
}

/// The distance from a point to itself is zero.
pub proof fn lemma_dist_self(a: Vec3Fix)
    ensures
        dist_spec(a, a) == 0,
{
    assert(is_sqrt_floor(0, 0));
    lemma_sqrt_floor_is(0, 0);
}

/// Between coordinate-bounded points, every distance stays below
/// `SEGMENT_LIMIT`.
pub proof fn lemma_dist_bound(a: Vec3Fix, b: Vec3Fix)
    requires
        a.in_bounds(COORD_LIMIT as int),
        b.in_bounds(COORD_LIMIT as int),
    ensures
        0 <= dist_spec(a, b) < SEGMENT_LIMIT,
{
    lemma_dist_nonneg(a, b);
    lemma_dist2_nonneg(a, b);
    lemma_dist2_bound(a, b);
    lemma_sqrt_floor_exists(dist2_spec(a, b));
    let d = dist_spec(a, b);
    let n = dist2_spec(a, b);
    assert(d < SEGMENT_LIMIT) by (nonlinear_arith)
        requires
            d >= 0,
            d * d <= n,
            n < 0x100000000000000,
    ;
}

proof fn lemma_dist2_bound(a: Vec3Fix, b: Vec3Fix)
    requires
        a.in_bounds(COORD_LIMIT as int),
        b.in_bounds(COORD_LIMIT as int),
    ensures
        dist2_spec(a, b) < 0x100000000000000,
{
    lemma_sq_bound(b.x - a.x, 0x8000000);
    lemma_sq_bound(b.y - a.y, 0x8000000);
    lemma_sq_bound(b.z - a.z, 0x8000000);
    assert(0x8000000 * 0x8000000 == 0x40000000000000int);
}

/// The direction that leads from `a` to `b`: the componentwise difference
/// `b - a`.
pub open spec fn dir_spec(a: Vec3Fix, b: Vec3Fix) -> Vec3Fix {
    Vec3Fix { x: (b.x - a.x) as i64, y: (b.y - a.y) as i64, z: (b.z - a.z) as i64 }
}

/// Componentwise difference `a - b`.
pub fn sub3(a: &Vec3Fix, b: &Vec3Fix) -> (d: Vec3Fix)
    requires
        a.in_bounds(COORD_LIMIT as int),
        b.in_bounds(COORD_LIMIT as int),
    ensures
        d.x == a.x - b.x,
        d.y == a.y - b.y,
        d.z == a.z - b.z,
        d == dir_spec(*b, *a),
        d.in_bounds(2 * COORD_LIMIT as int),
{
    Vec3Fix { x: a.x - b.x, y: a.y - b.y, z: a.z - b.z }
}

/// The rounded-down Euclidean distance between two coordinate-bounded
/// points.
pub fn dist(a: &Vec3Fix, b: &Vec3Fix) -> (d: u64)
    requires
        a.in_bounds(COORD_LIMIT as int),
        b.in_bounds(COORD_LIMIT as int),
    ensures
        d == dist_spec(*a, *b),
        d < SEGMENT_LIMIT,
{
    let dx: i64 = b.x - a.x;
    let dy: i64 = b.y - a.y;
    let dz: i64 = b.z - a.z;
    proof {
        lemma_square_in_range(dx as int);
        lemma_square_in_range(dy as int);
        lemma_square_in_range(dz as int);
    }
    let sx: u64 = (dx * dx) as u64;
    let sy: u64 = (dy * dy) as u64;
    let sz: u64 = (dz * dz) as u64;
    let d: u64 = isqrt(sx + sy + sz);
    proof {
        lemma_dist_bound(*a, *b);
    }
    d
}

proof fn lemma_square_in_range(v: int)
    by (nonlinear_arith)
    requires
        -0x10000000 <= v <= 0x10000000,
    ensures
        0 <= v * v <= 0x100000000000000,
{
}

/// Componentwise linear interpolation from `a` to `b` at the rational
/// parameter `num / den`; each component stays between the endpoints.
pub fn lerp3(a: &Vec3Fix, b: &Vec3Fix, num: u64, den: u64) -> (r: Vec3Fix)
    requires
        0 < den <= 0x40000000,
        num <= den,
        a.in_bounds(0x40000000),
        b.in_bounds(0x40000000),
    ensures
        r.x == lerp_int(a.x as int, b.x as int, num as int, den as int),
        r.y == lerp_int(a.y as int, b.y as int, num as int, den as int),
        r.z == lerp_int(a.z as int, b.z as int, num as int, den as int),
        a.x <= b.x ==> a.x <= r.x <= b.x,
        b.x <= a.x ==> b.x <= r.x <= a.x,
        a.y <= b.y ==> a.y <= r.y <= b.y,
        b.y <= a.y ==> b.y <= r.y <= a.y,
        a.z <= b.z ==> a.z <= r.z <= b.z,
        b.z <= a.z ==> b.z <= r.z <= a.z,
        num == 0 ==> r == *a,
        num == den ==> r == *b,
    {
    let r = Vec3Fix {
        x: lerp_fix(a.x, b.x, num, den),
        y: lerp_fix(a.y, b.y, num, den),
        z: lerp_fix(a.z, b.z, num, den),
    };
    r
}

} // verus!
