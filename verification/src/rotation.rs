//! Fixed-point rotations: quaternion components at unit scale `ONE`,
//! rotation of a point, componentwise interpolation, and the look rotation
//! that faces a given direction while keeping the world up axis (0, 1, 0).

use vstd::prelude::*;
use crate::fixed::{
    COORD_LIMIT, ONE, VERTEX_LIMIT, div_floor, isqrt, lerp_fix, lerp_int, lemma_div_range,
    lemma_mul_bound, lemma_sq_bound, lemma_sqrt_floor_exists, lemma_sqrt_floor_ge_abs,
    lemma_sqrt_floor_monotone, lemma_sqrt_floor_of_square, lemma_sqrt_floor_upper, sqrt_floor,
};
use crate::vec3::Vec3Fix;

verus! {

/// A rotation stored as the four quaternion components, each scaled by
/// `ONE`.  Interpolation between rotations is componentwise and performs no
/// renormalization; the small drift away from unit scale that this produces
/// is the accepted cost of linear interpolation.
#[derive(Clone, Copy, Debug, PartialEq, Eq, Structural)]
pub struct QuatFix {
    pub x: i64,
    pub y: i64,
    pub z: i64,
    pub w: i64,
}

impl QuatFix {
    /// Every component lies within the unit scale.
    pub open spec fn in_unit_bounds(self) -> bool {
        &&& -ONE <= self.x <= ONE
        &&& -ONE <= self.y <= ONE
        &&& -ONE <= self.z <= ONE
        &&& -ONE <= self.w <= ONE
    }

    /// The rotation that does nothing.
    pub open spec fn identity_spec() -> QuatFix {
        QuatFix { x: 0, y: 0, z: 0, w: ONE }
    }

    /// The rotation that does nothing.
    pub fn identity() -> (q: QuatFix)
        ensures
            q == Self::identity_spec(),
            q.in_unit_bounds(),
    {
        QuatFix { x: 0, y: 0, z: 0, w: ONE }
    }
}

/// First intermediate of rotating `v` by `q`: the cross product of the
/// quaternion vector part with `v`, plus `w` times `v`.
pub open spec fn rot_c1x(q: QuatFix, v: Vec3Fix) -> int {
    q.y * v.z - q.z * v.y + q.w * v.x
}

pub open spec fn rot_c1y(q: QuatFix, v: Vec3Fix) -> int {
    q.z * v.x - q.x * v.z + q.w * v.y
}

pub open spec fn rot_c1z(q: QuatFix, v: Vec3Fix) -> int {
    q.x * v.y - q.y * v.x + q.w * v.z
}

/// Second intermediate: the cross product of the quaternion vector part
/// with the first intermediate.
pub open spec fn rot_c2x(q: QuatFix, v: Vec3Fix) -> int {
    q.y * rot_c1z(q, v) - q.z * rot_c1y(q, v)
}

pub open spec fn rot_c2y(q: QuatFix, v: Vec3Fix) -> int {
    q.z * rot_c1x(q, v) - q.x * rot_c1z(q, v)
}

pub open spec fn rot_c2z(q: QuatFix, v: Vec3Fix) -> int {
    q.x * rot_c1y(q, v) - q.y * rot_c1x(q, v)
}

/// Each component of the rotated point: `v + 2 * (qv x (qv x v + w v))`
/// rescaled from the doubled quaternion scale back to plain units.
pub open spec fn rotate_x_spec(q: QuatFix, v: Vec3Fix) -> int {
    v.x + 2 * rot_c2x(q, v) / 0x100000000
}

pub open spec fn rotate_y_spec(q: QuatFix, v: Vec3Fix) -> int {
    v.y + 2 * rot_c2y(q, v) / 0x100000000
}

pub open spec fn rotate_z_spec(q: QuatFix, v: Vec3Fix) -> int {
    v.z + 2 * rot_c2z(q, v) / 0x100000000
}

/// The point `v` rotated by `q`.
pub open spec fn rotate_spec(q: QuatFix, v: Vec3Fix) -> Vec3Fix {
    Vec3Fix {
        x: rotate_x_spec(q, v) as i64,
        y: rotate_y_spec(q, v) as i64,
        z: rotate_z_spec(q, v) as i64,
    }
}

/// Rotate the vertex-bounded point `v` by the unit-bounded rotation `q`.
pub fn rotate_point(q: &QuatFix, v: &Vec3Fix) -> (r: Vec3Fix)
    requires
        q.in_unit_bounds(),
        v.in_bounds(VERTEX_LIMIT as int),
    ensures
        r == rotate_spec(*q, *v),
        r.x == rotate_x_spec(*q, *v),
        r.y == rotate_y_spec(*q, *v),
        r.z == rotate_z_spec(*q, *v),
        r.in_bounds(13 * VERTEX_LIMIT as int + 1),
{
    proof {
        lemma_mul_bound(q.y as int, v.z as int, 65536, 4194304);
        lemma_mul_bound(q.z as int, v.y as int, 65536, 4194304);
        lemma_mul_bound(q.w as int, v.x as int, 65536, 4194304);
        lemma_mul_bound(q.z as int, v.x as int, 65536, 4194304);
        lemma_mul_bound(q.x as int, v.z as int, 65536, 4194304);
        lemma_mul_bound(q.w as int, v.y as int, 65536, 4194304);
        lemma_mul_bound(q.x as int, v.y as int, 65536, 4194304);
        lemma_mul_bound(q.y as int, v.x as int, 65536, 4194304);
        lemma_mul_bound(q.w as int, v.z as int, 65536, 4194304);
    }
    let c1x: i64 = q.y * v.z - q.z * v.y + q.w * v.x;
    let c1y: i64 = q.z * v.x - q.x * v.z + q.w * v.y;
    let c1z: i64 = q.x * v.y - q.y * v.x + q.w * v.z;
    proof {
        lemma_mul_bound(q.y as int, c1z as int, 65536, 824633720832);
        lemma_mul_bound(q.z as int, c1y as int, 65536, 824633720832);
        lemma_mul_bound(q.z as int, c1x as int, 65536, 824633720832);
        lemma_mul_bound(q.x as int, c1z as int, 65536, 824633720832);
        lemma_mul_bound(q.x as int, c1y as int, 65536, 824633720832);
        lemma_mul_bound(q.y as int, c1x as int, 65536, 824633720832);
    }
    let c2x: i64 = q.y * c1z - q.z * c1y;
    let c2y: i64 = q.z * c1x - q.x * c1z;
    let c2z: i64 = q.x * c1y - q.y * c1x;
    let one2: i64 = ONE * ONE;
    proof {
        lemma_div_range(2 * c2x as int, 0x100000000, 0x300000000000000);
        lemma_div_range(2 * c2y as int, 0x100000000, 0x300000000000000);
        lemma_div_range(2 * c2z as int, 0x100000000, 0x300000000000000);
    }
    let r = Vec3Fix {
        x: v.x + div_floor(2 * c2x, one2),
        y: v.y + div_floor(2 * c2y, one2),
        z: v.z + div_floor(2 * c2z, one2),
    };
    r
}

/// Componentwise linear interpolation between two rotations at the
/// rational parameter `num / den`, without renormalization.
pub fn lerp4(a: &QuatFix, b: &QuatFix, num: u64, den: u64) -> (r: QuatFix)
    requires
        0 < den <= 0x40000000,
        num <= den,
        a.in_unit_bounds(),
        b.in_unit_bounds(),
    ensures
        r.x == lerp_int(a.x as int, b.x as int, num as int, den as int),
        r.y == lerp_int(a.y as int, b.y as int, num as int, den as int),
        r.z == lerp_int(a.z as int, b.z as int, num as int, den as int),
        r.w == lerp_int(a.w as int, b.w as int, num as int, den as int),
        r.in_unit_bounds(),
        num == 0 ==> r == *a,
        num == den ==> r == *b,
{
    let r = QuatFix {
        x: lerp_fix(a.x, b.x, num, den),
        y: lerp_fix(a.y, b.y, num, den),
        z: lerp_fix(a.z, b.z, num, den),
        w: lerp_fix(a.w, b.w, num, den),
    };
    r
}

/// The rounded-down square root of `t / (2 g)` at unit scale: the
/// half-angle sine and cosine magnitudes are all of this shape.
pub open spec fn half_unit_root(t: int, g: int) -> int {
    sqrt_floor(t * 0x100000000 / (2 * g))
}

proof fn lemma_half_root_le_one(t: int, g: int)
    requires
        0 < g,
        0 <= t <= 2 * g,
    ensures
        0 <= half_unit_root(t, g) <= 65536,
{
    let num = t * 0x100000000;
    let den = 2 * g;
    assert(num <= den * 0x100000000);
    vstd::arithmetic::div_mod::lemma_div_multiples_vanish(0x100000000, den);
    vstd::arithmetic::div_mod::lemma_div_is_ordered(num, den * 0x100000000, den);
    vstd::arithmetic::div_mod::lemma_div_pos_is_pos(num, den);
    lemma_sqrt_floor_monotone(num / den, 0x100000000);
    lemma_sqrt_floor_of_square(65536);
    lemma_sqrt_floor_exists(num / den);
}

/// The rotation that faces along `dir` (the forward axis is carried onto
/// `dir`) while keeping the world up axis (0, 1, 0): a yaw about the up
/// axis followed by a pitch about the sideways axis, composed at unit
/// scale.  The zero direction yields the identity rotation.
#[verifier::opaque]
pub open spec fn look_rotation_spec(d: Vec3Fix) -> QuatFix {
    let h2 = d.x * d.x + d.z * d.z;
    let l2 = h2 + d.y * d.y;
    if l2 == 0 {
        QuatFix::identity_spec()
    } else {
        let h = sqrt_floor(h2);
        let l = sqrt_floor(l2);
        let cy = if h == 0 { ONE as int } else { half_unit_root(h - d.z, h) };
        let sy_mag = if h == 0 { 0int } else { half_unit_root(h + d.z, h) };
        let sy = if d.x <= 0 { sy_mag } else { -sy_mag };
        let cx = half_unit_root(l + h, l);
        let sx_mag = half_unit_root(l - h, l);
        let sx = if d.y >= 0 { sx_mag } else { -sx_mag };
        QuatFix {
            x: (cy * sx / 65536) as i64,
            y: (sy * cx / 65536) as i64,
            z: ((-(sy * sx)) / 65536) as i64,
            w: (cy * cx / 65536) as i64,
        }
    }
}

proof fn lemma_unit_product_div(a: int)
    requires
        -0x100000000 <= a <= 0x100000000,
    ensures
        -65536 <= a / 65536 <= 65536,
{
    vstd::arithmetic::div_mod::lemma_div_is_ordered(a, 0x100000000, 65536);
    vstd::arithmetic::div_mod::lemma_div_is_ordered(-0x100000000, a, 65536);
}

/// Compute the look rotation that faces along `dir` with the world up
/// axis (0, 1, 0).
pub fn look_rotation(dir: &Vec3Fix) -> (q: QuatFix)
    requires
        dir.in_bounds(2 * COORD_LIMIT as int),
    ensures
        q == look_rotation_spec(*dir),
        q.in_unit_bounds(),
{
    proof {
        reveal(look_rotation_spec);
        lemma_sq_bound(dir.x as int, 0x8000000);
        lemma_sq_bound(dir.y as int, 0x8000000);
        lemma_sq_bound(dir.z as int, 0x8000000);
    }
    let sqx: u64 = (dir.x * dir.x) as u64;
    let sqy: u64 = (dir.y * dir.y) as u64;
    let sqz: u64 = (dir.z * dir.z) as u64;
    let h2: u64 = sqx + sqz;
    let l2: u64 = h2 + sqy;
    if l2 == 0 {
        return QuatFix::identity();
    }
    let h: u64 = isqrt(h2);
    let l: u64 = isqrt(l2);
    proof {
        lemma_sqrt_floor_upper(h2 as int, 0x10000000);
        lemma_sqrt_floor_upper(l2 as int, 0x10000000);
        lemma_sqrt_floor_ge_abs(dir.z as int, h2 as int);
        lemma_sqrt_floor_monotone(h2 as int, l2 as int);
        lemma_sqrt_floor_exists(h2 as int);
        lemma_sqrt_floor_exists(l2 as int);
        lemma_sqrt_floor_ge_abs(1, l2 as int);
        assert(l >= 1);
    }
    let mut cy: u64 = ONE as u64;
    let mut sy_mag: u64 = 0;
    if h > 0 {
        let t1: u64 = ((h as i64) - dir.z) as u64;
        let t2: u64 = ((h as i64) + dir.z) as u64;
        proof {
            vstd::arithmetic::div_mod::lemma_div_nonincreasing(
                t1 as int * 0x100000000, 2 * h as int);
            vstd::arithmetic::div_mod::lemma_div_nonincreasing(
                t2 as int * 0x100000000, 2 * h as int);
            lemma_half_root_le_one(t1 as int, h as int);
            lemma_half_root_le_one(t2 as int, h as int);
        }
        cy = isqrt(t1 * 0x100000000 / (2 * h));
        sy_mag = isqrt(t2 * 0x100000000 / (2 * h));
    }
    let t3: u64 = l + h;
    let t4: u64 = l - h;
    proof {
        vstd::arithmetic::div_mod::lemma_div_nonincreasing(
            t3 as int * 0x100000000, 2 * l as int);
        vstd::arithmetic::div_mod::lemma_div_nonincreasing(
            t4 as int * 0x100000000, 2 * l as int);
        lemma_half_root_le_one(t3 as int, l as int);
        lemma_half_root_le_one(t4 as int, l as int);
    }
    let cx: u64 = isqrt(t3 * 0x100000000 / (2 * l));
    let sx_mag: u64 = isqrt(t4 * 0x100000000 / (2 * l));
    let cyi: i64 = cy as i64;
    let syi: i64 = if dir.x <= 0 { sy_mag as i64 } else { -(sy_mag as i64) };
    let cxi: i64 = cx as i64;
    let sxi: i64 = if dir.y >= 0 { sx_mag as i64 } else { -(sx_mag as i64) };
    proof {
        lemma_mul_bound(cyi as int, sxi as int, 65536, 65536);
        lemma_mul_bound(syi as int, cxi as int, 65536, 65536);
        lemma_mul_bound(syi as int, sxi as int, 65536, 65536);
        lemma_mul_bound(cyi as int, cxi as int, 65536, 65536);
        lemma_unit_product_div(cyi as int * sxi as int);
        lemma_unit_product_div(syi as int * cxi as int);
        lemma_unit_product_div(-(syi as int * sxi as int));
        lemma_unit_product_div(cyi as int * cxi as int);
    }
    let q = QuatFix {
        x: div_floor(cyi * sxi, ONE),
        y: div_floor(syi * cxi, ONE),
        z: div_floor(-(syi * sxi), ONE),
        w: div_floor(cyi * cxi, ONE),
    };
    q
}

} // verus!
