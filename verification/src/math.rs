//! Small motion-math helpers used by the host's movement systems:
//! stepping a scalar or a vector toward a target by a bounded delta, and
//! the degrees-to-radians conversion, all in fixed point.

use vstd::prelude::*;
use crate::fixed::{COORD_LIMIT, ONE, div_floor, lerp_int};
use crate::vec3::{Vec3Fix, dist, dist_spec, lerp3};

verus! {

/// The circle constant at scale `ONE`: the nearest fixed-point value to
/// pi.
pub const PI_FIX: i64 = 205887;

/// Step the scalar `from` toward `to` by at most `delta`: the target
/// itself once it is within reach, else one full step in its direction.
pub fn move_toward_i64(from: i64, to: i64, delta: i64) -> (r: i64)
    requires
        0 <= delta <= 0x2000000000000000,
        -0x2000000000000000 <= from <= 0x2000000000000000,
        -0x2000000000000000 <= to <= 0x2000000000000000,
    ensures
        -delta <= to - from <= delta ==> r == to,
        to - from > delta ==> r == from + delta,
        from - to > delta ==> r == from - delta,
{
    let diff: i64 = to - from;
    if diff >= 0 {
        if diff <= delta {
            to
        } else {
            from + delta
        }
    } else {
        if -diff <= delta {
            to
        } else {
            from - delta
        }
    }
}

/// Step the point `from` toward `to` by at most `delta` distance units:
/// the target itself once it is within reach, else the point `delta`
/// units along the straight line toward it.
pub fn move_toward(from: &Vec3Fix, to: &Vec3Fix, delta: u64) -> (r: Vec3Fix)
    requires
        from.in_bounds(COORD_LIMIT as int),
        to.in_bounds(COORD_LIMIT as int),
    ensures
        dist_spec(*from, *to) <= delta ==> r == *to,
        dist_spec(*from, *to) > delta ==> {
            let len = dist_spec(*from, *to);
            &&& r.x == lerp_int(from.x as int, to.x as int, delta as int, len)
            &&& r.y == lerp_int(from.y as int, to.y as int, delta as int, len)
            &&& r.z == lerp_int(from.z as int, to.z as int, delta as int, len)
        },
        r.in_bounds(COORD_LIMIT as int),
{
    let len = dist(from, to);
    if len <= delta {
        *to
    } else {
        lerp3(from, to, delta, len)
    }
}

/// Convert fixed-point degrees to fixed-point radians: multiply by the
/// fixed-point circle constant and divide by half a turn.
pub fn deg_to_rad(degrees: i64) -> (r: i64)
    requires
        -0x10000000000 <= degrees <= 0x10000000000,
    ensures
        r == degrees * 205887 / 11796480,
{
    div_floor(degrees * PI_FIX, 180 * ONE)
}

} // verus!
