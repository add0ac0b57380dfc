//! A rigid placement: a position together with a rotation, and the
//! operations the path logic needs on it — placing a local vertex in the
//! world and interpolating between two placements.

use vstd::prelude::*;
use crate::fixed::{COORD_LIMIT, VERTEX_LIMIT, lerp_int};
use crate::rotation::{
    QuatFix, lerp4, rotate_point, rotate_x_spec, rotate_y_spec, rotate_z_spec,
};
use crate::vec3::{Vec3Fix, lerp3};

verus! {

/// A rigid placement of an object: where it stands and how it is turned.
#[derive(Clone, Copy, Debug, PartialEq, Eq, Structural)]
pub struct Placement {
    pub position: Vec3Fix,
    pub rotation: QuatFix,
}

impl Placement {
    /// The placement at the origin with no rotation: the fallback that
    /// every degenerate path query resolves to.
    pub open spec fn identity_spec() -> Placement {
        Placement {
            position: Vec3Fix { x: 0, y: 0, z: 0 },
            rotation: QuatFix::identity_spec(),
        }
    }

    /// The placement at the origin with no rotation.
    pub fn identity() -> (p: Placement)
        ensures
            p == Self::identity_spec(),
            p.in_world_bounds(),
    {
        Placement {
            position: Vec3Fix { x: 0, y: 0, z: 0 },
            rotation: QuatFix::identity(),
        }
    }

    /// A parent placement fit to place authored vertices: its translation
    /// stays within the vertex bounds and its rotation at unit scale.
    pub open spec fn parent_wf(self) -> bool {
        &&& self.position.in_bounds(VERTEX_LIMIT as int)
        &&& self.rotation.in_unit_bounds()
    }

    /// The bounds every waypoint placement satisfies.
    pub open spec fn in_world_bounds(self) -> bool {
        &&& self.position.in_bounds(COORD_LIMIT as int)
        &&& self.rotation.in_unit_bounds()
    }
}

/// Where the local point `v` lands under the placement `p`: rotated by the
/// placement's rotation, then translated by its position.
pub open spec fn apply_spec(p: Placement, v: Vec3Fix) -> Vec3Fix {
    Vec3Fix {
        x: (p.position.x + rotate_x_spec(p.rotation, v)) as i64,
        y: (p.position.y + rotate_y_spec(p.rotation, v)) as i64,
        z: (p.position.z + rotate_z_spec(p.rotation, v)) as i64,
    }
}

/// Convert the local point `v` to world space via the placement `p`.
pub fn apply(p: &Placement, v: &Vec3Fix) -> (w: Vec3Fix)
    requires
        p.parent_wf(),
        v.in_bounds(VERTEX_LIMIT as int),
    ensures
        w == apply_spec(*p, *v),
        w.in_bounds(COORD_LIMIT as int),
{
    let r = rotate_point(&p.rotation, v);
    Vec3Fix { x: p.position.x + r.x, y: p.position.y + r.y, z: p.position.z + r.z }
}

/// Both halves of a placement interpolated componentwise at `num / den`.
pub open spec fn lerp_placement_spec(a: Placement, b: Placement, num: int, den: int) -> Placement {
    Placement {
        position: Vec3Fix {
            x: lerp_int(a.position.x as int, b.position.x as int, num, den) as i64,
            y: lerp_int(a.position.y as int, b.position.y as int, num, den) as i64,
            z: lerp_int(a.position.z as int, b.position.z as int, num, den) as i64,
        },
        rotation: QuatFix {
            x: lerp_int(a.rotation.x as int, b.rotation.x as int, num, den) as i64,
            y: lerp_int(a.rotation.y as int, b.rotation.y as int, num, den) as i64,
            z: lerp_int(a.rotation.z as int, b.rotation.z as int, num, den) as i64,
            w: lerp_int(a.rotation.w as int, b.rotation.w as int, num, den) as i64,
        },
    }
}

/// Interpolate between two placements: positions linearly, rotations by
/// componentwise quaternion interpolation without renormalization.
pub fn lerp_placement(a: &Placement, b: &Placement, num: u64, den: u64) -> (r: Placement)
    requires
        0 < den <= 0x40000000,
        num <= den,
        a.in_world_bounds(),
        b.in_world_bounds(),
    ensures
        r == lerp_placement_spec(*a, *b, num as int, den as int),
        r.in_world_bounds(),
        num == 0 ==> r == *a,
        num == den ==> r == *b,
{
    let r = Placement {
        position: lerp3(&a.position, &b.position, num, den),
        rotation: lerp4(&a.rotation, &b.rotation, num, den),
    };
    r
}

} // verus!
