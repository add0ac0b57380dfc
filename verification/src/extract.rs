//! The path extractor: a pure transform from raw authored vertices and
//! their parent's placement to an arc-length-annotated waypoint loop.
//!
//! The caller's vertex order is the traversal order; no reordering is
//! performed.  Each vertex is placed in the world by the parent placement,
//! each waypoint is oriented to face the next one around the loop, and the
//! cumulative distance along the path is accumulated segment by segment,
//! closing segment included.

use vstd::prelude::*;
use crate::PathError;
use crate::fixed::{COORD_LIMIT, MAX_WAYPOINTS, VERTEX_LIMIT};
use crate::model::{
    PathModel, Waypoint, lemma_prefix_upper, loop_length, positions_of, prefix_length,
};
use crate::placement::{Placement, apply, apply_spec};
use crate::rotation::{QuatFix, look_rotation, look_rotation_spec};
use crate::vec3::{Vec3Fix, dir_spec, dist, lemma_dist_bound, lemma_dist_self, sub3};

verus! {

/// The outcome of path extraction: a model that is always usable, and the
/// warning raised while building it, if any.  No failure aborts the
/// caller; a bad input yields a degenerate model instead.
pub struct ExtractedPath {
    pub model: PathModel,
    pub warning: Option<PathError>,
}

/// First pass: convert each local vertex to world space via the parent
/// placement.
#[verifier::loop_isolation(false)]
fn place_vertices(vertices: &Vec<Vec3Fix>, parent_placement: &Placement) -> (world: Vec<Vec3Fix>)
    requires
        parent_placement.parent_wf(),
        forall|i: int| 0 <= i < vertices@.len() ==> (#[trigger] vertices@[i]).in_bounds(
            VERTEX_LIMIT as int,
        ),
    ensures
        world@.len() == vertices@.len(),
        forall|j: int| 0 <= j < world@.len() ==> (#[trigger] world@[j]) == apply_spec(
            *parent_placement,
            vertices@[j],
        ),
        forall|j: int| 0 <= j < world@.len() ==> (#[trigger] world@[j]).in_bounds(
            COORD_LIMIT as int,
        ),
{
    let n = vertices.len();
    let mut world: Vec<Vec3Fix> = Vec::new();
    let mut i: usize = 0;
    while i < n
        invariant
            world@.len() == i,
            i <= n,
            forall|j: int| 0 <= j < i ==> (#[trigger] world@[j]) == apply_spec(
                *parent_placement,
                vertices@[j],
            ),
            forall|j: int| 0 <= j < i ==> (#[trigger] world@[j]).in_bounds(COORD_LIMIT as int),
        decreases n - i,
    {
        let w = apply(parent_placement, &vertices[i]);
        world.push(w);
        i = i + 1;
    }
    world
}

/// Second pass: walk the world-space loop once, orienting each waypoint
/// toward the next and accumulating the running distance; each waypoint
/// stores the distance accumulated before it, and the returned total
/// closes the loop.
#[verifier::loop_isolation(false)]
fn annotate_loop(world: &Vec<Vec3Fix>) -> (r: (Vec<Waypoint>, u64))
    requires
        2 <= world@.len() <= MAX_WAYPOINTS,
        forall|j: int| 0 <= j < world@.len() ==> (#[trigger] world@[j]).in_bounds(
            COORD_LIMIT as int,
        ),
    ensures
        r.0@.len() == world@.len(),
        r.1 == loop_length(world@),
        forall|j: int| 0 <= j < world@.len() ==> (#[trigger] r.0@[j]).placement.position
            == world@[j],
        forall|j: int| 0 <= j < world@.len() ==> (#[trigger] r.0@[j]).placement.in_world_bounds(),
        forall|j: int| 0 <= j < world@.len() ==> (#[trigger] r.0@[j]).placement.rotation
            == look_rotation_spec(dir_spec(world@[j], world@[(j + 1) % (world@.len() as int)])),
        forall|j: int| 0 <= j < world@.len() ==> (#[trigger] r.0@[j]).distance_along_path
            == prefix_length(world@, j),
{
    let n = world.len();
    let mut wps: Vec<Waypoint> = Vec::new();
    let mut total: u64 = 0;
    let mut k: usize = 0;
    while k < n
        invariant
            wps@.len() == k,
            k <= n,
            total == (if k < n {
                prefix_length(world@, k as int)
            } else {
                loop_length(world@)
            }),
            forall|j: int| 0 <= j < k ==> (#[trigger] wps@[j]).placement.position == world@[j],
            forall|j: int| 0 <= j < k ==> (#[trigger] wps@[j]).placement.in_world_bounds(),
            forall|j: int| 0 <= j < k ==> (#[trigger] wps@[j]).placement.rotation
                == look_rotation_spec(dir_spec(world@[j], world@[(j + 1) % (n as int)])),
            forall|j: int| 0 <= j < k ==> (#[trigger] wps@[j]).distance_along_path
                == prefix_length(world@, j),
        decreases n - k,
    {
        let next_idx: usize = if k + 1 == n { 0 } else { k + 1 };
        proof {
            if k + 1 == n {
                vstd::arithmetic::div_mod::lemma_mod_self_0(n as int);
            } else {
                vstd::arithmetic::div_mod::lemma_small_mod((k + 1) as nat, n as nat);
            }
        }
        let a = world[k];
        let b = world[next_idx];
        let dirv = sub3(&b, &a);
        let rot = look_rotation(&dirv);
        let seg = dist(&a, &b);
        wps.push(
            Waypoint {
                placement: Placement { position: a, rotation: rot },
                distance_along_path: total,
            },
        );
        proof {
            lemma_prefix_upper(world@, k as int);
            lemma_dist_bound(world@[k as int], world@[next_idx as int]);
        }
        total = total + seg;
        k = k + 1;
    }
    (wps, total)
}

/// Build a path model from an ordered vertex loop and the placement of
/// the parent object that carries it.
///
/// With two or more vertices the model holds one waypoint per vertex:
/// its position is the vertex placed in the world, its orientation faces
/// the next waypoint around the loop, and its stored distance is the sum
/// of the segment distances before it.  The total length closes the loop.
/// Bad input degenerates instead of failing: fewer than two vertices
/// yield a single-waypoint model of length zero and an `InvalidGeometry`
/// warning, and a longer loop whose length still comes to zero is flagged
/// `DegeneratePath`.
#[verifier::rlimit(100)]
pub fn build(vertices: &Vec<Vec3Fix>, parent_placement: &Placement) -> (r: ExtractedPath)
    requires
        parent_placement.parent_wf(),
        vertices@.len() <= MAX_WAYPOINTS,
        forall|i: int| 0 <= i < vertices@.len() ==> (#[trigger] vertices@[i]).in_bounds(
            VERTEX_LIMIT as int,
        ),
    ensures
        r.model.wf(),
        vertices@.len() >= 2 ==> r.model.waypoints@.len() == vertices@.len(),
        vertices@.len() >= 2 ==> forall|i: int|
            0 <= i < vertices@.len() ==> (#[trigger] r.model.waypoints@[i]).placement.position
                == apply_spec(*parent_placement, vertices@[i]),
        vertices@.len() >= 2 ==> forall|i: int|
            0 <= i < vertices@.len() ==> (#[trigger] r.model.waypoints@[i]).placement.rotation
                == look_rotation_spec(
                dir_spec(
                    r.model.waypoints@[i].placement.position,
                    r.model.waypoints@[(i + 1) % (vertices@.len() as int)].placement.position,
                ),
            ),
        vertices@.len() >= 2 ==> r.warning == (if r.model.total_length == 0 {
            Some(PathError::DegeneratePath)
        } else {
            None::<PathError>
        }),
        vertices@.len() == 1 ==> (r.model.waypoints@.len() == 1
            && r.model.waypoints@[0].placement.position == apply_spec(
            *parent_placement,
            vertices@[0],
        ) && r.model.waypoints@[0].placement.rotation == QuatFix::identity_spec()),
        vertices@.len() == 0 ==> (r.model.waypoints@.len() == 1 && r.model.waypoints@[0].placement
            == Placement::identity_spec()),
        vertices@.len() < 2 ==> (r.model.total_length == 0 && r.warning == Some(
            PathError::InvalidGeometry,
        )),
{
    let n = vertices.len();
    if n < 2 {
        let pos: Vec3Fix = if n == 1 {
            apply(parent_placement, &vertices[0])
        } else {
            Vec3Fix::origin()
        };
        let mut wps: Vec<Waypoint> = Vec::new();
        wps.push(
            Waypoint {
                placement: Placement { position: pos, rotation: QuatFix::identity() },
                distance_along_path: 0,
            },
        );
        let model = PathModel { waypoints: wps, total_length: 0 };
        proof {
            let ps = positions_of(model.waypoints@);
            assert(ps[0] == pos);
            lemma_dist_self(ps[0]);
            assert(loop_length(ps) == 0);
        }
        return ExtractedPath { model: model, warning: Some(PathError::InvalidGeometry) };
    }

    let world = place_vertices(vertices, parent_placement);
    let (wps, total) = annotate_loop(&world);
    let model = PathModel { waypoints: wps, total_length: total };
    proof {
        let ps = positions_of(model.waypoints@);
        assert(ps =~= world@);
        assert(total == loop_length(ps));
    }
    let warning: Option<PathError> = if total == 0 {
        Some(PathError::DegeneratePath)
    } else {
        None
    };
    ExtractedPath { model: model, warning: warning }
}

} // verus!
