use pathnav::PathError;
use pathnav::extract::build;
use pathnav::placement::Placement;
use pathnav::rotation::QuatFix;
use pathnav::vec3::Vec3Fix;

fn v(x: i64, y: i64, z: i64) -> Vec3Fix {
    Vec3Fix { x, y, z }
}

/// Floor division, matching the library's fixed-point arithmetic.
fn fdiv(a: i64, b: i64) -> i64 {
    a.div_euclid(b)
}

fn lerp(a: i64, b: i64, num: i64, den: i64) -> i64 {
    a + fdiv(num * (b - a), den)
}

fn lerp_placement(a: &Placement, b: &Placement, num: i64, den: i64) -> Placement {
    Placement {
        position: Vec3Fix {
            x: lerp(a.position.x, b.position.x, num, den),
            y: lerp(a.position.y, b.position.y, num, den),
            z: lerp(a.position.z, b.position.z, num, den),
        },
        rotation: QuatFix {
            x: lerp(a.rotation.x, b.rotation.x, num, den),
            y: lerp(a.rotation.y, b.rotation.y, num, den),
            z: lerp(a.rotation.z, b.rotation.z, num, den),
            w: lerp(a.rotation.w, b.rotation.w, num, den),
        },
    }
}

/// The worked loop with waypoint distances [0, 10, 25] and total 40:
/// segments of length 10, 15 and a closing segment of 15.
fn worked_model() -> pathnav::model::PathModel {
    let verts = vec![v(0, 0, 0), v(0, 0, -10), v(10, 10, -5)];
    let r = build(&verts, &Placement::identity());
    assert!(r.warning.is_none());
    r.model
}

#[test]
fn total_length_sums_segments() {
    let m = worked_model();
    assert_eq!(m.waypoints.len(), 3);
    assert_eq!(m.waypoints[0].distance_along_path, 0);
    assert_eq!(m.waypoints[1].distance_along_path, 10);
    assert_eq!(m.waypoints[2].distance_along_path, 25);
    assert_eq!(m.total_length, 40);
}

#[test]
fn transform_at_zero_returns_first_waypoint() {
    let m = worked_model();
    let p = m.transform_at(0);
    assert_eq!(p, m.waypoints[0].placement);
    assert_eq!(p.position, v(0, 0, 0));
    // the first waypoint faces straight down the forward axis, so its
    // look rotation is the identity
    assert_eq!(p.rotation, QuatFix { x: 0, y: 0, z: 0, w: 65536 });
}

#[test]
fn transform_at_is_pure() {
    let m = worked_model();
    let a = m.transform_at(17);
    let b = m.transform_at(17);
    assert_eq!(a, b);
}

#[test]
fn worked_example_interior_segment() {
    let m = worked_model();
    let p = m.transform_at(5);
    let expected = lerp_placement(&m.waypoints[0].placement, &m.waypoints[1].placement, 5, 10);
    assert_eq!(p, expected);
    assert_eq!(p.position, v(0, 0, -5));
}

#[test]
fn worked_example_wrap_segment() {
    let m = worked_model();
    let p = m.transform_at(35);
    // t = (35 - 25) / (40 - 25) across the closing segment
    let expected = lerp_placement(&m.waypoints[2].placement, &m.waypoints[0].placement, 10, 15);
    assert_eq!(p, expected);
    assert_eq!(p.position, v(3, 3, -2));
}

#[test]
fn out_of_range_distance_wraps() {
    let m = worked_model();
    assert_eq!(m.transform_at(45), m.transform_at(5));
    assert_eq!(m.transform_at(40), m.transform_at(0));
}

#[test]
fn parent_placement_translates_vertices() {
    let verts = vec![v(0, 0, 0), v(0, 0, -10)];
    let parent = Placement {
        position: v(100, 200, 300),
        rotation: QuatFix { x: 0, y: 0, z: 0, w: 65536 },
    };
    let r = build(&verts, &parent);
    assert_eq!(r.model.waypoints[0].placement.position, v(100, 200, 300));
    assert_eq!(r.model.waypoints[1].placement.position, v(100, 200, 290));
    assert_eq!(r.model.total_length, 20);
}

#[test]
fn straight_pair_faces_each_other() {
    let verts = vec![v(0, 0, 0), v(10, 0, 0)];
    let r = build(&verts, &Placement::identity());
    // facing +x is a quarter yaw one way, facing -x the other
    assert_eq!(
        r.model.waypoints[0].placement.rotation,
        QuatFix { x: 0, y: -46340, z: 0, w: 46340 },
    );
    assert_eq!(
        r.model.waypoints[1].placement.rotation,
        QuatFix { x: 0, y: 46340, z: 0, w: 46340 },
    );
}

#[test]
fn vertical_pair_pitches_up_and_down() {
    let verts = vec![v(0, 0, 0), v(0, 10, 0)];
    let r = build(&verts, &Placement::identity());
    // facing straight up is a quarter pitch, facing straight down its
    // mirror image
    assert_eq!(
        r.model.waypoints[0].placement.rotation,
        QuatFix { x: 46340, y: 0, z: 0, w: 46340 },
    );
    assert_eq!(
        r.model.waypoints[1].placement.rotation,
        QuatFix { x: -46340, y: 0, z: 0, w: 46340 },
    );
}

#[test]
fn single_point_degenerates_to_that_point() {
    let verts = vec![v(5, 6, 7)];
    let r = build(&verts, &Placement::identity());
    assert_eq!(r.warning, Some(PathError::InvalidGeometry));
    assert_eq!(r.model.total_length, 0);
    assert_eq!(r.model.waypoints.len(), 1);
    let wp = r.model.waypoints[0].placement;
    assert_eq!(wp.position, v(5, 6, 7));
    assert_eq!(r.model.transform_at(0), wp);
    assert_eq!(r.model.transform_at(12345), wp);
}

#[test]
fn no_points_degenerates_to_identity() {
    let verts: Vec<Vec3Fix> = vec![];
    let r = build(&verts, &Placement::identity());
    assert_eq!(r.warning, Some(PathError::InvalidGeometry));
    assert_eq!(r.model.total_length, 0);
    let p = r.model.transform_at(99);
    assert_eq!(p, Placement::identity());
}

#[test]
fn coincident_points_flagged_degenerate() {
    let verts = vec![v(4, 4, 4), v(4, 4, 4), v(4, 4, 4)];
    let r = build(&verts, &Placement::identity());
    assert_eq!(r.warning, Some(PathError::DegeneratePath));
    assert_eq!(r.model.total_length, 0);
    assert_eq!(r.model.transform_at(7).position, v(4, 4, 4));
}

#[test]
fn first_placement_carries_spawn_transform() {
    let m = worked_model();
    assert_eq!(m.first_placement(), m.waypoints[0].placement);
    assert_eq!(m.waypoint_count(), 3);
}
