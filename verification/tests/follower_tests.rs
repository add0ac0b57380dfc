use pathnav::PathError;
use pathnav::extract::build;
use pathnav::follower::{DEFAULT_SPEED, PathFollower};
use pathnav::lifecycle::{LevelState, poll_level_state};
use pathnav::placement::Placement;
use pathnav::vec3::Vec3Fix;

fn v(x: i64, y: i64, z: i64) -> Vec3Fix {
    Vec3Fix { x, y, z }
}

/// One second of tick time at the fixed-point scale.
const ONE_SECOND: u64 = 65536;

fn forty_unit_loop() -> pathnav::model::PathModel {
    let verts = vec![v(0, 0, 0), v(0, 0, -10), v(10, 10, -5)];
    build(&verts, &Placement::identity()).model
}

#[test]
fn full_loop_returns_to_start() {
    let m = forty_unit_loop();
    let mut f = PathFollower::spawn();
    // total_length / speed = 40 / 20 = two seconds of travel
    f.advance(&m, 2 * ONE_SECOND, DEFAULT_SPEED);
    assert_eq!(f.distance_along_path, 0);
    // and it keeps advancing smoothly past the seam
    let p = f.advance(&m, ONE_SECOND / 2, DEFAULT_SPEED);
    assert_eq!(f.distance_along_path, 10);
    assert_eq!(p, m.transform_at(10));
}

#[test]
fn advance_accumulates_and_wraps() {
    let m = forty_unit_loop();
    let mut f = PathFollower::spawn();
    f.advance(&m, ONE_SECOND, DEFAULT_SPEED);
    assert_eq!(f.distance_along_path, 20);
    f.advance(&m, ONE_SECOND, DEFAULT_SPEED);
    assert_eq!(f.distance_along_path, 0);
    f.advance(&m, ONE_SECOND + ONE_SECOND / 2, DEFAULT_SPEED);
    assert_eq!(f.distance_along_path, 30);
    f.advance(&m, ONE_SECOND, DEFAULT_SPEED);
    assert_eq!(f.distance_along_path, 10);
}

#[test]
fn advance_applies_path_placement() {
    let m = forty_unit_loop();
    let mut f = PathFollower::spawn();
    let p = f.advance(&m, ONE_SECOND / 4, DEFAULT_SPEED);
    assert_eq!(f.distance_along_path, 5);
    assert_eq!(p, m.transform_at(5));
}

#[test]
fn zero_length_model_never_advances() {
    let verts = vec![v(1, 2, 3), v(1, 2, 3)];
    let r = build(&verts, &Placement::identity());
    assert_eq!(r.model.total_length, 0);
    let mut f = PathFollower::spawn();
    let p = f.advance(&r.model, 1000 * ONE_SECOND, DEFAULT_SPEED);
    assert_eq!(f.distance_along_path, 0);
    assert_eq!(p.position, v(1, 2, 3));
    let p2 = f.advance(&r.model, 1, 1);
    assert_eq!(f.distance_along_path, 0);
    assert_eq!(p2, p);
}

#[test]
fn unbound_follower_reports_and_stays_put() {
    let mut f = PathFollower::spawn();
    let r = f.advance_bound(None, ONE_SECOND, DEFAULT_SPEED);
    assert_eq!(r, Err(PathError::UnboundFollower));
    assert_eq!(f.distance_along_path, 0);
}

#[test]
fn bound_follower_advances_through_result() {
    let m = forty_unit_loop();
    let mut f = PathFollower::spawn();
    let r = f.advance_bound(Some(&m), ONE_SECOND / 4, DEFAULT_SPEED);
    assert_eq!(r, Ok(m.transform_at(5)));
    assert_eq!(f.distance_along_path, 5);
}

#[test]
fn level_state_moves_forward_only() {
    assert_eq!(poll_level_state(LevelState::Loading, false), LevelState::Loading);
    assert_eq!(poll_level_state(LevelState::Loading, true), LevelState::Loaded);
    assert_eq!(poll_level_state(LevelState::Loaded, false), LevelState::Loaded);
    assert_eq!(poll_level_state(LevelState::Loaded, true), LevelState::Loaded);
}
