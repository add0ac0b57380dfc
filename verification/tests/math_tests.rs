use pathnav::fixed::{div_floor, isqrt, lerp_fix};
use pathnav::geometry::decode_vertex_buffer;
use pathnav::math::{deg_to_rad, move_toward, move_toward_i64};
use pathnav::vec3::{Vec3Fix, dist};

fn v(x: i64, y: i64, z: i64) -> Vec3Fix {
    Vec3Fix { x, y, z }
}

#[test]
fn isqrt_rounds_down() {
    assert_eq!(isqrt(0), 0);
    assert_eq!(isqrt(1), 1);
    assert_eq!(isqrt(15), 3);
    assert_eq!(isqrt(16), 4);
    assert_eq!(isqrt(124), 11);
    assert_eq!(isqrt(125), 11);
    assert_eq!(isqrt(0x3fffffffffffffff), 0x7fffffff);
}

#[test]
fn div_floor_rounds_toward_negative_infinity() {
    assert_eq!(div_floor(7, 2), 3);
    assert_eq!(div_floor(-7, 2), -4);
    assert_eq!(div_floor(-8, 2), -4);
    assert_eq!(div_floor(0, 5), 0);
    assert_eq!(div_floor(-1, 65536), -1);
}

#[test]
fn lerp_endpoints_are_exact() {
    assert_eq!(lerp_fix(3, 11, 0, 4), 3);
    assert_eq!(lerp_fix(3, 11, 4, 4), 11);
    assert_eq!(lerp_fix(0, 10, 5, 10), 5);
    assert_eq!(lerp_fix(10, 0, 10, 15), 3);
}

#[test]
fn dist_is_euclidean_rounded_down() {
    assert_eq!(dist(&v(0, 0, 0), &v(3, 4, 0)), 5);
    assert_eq!(dist(&v(1, 1, 1), &v(1, 1, 1)), 0);
    assert_eq!(dist(&v(0, 0, 0), &v(1, 1, 1)), 1);
    assert_eq!(dist(&v(0, 0, 0), &v(10, 10, 5)), 15);
}

#[test]
fn move_toward_scalar_caps_the_step() {
    assert_eq!(move_toward_i64(0, 10, 3), 3);
    assert_eq!(move_toward_i64(0, 2, 3), 2);
    assert_eq!(move_toward_i64(5, -10, 4), 1);
    assert_eq!(move_toward_i64(5, 5, 4), 5);
}

#[test]
fn move_toward_vector_steps_along_the_line() {
    assert_eq!(move_toward(&v(0, 0, 0), &v(30, 0, 40), 5), v(3, 0, 4));
    assert_eq!(move_toward(&v(0, 0, 0), &v(30, 0, 40), 60), v(30, 0, 40));
    assert_eq!(move_toward(&v(2, 2, 2), &v(2, 2, 2), 1), v(2, 2, 2));
}

#[test]
fn deg_to_rad_matches_fixed_pi() {
    // 180 degrees at scale 65536 is exactly the fixed-point pi
    assert_eq!(deg_to_rad(180 * 65536), 205887);
    assert_eq!(deg_to_rad(90 * 65536), 102943);
    assert_eq!(deg_to_rad(0), 0);
    assert_eq!(deg_to_rad(-180 * 65536), -205887);
}

#[test]
fn vertex_buffer_decodes_le_words() {
    let mut bytes: Vec<u8> = Vec::new();
    for i in 0..24u8 {
        bytes.push(i);
    }
    let pts = decode_vertex_buffer(&bytes);
    assert_eq!(pts.len(), 2);
    assert_eq!(pts[0].x, 0x03020100);
    assert_eq!(pts[0].y, 0x07060504);
    assert_eq!(pts[0].z, 0x0b0a0908);
    assert_eq!(pts[1].x, 0x0f0e0d0c);
    assert_eq!(pts[1].y, 0x13121110);
    assert_eq!(pts[1].z, 0x17161514);
}

#[test]
fn vertex_buffer_ignores_trailing_bytes() {
    let bytes: Vec<u8> = vec![0; 26];
    let pts = decode_vertex_buffer(&bytes);
    assert_eq!(pts.len(), 2);
    let empty: Vec<u8> = Vec::new();
    assert_eq!(decode_vertex_buffer(&empty).len(), 0);
}
