//! Matrix builders: identity, translation, rotations and view matrices.

use vmath::matrix::{
    empty_mat4, identity_mat4, rotation_mat4_x, rotation_mat4_y, rotation_mat4_z,
    translation_mat4, view_mat4_from_vec3, view_matrix_from_radians, Angle, Matrix4,
};
use vmath::scalar::{Fx, SCALE};
use vmath::vector::{dot_product_vec3, empty_vec3, magnitude_vec3, Vector3};
use vmath::MathError;

fn fx(v: f64) -> Fx {
    Fx::from_raw((v * SCALE as f64).round() as i64)
}

fn angle(theta: f64) -> Angle {
    Angle::new(fx(theta.cos()), fx(theta.sin()))
}

fn max_raw_difference(a: &Matrix4, b: &Matrix4) -> i64 {
    let mut worst: i64 = 0;
    for r in 0..4 {
        for c in 0..4 {
            let d = (a[r][c].raw - b[r][c].raw).abs();
            if d > worst {
                worst = d;
            }
        }
    }
    worst
}

#[test]
fn empty_mat4_is_all_zero() {
    let m = empty_mat4();
    for r in 0..4 {
        for c in 0..4 {
            assert_eq!(m[r][c].raw, 0);
        }
    }
}

#[test]
fn identity_mat4_has_ones_on_the_diagonal() {
    let m = identity_mat4();
    for r in 0..4 {
        for c in 0..4 {
            assert_eq!(m[r][c].raw, if r == c { SCALE } else { 0 });
        }
    }
}

#[test]
fn translation_by_zero_is_the_identity() {
    assert_eq!(translation_mat4(empty_vec3()), identity_mat4());
}

#[test]
fn translation_fills_the_last_column() {
    let v: Vector3 = [Fx::from_int(7), Fx::from_int(-8), Fx::from_int(9)];
    let m = translation_mat4(v);
    assert_eq!(m[0][3], v[0]);
    assert_eq!(m[1][3], v[1]);
    assert_eq!(m[2][3], v[2]);
    assert_eq!(m[3][3], Fx::one());
    assert_eq!(m[0][0], Fx::one());
    assert_eq!(m[1][0].raw, 0);
}

#[test]
fn zero_angle_rotations_are_the_identity() {
    assert_eq!(rotation_mat4_x(Angle::zero()), identity_mat4());
    assert_eq!(rotation_mat4_y(Angle::zero()), identity_mat4());
    assert_eq!(rotation_mat4_z(Angle::zero()), identity_mat4());
}

#[test]
fn rotation_sign_conventions() {
    let a = angle(0.7);
    let x = rotation_mat4_x(a);
    assert_eq!(x[1][2].raw, -a.sin.raw);
    assert_eq!(x[2][1].raw, a.sin.raw);
    let y = rotation_mat4_y(a);
    assert_eq!(y[0][2].raw, a.sin.raw);
    assert_eq!(y[2][0].raw, -a.sin.raw);
    let z = rotation_mat4_z(a);
    assert_eq!(z[0][1].raw, -a.sin.raw);
    assert_eq!(z[1][0].raw, a.sin.raw);
}

#[test]
fn view_at_zero_angles_from_the_origin_is_the_identity() {
    let m = view_matrix_from_radians(Angle::zero(), Angle::zero(), empty_vec3());
    assert_eq!(m, identity_mat4());
}

#[test]
fn view_basis_is_orthonormal_within_tolerance() {
    let m = view_matrix_from_radians(angle(0.3), angle(0.5), empty_vec3());
    let x: Vector3 = [m[0][0], m[1][0], m[2][0]];
    let y: Vector3 = [m[0][1], m[1][1], m[2][1]];
    let z: Vector3 = [m[0][2], m[1][2], m[2][2]];
    let tolerance = 1 << 16;  // well below 1e-4 of a unit
    assert!(dot_product_vec3(x, y).raw.abs() < tolerance);
    assert!(dot_product_vec3(y, z).raw.abs() < tolerance);
    assert!(dot_product_vec3(x, z).raw.abs() < tolerance);
    assert!((magnitude_vec3(x).raw - SCALE).abs() < tolerance);
    assert!((magnitude_vec3(y).raw - SCALE).abs() < tolerance);
    assert!((magnitude_vec3(z).raw - SCALE).abs() < tolerance);
}

#[test]
fn view_translation_carries_negated_dot_products() {
    let position: Vector3 = [Fx::from_int(2), Fx::from_int(3), Fx::from_int(5)];
    let m = view_matrix_from_radians(Angle::zero(), Angle::zero(), position);
    assert_eq!(m[0][3], Fx::from_int(-2));
    assert_eq!(m[1][3], Fx::from_int(-3));
    assert_eq!(m[2][3], Fx::from_int(-5));
}

#[test]
fn view_from_direction_along_the_default_forward_axis() {
    let forward: Vector3 = [Fx::from_int(0), Fx::from_int(0), Fx::from_int(1)];
    let up: Vector3 = [Fx::from_int(0), Fx::from_int(1), Fx::from_int(0)];
    let m = view_mat4_from_vec3(forward, up, empty_vec3()).unwrap();
    assert_eq!(m[0][0].raw, -SCALE);
    assert_eq!(m[1][1].raw, SCALE);
    assert_eq!(m[2][2].raw, -SCALE);
    assert_eq!(m[0][3].raw, 0);
    assert_eq!(m[1][3].raw, 0);
    assert_eq!(m[2][3].raw, 0);
    assert_eq!(m[3][3].raw, SCALE);
}

#[test]
fn view_from_direction_rejects_a_zero_direction() {
    let up: Vector3 = [Fx::from_int(0), Fx::from_int(1), Fx::from_int(0)];
    let r = view_mat4_from_vec3(empty_vec3(), up, empty_vec3());
    assert_eq!(r, Err(MathError::DivisionByZero));
}

#[test]
fn view_from_direction_rejects_a_direction_parallel_to_up() {
    let up: Vector3 = [Fx::from_int(0), Fx::from_int(1), Fx::from_int(0)];
    let r = view_mat4_from_vec3(up, up, empty_vec3());
    assert_eq!(r, Err(MathError::DivisionByZero));
}

#[test]
fn view_from_direction_matches_view_from_angles_at_rest() {
    // Looking along negative z with yaw and pitch zero is the same camera
    // as the angle form describes, up to fixed-point rounding.
    let forward: Vector3 = [Fx::from_int(0), Fx::from_int(0), Fx::from_int(-1)];
    let up: Vector3 = [Fx::from_int(0), Fx::from_int(1), Fx::from_int(0)];
    let from_direction = view_mat4_from_vec3(forward, up, empty_vec3()).unwrap();
    // That camera's basis: x right, y up, z toward the viewer.
    assert_eq!(from_direction[0][0].raw, SCALE);
    assert_eq!(from_direction[1][1].raw, SCALE);
    assert_eq!(from_direction[2][2].raw, SCALE);
    assert_eq!(max_raw_difference(&from_direction, &identity_mat4()), 0);
}
