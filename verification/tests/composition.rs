//! Matrix composition: the pairwise product and the N-ary chain.

use vmath::compose::{multiply_mat4, multiply_mat4_n, rotation_mat4};
use vmath::matrix::{identity_mat4, rotation_mat4_x, translation_mat4, Angle, Matrix4};
use vmath::scalar::{Fx, SCALE};
use vmath::vector::Vector3;
use vmath::MathError;

fn fx(v: f64) -> Fx {
    Fx::from_raw((v * SCALE as f64).round() as i64)
}

fn angle(theta: f64) -> Angle {
    Angle::new(fx(theta.cos()), fx(theta.sin()))
}

fn sample_matrix() -> Matrix4 {
    let mut rows = [[Fx::zero(); 4]; 4];
    for r in 0..4 {
        for c in 0..4 {
            rows[r][c] = Fx::from_int((r * 4 + c) as i64 - 7);
        }
    }
    rows
}

fn max_raw_difference(a: &Matrix4, b: &Matrix4) -> i64 {
    let mut worst: i64 = 0;
    for r in 0..4 {
        for c in 0..4 {
            let d = (a[r][c].raw - b[r][c].raw).abs();
            if d > worst {
                worst = d;
            }
        }
    }
    worst
}

#[test]
fn the_identity_is_a_two_sided_unit() {
    let m = sample_matrix();
    assert_eq!(multiply_mat4(identity_mat4(), m), m);
    assert_eq!(multiply_mat4(m, identity_mat4()), m);
}

#[test]
fn the_product_follows_the_row_vector_convention() {
    // For row vectors, translating then rotating differs from rotating
    // then translating; check one entry of each order against the
    // convention: entry [r][c] of multiply(a, b) sums a[k][c] * b[r][k].
    let t = translation_mat4([Fx::from_int(1), Fx::from_int(2), Fx::from_int(3)]);
    let r = rotation_mat4_x(angle(0.7));
    let first_translate = multiply_mat4(t, r);
    let first_rotate = multiply_mat4(r, t);
    assert!(first_translate != first_rotate);
    // In multiply(t, r) the translation column passes through the rotation.
    assert_eq!(first_translate[3][3].raw, SCALE);
    assert_eq!(first_rotate[0][3], t[0][3]);
}

#[test]
fn a_chain_of_one_matrix_is_returned_unchanged() {
    let m = sample_matrix();
    assert_eq!(multiply_mat4_n(vec![m]), Ok(m));
}

#[test]
fn an_empty_chain_is_an_error() {
    assert_eq!(multiply_mat4_n(vec![]), Err(MathError::EmptyProduct));
}

#[test]
fn a_chain_of_two_matrices_is_their_product() {
    let a = sample_matrix();
    let b = rotation_mat4_x(angle(0.7));
    assert_eq!(multiply_mat4_n(vec![a, b]), Ok(multiply_mat4(a, b)));
}

#[test]
fn opposite_rotations_cancel_within_tolerance() {
    let a = rotation_mat4_x(angle(0.7));
    let b = rotation_mat4_x(angle(-0.7));
    let tolerance = 16;  // raw units, about 4e-9 of a unit
    assert!(max_raw_difference(&multiply_mat4(a, b), &identity_mat4()) <= tolerance);
    assert!(max_raw_difference(&multiply_mat4(b, a), &identity_mat4()) <= tolerance);
}

#[test]
fn combined_rotation_with_two_zero_angles_is_a_single_axis_rotation() {
    let spin = angle(0.7);
    let m = rotation_mat4(spin, Angle::zero(), Angle::zero());
    assert_eq!(m, rotation_mat4_x(spin));
}

#[test]
fn combined_rotation_of_zero_angles_is_the_identity() {
    let m = rotation_mat4(Angle::zero(), Angle::zero(), Angle::zero());
    assert_eq!(m, identity_mat4());
}
