//! Perspective and frustum projections.

use vmath::matrix::{frustum_mat4, perspective_mat4};
use vmath::scalar::{Fx, SCALE};
use vmath::MathError;

fn fx(v: f64) -> Fx {
    Fx::from_raw((v * SCALE as f64).round() as i64)
}

#[test]
fn perspective_layout_for_a_right_angle_field_of_view() {
    // fov = pi/2 gives a focal length of one.
    let m = perspective_mat4(Fx::from_int(1), Fx::from_int(100), Fx::one(), Fx::one()).unwrap();
    assert_eq!(m[0][0].raw, SCALE);
    assert_eq!(m[1][1].raw, SCALE);
    // (near + far) / (near - far) = 101 / -99
    assert_eq!(m[2][2], vmath::scalar::fx_div(Fx::from_int(101), Fx::from_int(-99)));
    // 2 * far * near / (near - far) = 200 / -99
    assert_eq!(m[2][3], vmath::scalar::fx_div(Fx::from_int(200), Fx::from_int(-99)));
    assert_eq!(m[3][2].raw, -SCALE);
    assert_eq!(m[3][3].raw, 0);
}

#[test]
fn perspective_and_symmetric_frustum_agree() {
    let p = perspective_mat4(Fx::from_int(1), Fx::from_int(100), Fx::one(), Fx::one()).unwrap();
    let f = frustum_mat4(
        Fx::from_int(-1),
        Fx::from_int(1),
        Fx::from_int(-1),
        Fx::from_int(1),
        Fx::from_int(1),
        Fx::from_int(100),
    )
    .unwrap();
    assert_eq!(p, f);
}

#[test]
fn perspective_with_negative_near_keeps_its_fixed_cell() {
    // near = -10, far = 10, fov = pi/2, aspect = 16/9: near and far differ,
    // so nothing divides by zero, and [3][2] is exactly minus one.
    let focal = fx(1.0 / (std::f64::consts::FRAC_PI_4).tan());
    let m = perspective_mat4(Fx::from_int(-10), Fx::from_int(10), focal, fx(16.0 / 9.0));
    let m = m.unwrap();
    assert_eq!(m[3][2].raw, -SCALE);
}

#[test]
fn perspective_rejects_equal_clip_planes() {
    let r = perspective_mat4(Fx::from_int(5), Fx::from_int(5), Fx::one(), Fx::one());
    assert_eq!(r, Err(MathError::DivisionByZero));
}

#[test]
fn perspective_rejects_a_zero_aspect_ratio() {
    let r = perspective_mat4(Fx::from_int(1), Fx::from_int(100), Fx::one(), Fx::zero());
    assert_eq!(r, Err(MathError::DivisionByZero));
}

#[test]
fn frustum_rejects_degenerate_bounds() {
    let one = Fx::from_int(1);
    let two = Fx::from_int(2);
    assert_eq!(
        frustum_mat4(one, one, Fx::from_int(-1), one, one, two),
        Err(MathError::DivisionByZero)
    );
    assert_eq!(
        frustum_mat4(Fx::from_int(-1), one, one, one, one, two),
        Err(MathError::DivisionByZero)
    );
    assert_eq!(
        frustum_mat4(Fx::from_int(-1), one, Fx::from_int(-1), one, two, two),
        Err(MathError::DivisionByZero)
    );
}

#[test]
fn frustum_off_center_terms() {
    let m = frustum_mat4(
        Fx::from_int(0),
        Fx::from_int(2),
        Fx::from_int(-1),
        Fx::from_int(1),
        Fx::from_int(1),
        Fx::from_int(10),
    )
    .unwrap();
    // 2 * near / (right - left) = 2 / 2 = 1
    assert_eq!(m[0][0].raw, SCALE);
    // (right + left) / (right - left) = 2 / 2 = 1
    assert_eq!(m[0][2].raw, SCALE);
    // (top + bottom) / (top - bottom) = 0
    assert_eq!(m[1][2].raw, 0);
    assert_eq!(m[3][2].raw, -SCALE);
}
