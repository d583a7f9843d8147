//! Vector operations: magnitude, scaling, dot and cross products.

use vmath::scalar::{Fx, SCALE};
use vmath::vector::{
    cross_product_vec3, dot_product_vec3, empty_vec3, magnitude_vec3, scale_vec3, Vector3,
};

fn fx(v: f64) -> Fx {
    Fx::from_raw((v * SCALE as f64).round() as i64)
}

#[test]
fn empty_vec3_is_all_zero() {
    let v = empty_vec3();
    assert_eq!(v[0].raw, 0);
    assert_eq!(v[1].raw, 0);
    assert_eq!(v[2].raw, 0);
}

#[test]
fn magnitude_of_a_pythagorean_triple_is_exact() {
    let v: Vector3 = [Fx::from_int(3), Fx::from_int(4), Fx::from_int(0)];
    assert_eq!(magnitude_vec3(v), Fx::from_int(5));
}

#[test]
fn magnitude_is_zero_exactly_on_the_zero_vector() {
    assert_eq!(magnitude_vec3(empty_vec3()).raw, 0);
    let tiny: Vector3 = [Fx::from_raw(1), Fx::from_raw(1), Fx::from_raw(1)];
    // The squared length is three raw quanta; its square root floors to one.
    assert_eq!(magnitude_vec3(tiny).raw, 1);
}

#[test]
fn magnitude_saturates_on_extreme_vectors() {
    let big = Fx::from_raw(i64::MAX);
    assert_eq!(magnitude_vec3([big, big, big]).raw, i64::MAX);
}

#[test]
fn magnitude_is_unchanged_by_negation() {
    let v: Vector3 = [fx(1.5), fx(-2.25), fx(3.125)];
    let negated = scale_vec3(v, Fx::from_int(-1));
    assert_eq!(magnitude_vec3(negated), magnitude_vec3(v));
}

#[test]
fn scaling_by_one_and_zero() {
    let v: Vector3 = [fx(1.5), fx(-2.25), fx(3.125)];
    assert_eq!(scale_vec3(v, Fx::one()), v);
    assert_eq!(scale_vec3(v, Fx::zero()), empty_vec3());
}

#[test]
fn dot_product_has_the_textbook_value() {
    let a: Vector3 = [Fx::from_int(1), Fx::from_int(2), Fx::from_int(3)];
    let b: Vector3 = [Fx::from_int(4), Fx::from_int(5), Fx::from_int(6)];
    assert_eq!(dot_product_vec3(a, b), Fx::from_int(32));
}

#[test]
fn dot_product_is_commutative() {
    let a: Vector3 = [fx(0.5), fx(-1.25), fx(7.0)];
    let b: Vector3 = [fx(2.5), fx(3.75), fx(-0.125)];
    assert_eq!(dot_product_vec3(a, b), dot_product_vec3(b, a));
}

#[test]
fn dot_product_saturates() {
    let big = Fx::from_raw(i64::MAX);
    let v: Vector3 = [big, big, big];
    assert_eq!(dot_product_vec3(v, v).raw, i64::MAX);
}

#[test]
fn cross_product_of_the_basis_vectors() {
    let x: Vector3 = [Fx::from_int(1), Fx::from_int(0), Fx::from_int(0)];
    let y: Vector3 = [Fx::from_int(0), Fx::from_int(1), Fx::from_int(0)];
    let z: Vector3 = [Fx::from_int(0), Fx::from_int(0), Fx::from_int(1)];
    assert_eq!(cross_product_vec3(x, y), z);
}

#[test]
fn cross_product_is_anticommutative() {
    let a: Vector3 = [fx(0.5), fx(-1.25), fx(7.0)];
    let b: Vector3 = [fx(2.5), fx(3.75), fx(-0.125)];
    let forward = cross_product_vec3(a, b);
    let backward = scale_vec3(cross_product_vec3(b, a), Fx::from_int(-1));
    assert_eq!(forward, backward);
}

#[test]
fn cross_product_of_parallel_vectors_is_zero() {
    let a: Vector3 = [Fx::from_int(2), Fx::from_int(4), Fx::from_int(-6)];
    let b: Vector3 = [Fx::from_int(1), Fx::from_int(2), Fx::from_int(-3)];
    assert_eq!(cross_product_vec3(a, b), empty_vec3());
}
