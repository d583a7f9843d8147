//! 3-component vectors: magnitude, scaling, dot and cross products.
//!
//! A vector is an array of three fixed-point scalars. The spec-level model
//! of a vector is the triple of its raw component values; each operation
//! states the exact triple (or scalar) it returns.

use crate::scalar::{
    fx_mul, fx_sub, isqrt_u128, lemma_i64_product_in_wide_range, lemma_mul_s_neg_one,
    lemma_sqrt_floor, lemma_tdiv_exact, mul_s, sat, sqrt_floor, sub_s, tdiv, Fx, MAX_RAW, SCALE,
};
use vstd::arithmetic::mul::lemma_mul_is_commutative;
use vstd::prelude::*;

verus! {

/// An ordered triple of fixed-point components.
pub type Vector3 = [Fx; 3];

/// The raw value of component `i`.
pub open spec fn vc(v: Vector3, i: int) -> int
    recommends
        0 <= i < 3,
{
    v@[i]@
}

/// The raw component triple a vector stands for.
pub open spec fn v3(v: Vector3) -> (int, int, int) {
    (vc(v, 0), vc(v, 1), vc(v, 2))
}

/// Component `i` of a raw triple.
pub open spec fn t3(a: (int, int, int), i: int) -> int
    recommends
        0 <= i < 3,
{
    if i == 0 {
        a.0
    } else if i == 1 {
        a.1
    } else {
        a.2
    }
}

/// Every component lies in the saturation range; all vectors built by this
/// library are such.
pub open spec fn vec3_wf(v: Vector3) -> bool {
    &&& -(MAX_RAW as int) <= vc(v, 0)
    &&& -(MAX_RAW as int) <= vc(v, 1)
    &&& -(MAX_RAW as int) <= vc(v, 2)
}

/// The raw value `magnitude_vec3` returns: the integer square root of the
/// sum of the squared raw components, saturated. Since one squared raw
/// unit is far below one scaled unit, this is the Euclidean norm at the
/// scalar resolution.
pub open spec fn mag_r(a: (int, int, int)) -> int {
    sat(sqrt_floor((a.0 * a.0 + a.1 * a.1 + a.2 * a.2) as nat) as int)
}

/// The raw triple `scale_vec3` returns.
pub open spec fn scale_r(a: (int, int, int), s: int) -> (int, int, int) {
    (mul_s(a.0, s), mul_s(a.1, s), mul_s(a.2, s))
}

/// The raw value `dot_product_vec3` returns: the three products are
/// rescaled individually, then summed, and the sum saturates.
pub open spec fn dot_r(a: (int, int, int), b: (int, int, int)) -> int {
    sat(
        tdiv(a.0 * b.0, SCALE as int) + tdiv(a.1 * b.1, SCALE as int) + tdiv(
            a.2 * b.2,
            SCALE as int,
        ),
    )
}

/// The raw triple `cross_product_vec3` returns: component `i` is
/// `a[i+1]*b[i+2] - b[i+1]*a[i+2]`, indices cyclic.
pub open spec fn cross_r(a: (int, int, int), b: (int, int, int)) -> (int, int, int) {
    (
        sub_s(mul_s(a.1, b.2), mul_s(b.1, a.2)),
        sub_s(mul_s(a.2, b.0), mul_s(b.2, a.0)),
        sub_s(mul_s(a.0, b.1), mul_s(b.0, a.1)),
    )
}

/// The all-zero vector, the base state every builder starts from.
pub fn empty_vec3() -> (r: Vector3)
    ensures
        v3(r) == (0int, 0int, 0int),
        vec3_wf(r),
{
    [Fx::zero(), Fx::zero(), Fx::zero()]
}

/// The Euclidean norm. It is never negative, and it is zero exactly when
/// the vector is the zero vector.
pub fn magnitude_vec3(vec3: Vector3) -> (r: Fx)
    ensures
        r@ == mag_r(v3(vec3)),
        r@ >= 0,
        r@ == 0 <==> v3(vec3) == (0int, 0int, 0int),
        r.wf(),
{
    let x = vec3[0].raw;
    let y = vec3[1].raw;
    let z = vec3[2].raw;
    proof {
        lemma_i64_product_in_wide_range(x as int, x as int);
        lemma_i64_product_in_wide_range(y as int, y as int);
        lemma_i64_product_in_wide_range(z as int, z as int);
        assert((x as int) * (x as int) >= 0) by (nonlinear_arith);
        assert((y as int) * (y as int) >= 0) by (nonlinear_arith);
        assert((z as int) * (z as int) >= 0) by (nonlinear_arith);
    }
    let sx: u128 = ((x as i128) * (x as i128)) as u128;
    let sy: u128 = ((y as i128) * (y as i128)) as u128;
    let sz: u128 = ((z as i128) * (z as i128)) as u128;
    let n: u128 = sx + sy + sz;
    let root: u128 = isqrt_u128(n);
    let raw: i64 = if root > MAX_RAW as u128 {
        MAX_RAW
    } else {
        root as i64
    };
    proof {
        assert(sqrt_floor(0) == 0);
        if v3(vec3) == (0int, 0int, 0int) {
            assert(n == 0) by (nonlinear_arith)
                requires
                    n as int == (x as int) * (x as int) + (y as int) * (y as int) + (z as int) * (
                    z as int),
                    x == 0 && y == 0 && z == 0,
            ;
        } else {
            assert(n >= 1) by (nonlinear_arith)
                requires
                    n as int == (x as int) * (x as int) + (y as int) * (y as int) + (z as int) * (
                    z as int),
                    !(x == 0 && y == 0 && z == 0),
            ;
            lemma_sqrt_floor(n as nat);
            assert(sqrt_floor(n as nat) >= 1) by (nonlinear_arith)
                requires
                    n >= 1,
                    (n as nat) < (sqrt_floor(n as nat) + 1) * (sqrt_floor(n as nat) + 1),
            ;
        }
    }
    Fx { raw }
}

/// Component-wise multiplication by a scalar.
pub fn scale_vec3(vec3: Vector3, scalar: Fx) -> (r: Vector3)
    ensures
        v3(r) == scale_r(v3(vec3), scalar@),
        vec3_wf(r),
{
    [fx_mul(vec3[0], scalar), fx_mul(vec3[1], scalar), fx_mul(vec3[2], scalar)]
}

/// The dot product: the sum of the component-wise products.
pub fn dot_product_vec3(vec_a: Vector3, vec_b: Vector3) -> (r: Fx)
    ensures
        r@ == dot_r(v3(vec_a), v3(vec_b)),
        r.wf(),
{
    let t0 = crate::scalar::mul_term_wide(vec_a[0], vec_b[0]);
    let t1 = crate::scalar::mul_term_wide(vec_a[1], vec_b[1]);
    let t2 = crate::scalar::mul_term_wide(vec_a[2], vec_b[2]);
    Fx { raw: crate::scalar::sat_wide(t0 + t1 + t2) }
}

/// The cross product, by the cyclic index formula.
pub fn cross_product_vec3(vec_a: Vector3, vec_b: Vector3) -> (r: Vector3)
    ensures
        v3(r) == cross_r(v3(vec_a), v3(vec_b)),
        vec3_wf(r),
{
    [
        fx_sub(fx_mul(vec_a[1], vec_b[2]), fx_mul(vec_b[1], vec_a[2])),
        fx_sub(fx_mul(vec_a[2], vec_b[0]), fx_mul(vec_b[2], vec_a[0])),
        fx_sub(fx_mul(vec_a[0], vec_b[1]), fx_mul(vec_b[0], vec_a[1])),
    ]
}

/// Scaling by one returns the vector unchanged; scaling by zero returns
/// the zero vector.
pub proof fn lemma_scale_by_one_and_zero(v: Vector3)
    requires
        vec3_wf(v),
    ensures
        scale_r(v3(v), SCALE as int) == v3(v),
        scale_r(v3(v), 0) == (0int, 0int, 0int),
{
    lemma_tdiv_exact(vc(v, 0), SCALE as int);
    lemma_tdiv_exact(vc(v, 1), SCALE as int);
    lemma_tdiv_exact(vc(v, 2), SCALE as int);
    assert(tdiv(0, SCALE as int) == 0);
}

/// Flipping a vector's sign leaves its magnitude unchanged.
pub proof fn lemma_magnitude_scale_neg_one(v: Vector3)
    requires
        vec3_wf(v),
    ensures
        mag_r(scale_r(v3(v), -(SCALE as int))) == mag_r(v3(v)),
{
    lemma_mul_s_neg_one(vc(v, 0));
    lemma_mul_s_neg_one(vc(v, 1));
    lemma_mul_s_neg_one(vc(v, 2));
    assert((-vc(v, 0)) * (-vc(v, 0)) == vc(v, 0) * vc(v, 0)) by (nonlinear_arith);
    assert((-vc(v, 1)) * (-vc(v, 1)) == vc(v, 1) * vc(v, 1)) by (nonlinear_arith);
    assert((-vc(v, 2)) * (-vc(v, 2)) == vc(v, 2) * vc(v, 2)) by (nonlinear_arith);
}

/// The dot product is commutative.
pub proof fn lemma_dot_commutative(a: Vector3, b: Vector3)
    ensures
        dot_r(v3(a), v3(b)) == dot_r(v3(b), v3(a)),
{
    lemma_mul_is_commutative(vc(a, 0), vc(b, 0));
    lemma_mul_is_commutative(vc(a, 1), vc(b, 1));
    lemma_mul_is_commutative(vc(a, 2), vc(b, 2));
}

/// The cross product is anticommutative: swapping the operands is the same
/// as scaling the result by minus one.
pub proof fn lemma_cross_anticommutative(a: Vector3, b: Vector3)
    ensures
        cross_r(v3(a), v3(b)) == scale_r(cross_r(v3(b), v3(a)), -(SCALE as int)),
{
    cross_anticommutative_component(mul_s(t3(v3(a), 1), t3(v3(b), 2)), mul_s(t3(v3(b), 1), t3(v3(a), 2)));
    cross_anticommutative_component(mul_s(t3(v3(a), 2), t3(v3(b), 0)), mul_s(t3(v3(b), 2), t3(v3(a), 0)));
    cross_anticommutative_component(mul_s(t3(v3(a), 0), t3(v3(b), 1)), mul_s(t3(v3(b), 0), t3(v3(a), 1)));
}

/// One component of the anticommutativity argument: negating a saturated
/// difference of two in-range values saturates the opposite difference.
proof fn cross_anticommutative_component(p: int, q: int)
    requires
        -(MAX_RAW as int) <= p <= MAX_RAW as int,
        -(MAX_RAW as int) <= q <= MAX_RAW as int,
    ensures
        sub_s(p, q) == mul_s(sub_s(q, p), -(SCALE as int)),
{
    lemma_mul_s_neg_one(sub_s(q, p));
}

} // verus!
