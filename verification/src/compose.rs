//! Matrix composition: the pairwise product and the N-ary product chain.
//!
//! `multiply_mat4(a, b)` composes `a` then `b` for row vectors: entry
//! `[r][c]` of the product is the saturated sum over `k` of the rescaled
//! products `a[k][c] * b[r][k]`. `multiply_mat4_n` folds a non-empty
//! sequence from the left under that convention, so the matrices apply
//! left to right; a single matrix comes back unchanged and an empty
//! sequence is an error.

use crate::matrix::{
    ent, identity_ent, mat4_wf, rotation_mat4_x, rotation_mat4_y, rotation_mat4_z, rotation_x_ent,
    rotation_y_ent, rotation_z_ent, Angle, Matrix4,
};
use crate::scalar::{
    lemma_tdiv_exact, lemma_tdiv_neg, mul_term_wide, sat, sat_wide, tdiv, Fx, SCALE,
};
use crate::MathError;
use vstd::arithmetic::mul::lemma_mul_is_commutative;
use vstd::prelude::*;

verus! {

/// One rescaled product of the entry sum: `a[k][c] * b[r][k]`, divided by
/// `SCALE` with truncation.
pub open spec fn mul_term(a: Matrix4, b: Matrix4, r: int, c: int, k: int) -> int {
    tdiv(ent(a, k, c) * ent(b, r, k), SCALE as int)
}

/// The raw value of entry `[r][c]` of the product of `a` then `b`: the
/// four rescaled products are summed, and the sum saturates once.
pub open spec fn mul_ent(a: Matrix4, b: Matrix4, r: int, c: int) -> int {
    sat(
        mul_term(a, b, r, c, 0) + mul_term(a, b, r, c, 1) + mul_term(a, b, r, c, 2) + mul_term(
            a,
            b,
            r,
            c,
            3,
        ),
    )
}

/// The raw entries of a matrix, row by row.
pub open spec fn model(m: Matrix4) -> Seq<Seq<int>> {
    Seq::new(4, |r: int| Seq::new(4, |c: int| ent(m, r, c)))
}

/// Entry `[r][c]` of the product of two entry grids, under the same
/// convention as `mul_ent`.
pub open spec fn mul_model_ent(a: Seq<Seq<int>>, b: Seq<Seq<int>>, r: int, c: int) -> int {
    sat(
        tdiv(a[0][c] * b[r][0], SCALE as int) + tdiv(a[1][c] * b[r][1], SCALE as int) + tdiv(
            a[2][c] * b[r][2],
            SCALE as int,
        ) + tdiv(a[3][c] * b[r][3], SCALE as int),
    )
}

/// The product of two entry grids.
pub open spec fn mul_model(a: Seq<Seq<int>>, b: Seq<Seq<int>>) -> Seq<Seq<int>> {
    Seq::new(4, |r: int| Seq::new(4, |c: int| mul_model_ent(a, b, r, c)))
}

/// The left fold of `mul_model` over a non-empty sequence of entry grids:
/// the product chain applies its matrices left to right.
pub open spec fn mul_n_model(ms: Seq<Seq<Seq<int>>>) -> Seq<Seq<int>>
    recommends
        ms.len() >= 1,
    decreases ms.len(),
{
    if ms.len() <= 1 {
        ms[0]
    } else {
        mul_model(mul_n_model(ms.drop_last()), ms.last())
    }
}

/// One entry of the matrix product.
fn mul_entry(a: &Matrix4, b: &Matrix4, r: usize, c: usize) -> (e: Fx)
    requires
        r < 4,
        c < 4,
    ensures
        e@ == mul_ent(*a, *b, r as int, c as int),
        e.wf(),
{
    let t0 = mul_term_wide(a[0][c], b[r][0]);
    let t1 = mul_term_wide(a[1][c], b[r][1]);
    let t2 = mul_term_wide(a[2][c], b[r][2]);
    let t3 = mul_term_wide(a[3][c], b[r][3]);
    Fx { raw: sat_wide(t0 + t1 + t2 + t3) }
}

/// The matrix product composing `matrix_a` then `matrix_b` for row
/// vectors: entry `[r][c]` sums the rescaled products
/// `matrix_a[k][c] * matrix_b[r][k]` over `k`.
pub fn multiply_mat4(matrix_a: Matrix4, matrix_b: Matrix4) -> (m: Matrix4)
    ensures
        forall|r: int, c: int|
            0 <= r < 4 && 0 <= c < 4 ==> #[trigger] ent(m, r, c) == mul_ent(
                matrix_a,
                matrix_b,
                r,
                c,
            ),
        mat4_wf(m),
{
    let a = &matrix_a;
    let b = &matrix_b;
    [
        [mul_entry(a, b, 0, 0), mul_entry(a, b, 0, 1), mul_entry(a, b, 0, 2), mul_entry(a, b, 0, 3)],
        [mul_entry(a, b, 1, 0), mul_entry(a, b, 1, 1), mul_entry(a, b, 1, 2), mul_entry(a, b, 1, 3)],
        [mul_entry(a, b, 2, 0), mul_entry(a, b, 2, 1), mul_entry(a, b, 2, 2), mul_entry(a, b, 2, 3)],
        [mul_entry(a, b, 3, 0), mul_entry(a, b, 3, 1), mul_entry(a, b, 3, 2), mul_entry(a, b, 3, 3)],
    ]
}

/// The per-entry contract of `multiply_mat4`, lifted to entry grids.
proof fn lemma_model_mul(a: Matrix4, b: Matrix4, m: Matrix4)
    requires
        forall|r: int, c: int|
            0 <= r < 4 && 0 <= c < 4 ==> #[trigger] ent(m, r, c) == mul_ent(a, b, r, c),
    ensures
        model(m) == mul_model(model(a), model(b)),
{
    assert(model(m) =~~= mul_model(model(a), model(b)));
}

/// The product chain of an ordered, non-empty sequence of matrices,
/// folded from the left: the matrices apply left to right. A single
/// matrix comes back unchanged; an empty sequence is an error.
pub fn multiply_mat4_n(matrices: Vec<Matrix4>) -> (res: Result<Matrix4, MathError>)
    ensures
        matrices@.len() == 0 <==> res is Err,
        res is Err ==> res == Err::<Matrix4, MathError>(MathError::EmptyProduct),
        res matches Ok(m) ==> model(m) == mul_n_model(
            matrices@.map_values(|x: Matrix4| model(x)),
        ),
        matrices@.len() == 1 ==> res == Ok::<Matrix4, MathError>(matrices@[0]),
        matrices@.len() >= 2 ==> (res matches Ok(m) ==> mat4_wf(m)),
{
    if matrices.len() == 0 {
        return Err(MathError::EmptyProduct);
    }
    let ghost grids = matrices@.map_values(|x: Matrix4| model(x));
    let mut temp = matrices[0];
    proof {
        assert(grids.take(1) =~= seq![model(temp)]);
    }
    let mut i: usize = 1;
    while i < matrices.len()
        invariant
            1 <= i <= matrices@.len(),
            grids == matrices@.map_values(|x: Matrix4| model(x)),
            model(temp) == mul_n_model(grids.take(i as int)),
            i == 1 ==> temp == matrices@[0],
            i >= 2 ==> mat4_wf(temp),
        decreases matrices@.len() - i,
    {
        let next_matrix = matrices[i];
        let product = multiply_mat4(temp, next_matrix);
        proof {
            lemma_model_mul(temp, next_matrix, product);
            assert(grids.take(i as int + 1).drop_last() =~= grids.take(i as int));
            assert(grids.take(i as int + 1).last() == model(next_matrix));
        }
        temp = product;
        i = i + 1;
    }
    proof {
        assert(grids.take(matrices@.len() as int) =~= grids);
    }
    Ok(temp)
}

/// The combined rotation: the product of the three single-axis rotations,
/// applied in the fixed order x, then y, then z.
pub fn rotation_mat4(x_angle: Angle, y_angle: Angle, z_angle: Angle) -> (m: Matrix4)
    ensures
        model(m) == mul_model(
            mul_model(rotation_x_model(x_angle), rotation_y_model(y_angle)),
            rotation_z_model(z_angle),
        ),
        x_angle.wf() && y_angle.wf() && z_angle.wf() ==> mat4_wf(m),
{
    let around_x = rotation_mat4_x(x_angle);
    let around_y = rotation_mat4_y(y_angle);
    let around_z = rotation_mat4_z(z_angle);
    let chain = vec![around_x, around_y, around_z];
    let ghost grids = chain@.map_values(|x: Matrix4| model(x));
    proof {
        assert(model(around_x) =~~= rotation_x_model(x_angle));
        assert(model(around_y) =~~= rotation_y_model(y_angle));
        assert(model(around_z) =~~= rotation_z_model(z_angle));
        let pair = seq![model(around_x), model(around_y)];
        let single = seq![model(around_x)];
        assert(grids.len() == 3);
        assert(grids.drop_last() =~= pair);
        assert(grids.last() == model(around_z));
        assert(pair.drop_last() =~= single);
        assert(pair.last() == model(around_y));
        assert(mul_n_model(single) == model(around_x));
        assert(mul_n_model(pair) == mul_model(model(around_x), model(around_y)));
        assert(mul_n_model(grids) == mul_model(
            mul_model(model(around_x), model(around_y)),
            model(around_z),
        ));
    }
    match multiply_mat4_n(chain) {
        Ok(m) => m,
        Err(_) => {
            proof {
                assert(false);
            }
            around_x
        },
    }
}

/// The raw entries of the rotation about the x axis.
pub open spec fn rotation_x_model(angle: Angle) -> Seq<Seq<int>> {
    Seq::new(4, |r: int| Seq::new(4, |c: int| rotation_x_ent(angle, r, c)))
}

/// The raw entries of the rotation about the y axis.
pub open spec fn rotation_y_model(angle: Angle) -> Seq<Seq<int>> {
    Seq::new(4, |r: int| Seq::new(4, |c: int| rotation_y_ent(angle, r, c)))
}

/// The raw entries of the rotation about the z axis.
pub open spec fn rotation_z_model(angle: Angle) -> Seq<Seq<int>> {
    Seq::new(4, |r: int| Seq::new(4, |c: int| rotation_z_ent(angle, r, c)))
}

/// A matrix laid out as the identity is a two-sided unit of the product:
/// multiplying any well-formed matrix by it, on either side, returns that
/// matrix entry for entry.
pub proof fn lemma_identity_is_multiplicative_unit(id: Matrix4, m: Matrix4)
    requires
        forall|r: int, c: int|
            0 <= r < 4 && 0 <= c < 4 ==> #[trigger] ent(id, r, c) == identity_ent(r, c),
        mat4_wf(m),
    ensures
        forall|r: int, c: int|
            0 <= r < 4 && 0 <= c < 4 ==> #[trigger] mul_ent(id, m, r, c) == ent(m, r, c),
        forall|r: int, c: int|
            0 <= r < 4 && 0 <= c < 4 ==> #[trigger] mul_ent(m, id, r, c) == ent(m, r, c),
{
    assert forall|r: int, c: int| 0 <= r < 4 && 0 <= c < 4 implies #[trigger] mul_ent(id, m, r, c)
        == ent(m, r, c) by {
        lemma_tdiv_exact(ent(m, r, c), SCALE as int);
        lemma_mul_is_commutative(SCALE as int, ent(m, r, c));
        assert(tdiv(0, SCALE as int) == 0);
    }
    assert forall|r: int, c: int| 0 <= r < 4 && 0 <= c < 4 implies #[trigger] mul_ent(m, id, r, c)
        == ent(m, r, c) by {
        lemma_tdiv_exact(ent(m, r, c), SCALE as int);
        lemma_mul_is_commutative(SCALE as int, ent(m, r, c));
        assert(tdiv(0, SCALE as int) == 0);
    }
}

/// Rotations about the x axis by an angle and its opposite cancel: when
/// the given cosine and sine pair is exact enough that the rescaled
/// `cos * cos + sin * sin` is exactly one, the product of the two
/// rotations is the identity, on either side.
pub proof fn lemma_rotation_x_opposite_cancels(a: Matrix4, b: Matrix4, angle: Angle, opposite: Angle)
    requires
        angle.wf(),
        opposite.cos@ == angle.cos@,
        opposite.sin@ == -angle.sin@,
        tdiv(angle.cos@ * angle.cos@, SCALE as int) + tdiv(angle.sin@ * angle.sin@, SCALE as int)
            == SCALE as int,
        forall|r: int, c: int|
            0 <= r < 4 && 0 <= c < 4 ==> #[trigger] ent(a, r, c) == rotation_x_ent(angle, r, c),
        forall|r: int, c: int|
            0 <= r < 4 && 0 <= c < 4 ==> #[trigger] ent(b, r, c) == rotation_x_ent(opposite, r, c),
    ensures
        forall|r: int, c: int|
            0 <= r < 4 && 0 <= c < 4 ==> #[trigger] mul_ent(a, b, r, c) == identity_ent(r, c),
        forall|r: int, c: int|
            0 <= r < 4 && 0 <= c < 4 ==> #[trigger] mul_ent(b, a, r, c) == identity_ent(r, c),
{
    let co = angle.cos@;
    let si = angle.sin@;
    assert forall|r: int, c: int| 0 <= r < 4 && 0 <= c < 4 implies #[trigger] mul_ent(a, b, r, c)
        == identity_ent(r, c) by {
        rotation_x_cancel_facts(co, si);
    }
    assert forall|r: int, c: int| 0 <= r < 4 && 0 <= c < 4 implies #[trigger] mul_ent(b, a, r, c)
        == identity_ent(r, c) by {
        rotation_x_cancel_facts(co, si);
        assert(ent(b, 2, 1) * ent(a, 1, 2) == si * si) by (nonlinear_arith)
            requires
                ent(b, 2, 1) == -si,
                ent(a, 1, 2) == -si,
        ;
        assert(ent(b, 1, 2) * ent(a, 2, 1) == si * si) by (nonlinear_arith)
            requires
                ent(b, 1, 2) == si,
                ent(a, 2, 1) == si,
        ;
        assert(ent(b, 1, 2) * ent(a, 1, 1) == si * co) by (nonlinear_arith)
            requires
                ent(b, 1, 2) == si,
                ent(a, 1, 1) == co,
        ;
        assert(ent(b, 2, 2) * ent(a, 1, 2) == -(si * co)) by (nonlinear_arith)
            requires
                ent(b, 2, 2) == co,
                ent(a, 1, 2) == -si,
        ;
        assert(ent(b, 1, 1) * ent(a, 2, 1) == si * co) by (nonlinear_arith)
            requires
                ent(b, 1, 1) == co,
                ent(a, 2, 1) == si,
        ;
        assert(ent(b, 2, 1) * ent(a, 2, 2) == -(si * co)) by (nonlinear_arith)
            requires
                ent(b, 2, 1) == -si,
                ent(a, 2, 2) == co,
        ;
        assert(ent(b, 1, 1) * ent(a, 1, 1) == co * co) by (nonlinear_arith)
            requires
                ent(b, 1, 1) == co,
                ent(a, 1, 1) == co,
        ;
        assert(ent(b, 2, 2) * ent(a, 2, 2) == co * co) by (nonlinear_arith)
            requires
                ent(b, 2, 2) == co,
                ent(a, 2, 2) == co,
        ;
        assert(tdiv(-(si * co), SCALE as int) == -tdiv(si * co, SCALE as int));
        assert(mul_ent(b, a, 0, 0) == identity_ent(0, 0));
        assert(mul_ent(b, a, 0, 1) == identity_ent(0, 1));
        assert(mul_ent(b, a, 0, 2) == identity_ent(0, 2));
        assert(mul_ent(b, a, 0, 3) == identity_ent(0, 3));
        assert(mul_ent(b, a, 1, 0) == identity_ent(1, 0));
        assert(mul_ent(b, a, 1, 1) == identity_ent(1, 1));
        assert(mul_ent(b, a, 1, 2) == identity_ent(1, 2));
        assert(mul_ent(b, a, 1, 3) == identity_ent(1, 3));
        assert(mul_ent(b, a, 2, 0) == identity_ent(2, 0));
        assert(mul_ent(b, a, 2, 1) == identity_ent(2, 1));
        assert(mul_ent(b, a, 2, 2) == identity_ent(2, 2));
        assert(mul_ent(b, a, 2, 3) == identity_ent(2, 3));
        assert(mul_ent(b, a, 3, 0) == identity_ent(3, 0));
        assert(mul_ent(b, a, 3, 1) == identity_ent(3, 1));
        assert(mul_ent(b, a, 3, 2) == identity_ent(3, 2));
        assert(mul_ent(b, a, 3, 3) == identity_ent(3, 3));
    }
}

/// The arithmetic facts behind `lemma_rotation_x_opposite_cancels`.
proof fn rotation_x_cancel_facts(co: int, si: int)
    ensures
        tdiv(SCALE as int * SCALE as int, SCALE as int) == SCALE as int,
        tdiv(0, SCALE as int) == 0,
        (-si) * co == -(si * co),
        co * (-si) == -(co * si),
        co * si == si * co,
        (-si) * (-si) == si * si,
        tdiv(-(si * co), SCALE as int) == -tdiv(si * co, SCALE as int),
        tdiv(-(co * si), SCALE as int) == -tdiv(co * si, SCALE as int),
{
    lemma_tdiv_exact(SCALE as int, SCALE as int);
    assert((-si) * co == -(si * co)) by (nonlinear_arith);
    assert(co * (-si) == -(co * si)) by (nonlinear_arith);
    assert(co * si == si * co) by (nonlinear_arith);
    assert((-si) * (-si) == si * si) by (nonlinear_arith);
    lemma_tdiv_neg(si * co, SCALE as int);
    lemma_tdiv_neg(co * si, SCALE as int);
}

} // verus!
