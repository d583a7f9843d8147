//! 4x4 matrix builders: identity, translation, rotations, projections and
//! view matrices.
//!
//! A matrix is indexed `[row][column]`. Every builder returns a fresh
//! matrix and states the raw value of each entry through an entry spec
//! function. Angles reach this module as an [`Angle`], the cosine and sine
//! of the rotation, already evaluated by the caller in whatever numeric
//! environment it has; the builders themselves are purely algebraic.

use crate::scalar::{
    add_s, div_s, lemma_tdiv_exact, mul_s, neg_s, sub_s, tdiv, Fx, MAX_RAW, SCALE,
};
use crate::vector::{
    cross_product_vec3, cross_r, dot_product_vec3, dot_r, mag_r, magnitude_vec3, scale_r,
    scale_vec3, t3, v3, vc, vec3_wf, Vector3,
};
use crate::MathError;
use vstd::arithmetic::mul::lemma_mul_is_commutative;
use vstd::prelude::*;

verus! {

/// A 4x4 grid of fixed-point entries, indexed `[row][column]`.
pub type Matrix4 = [[Fx; 4]; 4];

/// The raw value of the entry in row `r`, column `c`.
pub open spec fn ent(m: Matrix4, r: int, c: int) -> int
    recommends
        0 <= r < 4,
        0 <= c < 4,
{
    m@[r]@[c]@
}

/// Every entry lies in the saturation range.
pub open spec fn mat4_wf(m: Matrix4) -> bool {
    forall|r: int, c: int|
        0 <= r < 4 && 0 <= c < 4 ==> -(MAX_RAW as int) <= #[trigger] ent(m, r, c)
}

/// The entries of the identity matrix: one on the diagonal, zero elsewhere.
pub open spec fn identity_ent(r: int, c: int) -> int {
    if r == c {
        SCALE as int
    } else {
        0
    }
}

/// The entries of a translation matrix: the identity with the first three
/// rows of the last column set to the translation vector.
pub open spec fn translation_ent(v: Vector3, r: int, c: int) -> int {
    if r == c {
        SCALE as int
    } else if c == 3 {
        vc(v, r)
    } else {
        0
    }
}

/// The cosine and sine of a rotation angle, as fixed-point scalars.
#[derive(Clone, Copy, PartialEq, Eq, Structural, Debug)]
pub struct Angle {
    pub cos: Fx,
    pub sin: Fx,
}

impl Angle {
    /// Both trigonometric values lie in the saturation range.
    pub open spec fn wf(self) -> bool {
        self.cos.wf() && self.sin.wf()
    }

    /// The angle with the given cosine and sine.
    pub fn new(cos: Fx, sin: Fx) -> (a: Angle)
        ensures
            a.cos == cos,
            a.sin == sin,
    {
        Angle { cos, sin }
    }

    /// The zero angle: cosine one, sine zero.
    pub fn zero() -> (a: Angle)
        ensures
            a.cos@ == SCALE as int,
            a.sin@ == 0,
            a.wf(),
    {
        Angle { cos: Fx::one(), sin: Fx::zero() }
    }
}

/// The entries of a rotation about the x axis: `[1][2]` carries the
/// negated sine, `[2][1]` the sine.
pub open spec fn rotation_x_ent(angle: Angle, r: int, c: int) -> int {
    if r == 0 && c == 0 {
        SCALE as int
    } else if r == 1 && c == 1 {
        angle.cos@
    } else if r == 1 && c == 2 {
        neg_s(angle.sin@)
    } else if r == 2 && c == 1 {
        angle.sin@
    } else if r == 2 && c == 2 {
        angle.cos@
    } else if r == 3 && c == 3 {
        SCALE as int
    } else {
        0
    }
}

/// The entries of a rotation about the y axis: `[0][2]` carries the sine,
/// `[2][0]` the negated sine.
pub open spec fn rotation_y_ent(angle: Angle, r: int, c: int) -> int {
    if r == 0 && c == 0 {
        angle.cos@
    } else if r == 0 && c == 2 {
        angle.sin@
    } else if r == 1 && c == 1 {
        SCALE as int
    } else if r == 2 && c == 0 {
        neg_s(angle.sin@)
    } else if r == 2 && c == 2 {
        angle.cos@
    } else if r == 3 && c == 3 {
        SCALE as int
    } else {
        0
    }
}

/// The entries of a rotation about the z axis: `[0][1]` carries the
/// negated sine, `[1][0]` the sine.
pub open spec fn rotation_z_ent(angle: Angle, r: int, c: int) -> int {
    if r == 0 && c == 0 {
        angle.cos@
    } else if r == 0 && c == 1 {
        neg_s(angle.sin@)
    } else if r == 1 && c == 0 {
        angle.sin@
    } else if r == 1 && c == 1 {
        angle.cos@
    } else if r == 2 && c == 2 {
        SCALE as int
    } else if r == 3 && c == 3 {
        SCALE as int
    } else {
        0
    }
}

/// The all-zero matrix, the base state every builder starts from.
pub fn empty_mat4() -> (m: Matrix4)
    ensures
        forall|r: int, c: int| 0 <= r < 4 && 0 <= c < 4 ==> #[trigger] ent(m, r, c) == 0,
        mat4_wf(m),
{
    let z = Fx::zero();
    let row = [z, z, z, z];
    [row, row, row, row]
}

/// The identity matrix.
pub fn identity_mat4() -> (m: Matrix4)
    ensures
        forall|r: int, c: int|
            0 <= r < 4 && 0 <= c < 4 ==> #[trigger] ent(m, r, c) == identity_ent(r, c),
        mat4_wf(m),
{
    let z = Fx::zero();
    let o = Fx::one();
    [[o, z, z, z], [z, o, z, z], [z, z, o, z], [z, z, z, o]]
}

/// The translation matrix moving the origin to `vector`.
pub fn translation_mat4(vector: Vector3) -> (m: Matrix4)
    ensures
        forall|r: int, c: int|
            0 <= r < 4 && 0 <= c < 4 ==> #[trigger] ent(m, r, c) == translation_ent(vector, r, c),
        vec3_wf(vector) ==> mat4_wf(m),
{
    let z = Fx::zero();
    let o = Fx::one();
    [
        [o, z, z, vector[0]],
        [z, o, z, vector[1]],
        [z, z, o, vector[2]],
        [z, z, z, o],
    ]
}

/// The rotation about the x axis with the given cosine and sine.
pub fn rotation_mat4_x(angle: Angle) -> (m: Matrix4)
    ensures
        forall|r: int, c: int|
            0 <= r < 4 && 0 <= c < 4 ==> #[trigger] ent(m, r, c) == rotation_x_ent(angle, r, c),
        angle.wf() ==> mat4_wf(m),
{
    let z = Fx::zero();
    let o = Fx::one();
    [
        [o, z, z, z],
        [z, angle.cos, crate::scalar::fx_neg(angle.sin), z],
        [z, angle.sin, angle.cos, z],
        [z, z, z, o],
    ]
}

/// The rotation about the y axis with the given cosine and sine.
pub fn rotation_mat4_y(angle: Angle) -> (m: Matrix4)
    ensures
        forall|r: int, c: int|
            0 <= r < 4 && 0 <= c < 4 ==> #[trigger] ent(m, r, c) == rotation_y_ent(angle, r, c),
        angle.wf() ==> mat4_wf(m),
{
    let z = Fx::zero();
    let o = Fx::one();
    [
        [angle.cos, z, angle.sin, z],
        [z, o, z, z],
        [crate::scalar::fx_neg(angle.sin), z, angle.cos, z],
        [z, z, z, o],
    ]
}

/// The rotation about the z axis with the given cosine and sine.
pub fn rotation_mat4_z(angle: Angle) -> (m: Matrix4)
    ensures
        forall|r: int, c: int|
            0 <= r < 4 && 0 <= c < 4 ==> #[trigger] ent(m, r, c) == rotation_z_ent(angle, r, c),
        angle.wf() ==> mat4_wf(m),
{
    let z = Fx::zero();
    let o = Fx::one();
    [
        [angle.cos, crate::scalar::fx_neg(angle.sin), z, z],
        [angle.sin, angle.cos, z, z],
        [z, z, o, z],
        [z, z, z, o],
    ]
}

/// The entries of a perspective projection. `focal` is the focal length,
/// the reciprocal of the tangent of half the field of view. The matrix is
/// the standard one: `[2][3]` carries `2 * far * near / (near - far)` and
/// `[3][2]` is minus one.
pub open spec fn perspective_ent(near: int, far: int, focal: int, aspect: int, r: int, c: int) -> int
    recommends
        near != far,
        aspect != 0,
{
    if r == 0 && c == 0 {
        div_s(focal, aspect)
    } else if r == 1 && c == 1 {
        focal
    } else if r == 2 && c == 2 {
        div_s(add_s(near, far), sub_s(near, far))
    } else if r == 2 && c == 3 {
        div_s(mul_s(mul_s(2 * (SCALE as int), far), near), sub_s(near, far))
    } else if r == 3 && c == 2 {
        -(SCALE as int)
    } else {
        0
    }
}

/// The perspective projection for the given clip planes, focal length and
/// aspect ratio. The algebra divides by `near - far` and by the aspect
/// ratio, so those inputs are rejected when the divisor would be zero.
pub fn perspective_mat4(near: Fx, far: Fx, focal: Fx, aspect_ratio: Fx) -> (res: Result<
    Matrix4,
    MathError,
>)
    ensures
        near@ == far@ || aspect_ratio@ == 0 <==> res is Err,
        res is Err ==> res == Err::<Matrix4, MathError>(MathError::DivisionByZero),
        res matches Ok(m) ==> forall|r: int, c: int|
            0 <= r < 4 && 0 <= c < 4 ==> #[trigger] ent(m, r, c) == perspective_ent(
                near@,
                far@,
                focal@,
                aspect_ratio@,
                r,
                c,
            ),
        res matches Ok(m) ==> (focal.wf() ==> mat4_wf(m)),
{
    if near.raw == far.raw || aspect_ratio.raw == 0 {
        return Err(MathError::DivisionByZero);
    }
    let denominator = crate::scalar::fx_sub(near, far);
    let two = Fx::from_int(2);
    let z = Fx::zero();
    let minus_one = Fx { raw: -SCALE };
    let a00 = crate::scalar::fx_div(focal, aspect_ratio);
    let a22 = crate::scalar::fx_div(crate::scalar::fx_add(near, far), denominator);
    let a23 = crate::scalar::fx_div(
        crate::scalar::fx_mul(crate::scalar::fx_mul(two, far), near),
        denominator,
    );
    Ok(
        [
            [a00, z, z, z],
            [z, focal, z, z],
            [z, z, a22, a23],
            [z, z, minus_one, z],
        ],
    )
}

/// The entries of an off-center perspective frustum. The last row is
/// `[0, 0, -1, 0]`, as in the symmetric perspective matrix.
pub open spec fn frustum_ent(
    left: int,
    right: int,
    bottom: int,
    top: int,
    near: int,
    far: int,
    r: int,
    c: int,
) -> int
    recommends
        right != left,
        top != bottom,
        near != far,
{
    if r == 0 && c == 0 {
        div_s(mul_s(2 * (SCALE as int), near), sub_s(right, left))
    } else if r == 1 && c == 1 {
        div_s(mul_s(2 * (SCALE as int), near), sub_s(top, bottom))
    } else if r == 0 && c == 2 {
        div_s(add_s(right, left), sub_s(right, left))
    } else if r == 1 && c == 2 {
        div_s(add_s(top, bottom), sub_s(top, bottom))
    } else if r == 2 && c == 2 {
        div_s(add_s(near, far), sub_s(near, far))
    } else if r == 2 && c == 3 {
        div_s(mul_s(mul_s(2 * (SCALE as int), far), near), sub_s(near, far))
    } else if r == 3 && c == 2 {
        -(SCALE as int)
    } else {
        0
    }
}

/// The off-center perspective frustum for the given bounds. Each pair of
/// bounds is a divisor of the algebra, so equal bounds are rejected.
pub fn frustum_mat4(left: Fx, right: Fx, bottom: Fx, top: Fx, near: Fx, far: Fx) -> (res: Result<
    Matrix4,
    MathError,
>)
    ensures
        right@ == left@ || top@ == bottom@ || near@ == far@ <==> res is Err,
        res is Err ==> res == Err::<Matrix4, MathError>(MathError::DivisionByZero),
        res matches Ok(m) ==> forall|r: int, c: int|
            0 <= r < 4 && 0 <= c < 4 ==> #[trigger] ent(m, r, c) == frustum_ent(
                left@,
                right@,
                bottom@,
                top@,
                near@,
                far@,
                r,
                c,
            ),
        res matches Ok(m) ==> mat4_wf(m),
{
    if right.raw == left.raw || top.raw == bottom.raw || near.raw == far.raw {
        return Err(MathError::DivisionByZero);
    }
    let width = crate::scalar::fx_sub(right, left);
    let height = crate::scalar::fx_sub(top, bottom);
    let depth = crate::scalar::fx_sub(near, far);
    let two_near = crate::scalar::fx_mul(Fx::from_int(2), near);
    let z = Fx::zero();
    let minus_one = Fx { raw: -SCALE };
    let a00 = crate::scalar::fx_div(two_near, width);
    let a02 = crate::scalar::fx_div(crate::scalar::fx_add(right, left), width);
    let a11 = crate::scalar::fx_div(two_near, height);
    let a12 = crate::scalar::fx_div(crate::scalar::fx_add(top, bottom), height);
    let a22 = crate::scalar::fx_div(crate::scalar::fx_add(near, far), depth);
    let a23 = crate::scalar::fx_div(
        crate::scalar::fx_mul(crate::scalar::fx_mul(Fx::from_int(2), far), near),
        depth,
    );
    Ok(
        [
            [a00, z, a02, z],
            [z, a11, a12, z],
            [z, z, a22, a23],
            [z, z, minus_one, z],
        ],
    )
}

/// The camera's x basis vector for the given pitch and yaw trigonometry.
pub open spec fn view_angles_x(pc: int, ps: int, yc: int, ys: int) -> (int, int, int) {
    (yc, 0, neg_s(ys))
}

/// The camera's y basis vector for the given pitch and yaw trigonometry.
pub open spec fn view_angles_y(pc: int, ps: int, yc: int, ys: int) -> (int, int, int) {
    (mul_s(ys, ps), pc, mul_s(yc, ps))
}

/// The camera's z basis vector for the given pitch and yaw trigonometry.
pub open spec fn view_angles_z(pc: int, ps: int, yc: int, ys: int) -> (int, int, int) {
    (mul_s(ys, pc), neg_s(ps), mul_s(pc, yc))
}

/// The entries of a view matrix with camera basis `x`, `y`, `z` and camera
/// position `p`: the basis vectors fill the first three columns, and the
/// last column carries the negated dot products of basis and position.
pub open spec fn view_ent(
    x: (int, int, int),
    y: (int, int, int),
    z: (int, int, int),
    p: (int, int, int),
    r: int,
    c: int,
) -> int {
    if r == 3 {
        if c == 3 {
            SCALE as int
        } else {
            0
        }
    } else if c == 0 {
        t3(x, r)
    } else if c == 1 {
        t3(y, r)
    } else if c == 2 {
        t3(z, r)
    } else if r == 0 {
        neg_s(dot_r(x, p))
    } else if r == 1 {
        neg_s(dot_r(y, p))
    } else {
        neg_s(dot_r(z, p))
    }
}

/// The first-person view matrix for a camera at `camera_position` whose
/// orientation is given by the cosine and sine of its pitch and yaw.
pub fn view_matrix_from_radians(pitch: Angle, yaw: Angle, camera_position: Vector3) -> (m: Matrix4)
    ensures
        forall|r: int, c: int|
            0 <= r < 4 && 0 <= c < 4 ==> #[trigger] ent(m, r, c) == view_ent(
                view_angles_x(pitch.cos@, pitch.sin@, yaw.cos@, yaw.sin@),
                view_angles_y(pitch.cos@, pitch.sin@, yaw.cos@, yaw.sin@),
                view_angles_z(pitch.cos@, pitch.sin@, yaw.cos@, yaw.sin@),
                v3(camera_position),
                r,
                c,
            ),
        pitch.wf() && yaw.wf() ==> mat4_wf(m),
{
    let x: Vector3 = [yaw.cos, Fx::zero(), crate::scalar::fx_neg(yaw.sin)];
    let y: Vector3 = [
        crate::scalar::fx_mul(yaw.sin, pitch.sin),
        pitch.cos,
        crate::scalar::fx_mul(yaw.cos, pitch.sin),
    ];
    let z: Vector3 = [
        crate::scalar::fx_mul(yaw.sin, pitch.cos),
        crate::scalar::fx_neg(pitch.sin),
        crate::scalar::fx_mul(pitch.cos, yaw.cos),
    ];
    let tx = crate::scalar::fx_neg(dot_product_vec3(x, camera_position));
    let ty = crate::scalar::fx_neg(dot_product_vec3(y, camera_position));
    let tz = crate::scalar::fx_neg(dot_product_vec3(z, camera_position));
    let zero = Fx::zero();
    [
        [x[0], y[0], z[0], tx],
        [x[1], y[1], z[1], ty],
        [x[2], y[2], z[2], tz],
        [zero, zero, zero, Fx::one()],
    ]
}

/// The camera's z basis for a view direction: the direction normalized and
/// negated.
pub open spec fn view_dir_z(dir: (int, int, int)) -> (int, int, int)
    recommends
        mag_r(dir) != 0,
{
    scale_r(dir, neg_s(div_s(SCALE as int, mag_r(dir))))
}

/// The camera's x basis for a view direction: the cross product of the
/// direction and the world up vector, normalized.
pub open spec fn view_dir_x(dir: (int, int, int), up: (int, int, int)) -> (int, int, int)
    recommends
        mag_r(cross_r(dir, up)) != 0,
{
    scale_r(cross_r(dir, up), div_s(SCALE as int, mag_r(cross_r(dir, up))))
}

/// The camera's y basis for a view direction: the cross product of the z
/// and x basis vectors.
pub open spec fn view_dir_y(dir: (int, int, int), up: (int, int, int)) -> (int, int, int) {
    cross_r(view_dir_z(dir), view_dir_x(dir, up))
}

/// The view matrix for a camera at `camera_position` looking along
/// `view_direction`. Normalization divides by the magnitudes of the
/// direction and of its cross product with `world_up`, so a zero length
/// there is rejected.
pub fn view_mat4_from_vec3(
    view_direction: Vector3,
    world_up: Vector3,
    camera_position: Vector3,
) -> (res: Result<Matrix4, MathError>)
    ensures
        mag_r(v3(view_direction)) == 0 || mag_r(cross_r(v3(view_direction), v3(world_up))) == 0
            <==> res is Err,
        res is Err ==> res == Err::<Matrix4, MathError>(MathError::DivisionByZero),
        res matches Ok(m) ==> forall|r: int, c: int|
            0 <= r < 4 && 0 <= c < 4 ==> #[trigger] ent(m, r, c) == view_ent(
                view_dir_x(v3(view_direction), v3(world_up)),
                view_dir_y(v3(view_direction), v3(world_up)),
                view_dir_z(v3(view_direction)),
                v3(camera_position),
                r,
                c,
            ),
        res matches Ok(m) ==> mat4_wf(m),
{
    let direction_magnitude = magnitude_vec3(view_direction);
    if direction_magnitude.raw == 0 {
        return Err(MathError::DivisionByZero);
    }
    let z = scale_vec3(
        view_direction,
        crate::scalar::fx_neg(crate::scalar::fx_div(Fx::one(), direction_magnitude)),
    );
    let across = cross_product_vec3(view_direction, world_up);
    let across_magnitude = magnitude_vec3(across);
    if across_magnitude.raw == 0 {
        return Err(MathError::DivisionByZero);
    }
    let x = scale_vec3(across, crate::scalar::fx_div(Fx::one(), across_magnitude));
    let y = cross_product_vec3(z, x);
    let tx = crate::scalar::fx_neg(dot_product_vec3(x, camera_position));
    let ty = crate::scalar::fx_neg(dot_product_vec3(y, camera_position));
    let tz = crate::scalar::fx_neg(dot_product_vec3(z, camera_position));
    let zero = Fx::zero();
    Ok(
        [
            [x[0], y[0], z[0], tx],
            [x[1], y[1], z[1], ty],
            [x[2], y[2], z[2], tz],
            [zero, zero, zero, Fx::one()],
        ],
    )
}

/// A translation by the zero vector is the identity matrix.
pub proof fn lemma_translation_zero_is_identity(v: Vector3)
    requires
        v3(v) == (0int, 0int, 0int),
    ensures
        forall|r: int, c: int|
            0 <= r < 4 && 0 <= c < 4 ==> #[trigger] translation_ent(v, r, c) == identity_ent(r, c),
{
}

/// The zero-angle rotation about any axis is the identity matrix.
pub proof fn lemma_rotation_zero_is_identity(angle: Angle)
    requires
        angle.cos@ == SCALE as int,
        angle.sin@ == 0,
    ensures
        forall|r: int, c: int|
            0 <= r < 4 && 0 <= c < 4 ==> #[trigger] rotation_x_ent(angle, r, c) == identity_ent(
                r,
                c,
            ),
        forall|r: int, c: int|
            0 <= r < 4 && 0 <= c < 4 ==> #[trigger] rotation_y_ent(angle, r, c) == identity_ent(
                r,
                c,
            ),
        forall|r: int, c: int|
            0 <= r < 4 && 0 <= c < 4 ==> #[trigger] rotation_z_ent(angle, r, c) == identity_ent(
                r,
                c,
            ),
{
}

/// With a focal length of one (a field of view of a right angle) and an
/// aspect ratio of one, the perspective matrix equals the frustum built
/// from the equivalent symmetric bounds: half-width and half-height equal
/// to the near distance.
pub proof fn lemma_perspective_frustum_agree(near: int, far: int)
    requires
        0 < near,
        2 * near <= MAX_RAW as int,
    ensures
        forall|r: int, c: int|
            0 <= r < 4 && 0 <= c < 4 ==> #[trigger] perspective_ent(
                near,
                far,
                SCALE as int,
                SCALE as int,
                r,
                c,
            ) == frustum_ent(-near, near, -near, near, near, far, r, c),
{
    lemma_tdiv_exact(SCALE as int, SCALE as int);
    assert(2 * (SCALE as int) * near == 2 * near * (SCALE as int)) by (nonlinear_arith);
    lemma_tdiv_exact(2 * near, SCALE as int);
    lemma_tdiv_exact(SCALE as int, 2 * near);
    lemma_mul_is_commutative(2 * near, SCALE as int);
    assert(tdiv(0, 2 * near) == 0);
}

/// At zero pitch and yaw the camera basis is the world basis: seen from
/// the origin, the view matrix is the identity.
pub proof fn lemma_view_zero_angles_is_identity(pitch: Angle, yaw: Angle, p: Vector3)
    requires
        pitch.cos@ == SCALE as int,
        pitch.sin@ == 0,
        yaw.cos@ == SCALE as int,
        yaw.sin@ == 0,
        v3(p) == (0int, 0int, 0int),
    ensures
        forall|r: int, c: int|
            0 <= r < 4 && 0 <= c < 4 ==> #[trigger] view_ent(
                view_angles_x(pitch.cos@, pitch.sin@, yaw.cos@, yaw.sin@),
                view_angles_y(pitch.cos@, pitch.sin@, yaw.cos@, yaw.sin@),
                view_angles_z(pitch.cos@, pitch.sin@, yaw.cos@, yaw.sin@),
                v3(p),
                r,
                c,
            ) == identity_ent(r, c),
{
    lemma_tdiv_exact(SCALE as int, SCALE as int);
    assert(tdiv(0, SCALE as int) == 0);
}

} // verus!
