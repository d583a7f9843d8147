//! A small 3D math library for first-person rendering: 3-component vectors,
//! 4x4 affine and projection matrices, and matrix composition.
//!
//! Scalars are binary fixed-point numbers (see [`scalar::Fx`]): an `i64` raw
//! value standing for `raw / SCALE`, with `SCALE = 2^32`. Every operation
//! states exactly which raw value it produces, so the algebraic facts the
//! renderer relies on (identity matrices, rotation inverses, sign
//! conventions) are proved rather than sampled.
//!
//! Matrices are indexed `[row][column]`. `multiply_mat4(a, b)` composes `a`
//! then `b` for row vectors: entry `[r][c]` of the product is the sum over
//! `k` of `a[k][c] * b[r][k]`, so a chain built by `multiply_mat4_n` applies
//! its matrices left to right.

use vstd::prelude::*;

pub mod compose;
pub mod matrix;
pub mod scalar;
pub mod vector;

verus! {

/// A domain error: the requested value is not defined for these inputs.
///
/// Pure math has no transient failures; the caller decides how to react.
#[derive(Clone, Copy, PartialEq, Eq, Structural, Debug)]
pub enum MathError {
    /// A builder's algebra would divide by zero (equal clip planes, a zero
    /// aspect ratio, a direction vector of zero length).
    DivisionByZero,
    /// A matrix product of no matrices at all was requested.
    EmptyProduct,
}

} // verus!
