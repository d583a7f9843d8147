//! Fixed-point scalars.
//!
//! A scalar is an `i64` raw value standing for `raw / SCALE`, with
//! `SCALE = 2^32`. All operations are total: intermediate results are
//! computed in 128-bit arithmetic, quotients are truncated toward zero, and
//! anything outside the symmetric range `[-MAX_RAW, MAX_RAW]` saturates to
//! the nearer end. Each executable operation states the exact raw value it
//! returns through the spec functions `sat`, `tdiv`, `add_s`, `sub_s`,
//! `neg_s`, `mul_s` and `div_s`.

use vstd::arithmetic::div_mod::{
    lemma_div_is_ordered, lemma_div_multiples_vanish, lemma_div_nonincreasing,
};
use vstd::arithmetic::mul::{lemma_mul_is_commutative, lemma_mul_nonnegative};
use vstd::math::abs;
use vstd::prelude::*;

verus! {

/// The raw value of one: scalars carry 32 fractional bits.
pub const SCALE: i64 = 0x1_0000_0000;

/// The largest raw value; raw values saturate into `[-MAX_RAW, MAX_RAW]`,
/// a range symmetric about zero so that negation is always exact.
pub const MAX_RAW: i64 = i64::MAX;

/// Saturate an unbounded integer into the raw range.
pub open spec fn sat(x: int) -> int {
    if x > MAX_RAW as int {
        MAX_RAW as int
    } else if x < -(MAX_RAW as int) {
        -(MAX_RAW as int)
    } else {
        x
    }
}

/// Division truncated toward zero, the rounding the executable operations use.
pub open spec fn tdiv(p: int, d: int) -> int
    recommends
        d != 0,
{
    if (p < 0) == (d < 0) {
        abs(p) as int / abs(d) as int
    } else {
        -(abs(p) as int / abs(d) as int)
    }
}

/// The raw value `fx_add` returns.
pub open spec fn add_s(a: int, b: int) -> int {
    sat(a + b)
}

/// The raw value `fx_sub` returns.
pub open spec fn sub_s(a: int, b: int) -> int {
    sat(a - b)
}

/// The raw value `fx_neg` returns.
pub open spec fn neg_s(a: int) -> int {
    sat(-a)
}

/// The raw value `fx_mul` returns.
pub open spec fn mul_s(a: int, b: int) -> int {
    sat(tdiv(a * b, SCALE as int))
}

/// The raw value `fx_div` returns.
pub open spec fn div_s(a: int, b: int) -> int
    recommends
        b != 0,
{
    sat(tdiv(a * (SCALE as int), b))
}

/// A fixed-point scalar worth `raw / SCALE`.
#[derive(Clone, Copy, PartialEq, Eq, Structural, Debug)]
pub struct Fx {
    pub raw: i64,
}

impl View for Fx {
    type V = int;

    open spec fn view(&self) -> int {
        self.raw as int
    }
}

impl Fx {
    /// A scalar lies in the saturation range; every constructor and
    /// operation of this module returns such a value.
    pub open spec fn wf(self) -> bool {
        -(MAX_RAW as int) <= self.raw as int
    }

    /// The scalar with the given raw value, pulled into the raw range.
    pub fn from_raw(raw: i64) -> (r: Fx)
        ensures
            r@ == sat(raw as int),
            r.wf(),
    {
        if raw == i64::MIN {
            Fx { raw: -MAX_RAW }
        } else {
            Fx { raw }
        }
    }

    /// The scalar worth the integer `n`, saturated.
    pub fn from_int(n: i64) -> (r: Fx)
        ensures
            r@ == sat(n * SCALE),
            r.wf(),
    {
        proof {
            lemma_i64_product_in_wide_range(n as int, SCALE as int);
        }
        Fx { raw: sat_wide((n as i128) * (SCALE as i128)) }
    }

    /// Zero.
    pub fn zero() -> (r: Fx)
        ensures
            r@ == 0,
            r.wf(),
    {
        Fx { raw: 0 }
    }

    /// One, that is the raw value `SCALE`.
    pub fn one() -> (r: Fx)
        ensures
            r@ == SCALE as int,
            r.wf(),
    {
        Fx { raw: SCALE }
    }
}

/// Saturating fixed-point addition.
pub fn fx_add(a: Fx, b: Fx) -> (r: Fx)
    ensures
        r@ == add_s(a@, b@),
        r.wf(),
{
    Fx { raw: sat_wide(a.raw as i128 + b.raw as i128) }
}

/// Saturating fixed-point subtraction.
pub fn fx_sub(a: Fx, b: Fx) -> (r: Fx)
    ensures
        r@ == sub_s(a@, b@),
        r.wf(),
{
    Fx { raw: sat_wide(a.raw as i128 - b.raw as i128) }
}

/// Fixed-point negation; exact on every well-formed scalar.
pub fn fx_neg(a: Fx) -> (r: Fx)
    ensures
        r@ == neg_s(a@),
        r.wf(),
{
    Fx { raw: sat_wide(-(a.raw as i128)) }
}

/// Fixed-point multiplication: the wide product of the raw values, divided
/// by `SCALE` with truncation toward zero, then saturated.
pub fn fx_mul(a: Fx, b: Fx) -> (r: Fx)
    ensures
        r@ == mul_s(a@, b@),
        r.wf(),
{
    proof {
        lemma_i64_product_in_wide_range(a.raw as int, b.raw as int);
    }
    let p: i128 = (a.raw as i128) * (b.raw as i128);
    let q: i128 = tdiv_wide(p, SCALE as i128);
    Fx { raw: sat_wide(q) }
}

/// Fixed-point division: `a * SCALE` divided by the raw value of `b` with
/// truncation toward zero, then saturated.
pub fn fx_div(a: Fx, b: Fx) -> (r: Fx)
    requires
        b@ != 0,
    ensures
        r@ == div_s(a@, b@),
        r.wf(),
{
    proof {
        lemma_i64_product_in_wide_range(a.raw as int, SCALE as int);
    }
    let p: i128 = (a.raw as i128) * (SCALE as i128);
    let q: i128 = if b.raw >= 1 {
        tdiv_wide(p, b.raw as i128)
    } else {
        proof {
            lemma_tdiv_negated(p as int, b.raw as int);
        }
        tdiv_wide(-p, -(b.raw as i128))
    };
    Fx { raw: sat_wide(q) }
}

/// Saturate a wide intermediate result into the raw range.
pub(crate) fn sat_wide(x: i128) -> (r: i64)
    ensures
        r as int == sat(x as int),
{
    if x > MAX_RAW as i128 {
        MAX_RAW
    } else if x < -(MAX_RAW as i128) {
        -MAX_RAW
    } else {
        x as i64
    }
}

/// One rescaled raw product, kept wide so a caller summing several such
/// terms (a dot product, a matrix entry) can saturate once at the end.
pub(crate) fn mul_term_wide(a: Fx, b: Fx) -> (t: i128)
    ensures
        t as int == tdiv(a@ * b@, SCALE as int),
        -0x4000_0000_0000_0000_0000_0000 <= t as int <= 0x4000_0000_0000_0000_0000_0000,
{
    proof {
        lemma_i64_product_in_wide_range(a@, b@);
        lemma_tdiv_bound(a@ * b@, SCALE as int, 0x4000_0000_0000_0000_0000_0000_0000_0000);
    }
    tdiv_wide((a.raw as i128) * (b.raw as i128), SCALE as i128)
}

/// Truncating division on wide intermediates, through unsigned division.
pub(crate) fn tdiv_wide(p: i128, d: i128) -> (q: i128)
    requires
        d > 0,
        -0x4000_0000_0000_0000_0000_0000_0000_0000 <= p as int
            <= 0x4000_0000_0000_0000_0000_0000_0000_0000,
    ensures
        q == tdiv(p as int, d as int),
{
    if p >= 0 {
        let n: u128 = (p as u128) / (d as u128);
        proof {
            lemma_div_nonincreasing(p as int, d as int);
        }
        n as i128
    } else {
        let n: u128 = ((-p) as u128) / (d as u128);
        proof {
            lemma_div_nonincreasing(-p as int, d as int);
        }
        -(n as i128)
    }
}

/// The product of two `i64` values fits well inside an `i128`.
pub(crate) proof fn lemma_i64_product_in_wide_range(x: int, y: int)
    by (nonlinear_arith)
    requires
        -0x8000_0000_0000_0000 <= x <= 0x7fff_ffff_ffff_ffff,
        -0x8000_0000_0000_0000 <= y <= 0x7fff_ffff_ffff_ffff,
    ensures
        -0x4000_0000_0000_0000_0000_0000_0000_0000 <= x * y
            <= 0x4000_0000_0000_0000_0000_0000_0000_0000,
{
}

/// Negating both operands leaves a truncating quotient unchanged.
proof fn lemma_tdiv_negated(p: int, d: int)
    requires
        d != 0,
    ensures
        tdiv(-p, -d) == tdiv(p, d),
{
    assert(abs(-p) == abs(p));
    assert(abs(-d) == abs(d));
}

/// Negating the dividend negates a truncating quotient.
pub proof fn lemma_tdiv_neg(p: int, d: int)
    requires
        d != 0,
    ensures
        tdiv(-p, d) == -tdiv(p, d),
{
    assert(abs(-p) == abs(p));
}

/// Multiplying by minus one negates exactly: the raw range is symmetric.
pub proof fn lemma_mul_s_neg_one(x: int)
    requires
        -(MAX_RAW as int) <= x <= MAX_RAW as int,
    ensures
        mul_s(x, -(SCALE as int)) == -x,
{
    assert(x * (-(SCALE as int)) == -(x * (SCALE as int))) by (nonlinear_arith);
    lemma_tdiv_neg(x * (SCALE as int), SCALE as int);
    lemma_tdiv_exact(x, SCALE as int);
}

/// Truncating division is exact on multiples of the divisor.
pub proof fn lemma_tdiv_exact(x: int, d: int)
    requires
        d > 0,
    ensures
        tdiv(x * d, d) == x,
{
    lemma_mul_is_commutative(x, d);
    lemma_div_multiples_vanish(x, d);
    if x >= 0 {
        lemma_mul_nonnegative(x, d);
        assert(abs(x * d) == x * d);
        assert(tdiv(x * d, d) == (d * x) / d);
    } else {
        lemma_mul_nonnegative(-x, d);
        assert(x * d == -((-x) * d)) by (nonlinear_arith);
        assert(abs(x * d) == (-x) * d);
        lemma_mul_is_commutative(-x, d);
        lemma_div_multiples_vanish(-x, d);
        assert(abs(x * d) as int / abs(d) as int == -x);
    }
}

/// A truncating quotient is no larger in magnitude than the magnitude of
/// the dividend divided by the divisor.
proof fn lemma_tdiv_bound(p: int, d: int, bound: int)
    requires
        d > 0,
        abs(p) <= bound,
    ensures
        -(bound / d) <= tdiv(p, d) <= bound / d,
{
    lemma_div_is_ordered(abs(p) as int, bound, d);
    assert(abs(p) as int / d >= 0);
}

/// The floor of the square root, as a recurrence over the radicand.
pub open spec fn sqrt_floor(n: nat) -> nat
    decreases n,
{
    if n == 0 {
        0
    } else {
        let r = sqrt_floor((n - 1) as nat);
        if (r + 1) * (r + 1) <= n {
            r + 1
        } else {
            r
        }
    }
}

/// `sqrt_floor(n)` is the unique value whose square is at most `n` while
/// the next square is beyond `n`.
pub proof fn lemma_sqrt_floor(n: nat)
    ensures
        sqrt_floor(n) * sqrt_floor(n) <= n,
        n < (sqrt_floor(n) + 1) * (sqrt_floor(n) + 1),
    decreases n,
{
    if n > 0 {
        let prev = sqrt_floor((n - 1) as nat);
        lemma_sqrt_floor((n - 1) as nat);
        let s = sqrt_floor(n);
        if (prev + 1) * (prev + 1) <= n {
            assert(s == prev + 1);
            assert(s * s <= n) by (nonlinear_arith)
                requires
                    s == prev + 1,
                    (prev + 1) * (prev + 1) <= n,
            ;
            assert(n < (s + 1) * (s + 1)) by (nonlinear_arith)
                requires
                    s == prev + 1,
                    n <= (prev + 1) * (prev + 1),
            ;
        } else {
            assert(s == prev);
            assert(s * s <= n) by (nonlinear_arith)
                requires
                    s == prev,
                    prev * prev <= n - 1,
            ;
            assert(n < (s + 1) * (s + 1)) by (nonlinear_arith)
                requires
                    s == prev,
                    n < (prev + 1) * (prev + 1),
            ;
        }
    } else {
        assert(sqrt_floor(n) == 0);
        assert(n < (sqrt_floor(n) + 1) * (sqrt_floor(n) + 1)) by (nonlinear_arith)
            requires
                n == 0,
                sqrt_floor(n) == 0,
        ;
    }
}

/// Any value with the bracketing property of `sqrt_floor` is `sqrt_floor`.
pub proof fn lemma_sqrt_floor_unique(n: nat, r: nat)
    requires
        r * r <= n,
        n < (r + 1) * (r + 1),
    ensures
        r == sqrt_floor(n),
{
    lemma_sqrt_floor(n);
    let s = sqrt_floor(n);
    if r < s {
        assert((r + 1) * (r + 1) <= s * s) by (nonlinear_arith)
            requires
                r + 1 <= s,
        ;
    }
    if s < r {
        assert((s + 1) * (s + 1) <= r * r) by (nonlinear_arith)
            requires
                s + 1 <= r,
        ;
    }
}

/// Integer square root of a wide unsigned value, by bisection.
pub fn isqrt_u128(n: u128) -> (r: u128)
    ensures
        r * r <= n,
        n < (r + 1) * (r + 1),
        r as nat == sqrt_floor(n as nat),
{
    let mut lo: u128 = 0;
    let mut hi: u128 = 0x1_0000_0000_0000_0000;
    assert(n < 0x1_0000_0000_0000_0000 * 0x1_0000_0000_0000_0000);
    while lo + 1 < hi
        invariant
            lo < hi <= 0x1_0000_0000_0000_0000,
            lo * lo <= n,
            n < hi * hi,
        decreases hi - lo,
    {
        let mid = lo + (hi - lo) / 2;
        assert(mid < hi);
        assert(mid * mid <= 0xffff_ffff_ffff_ffff * 0xffff_ffff_ffff_ffff)
            by (nonlinear_arith)
            requires
                mid <= 0xffff_ffff_ffff_ffff,
        ;
        if mid * mid <= n {
            lo = mid;
        } else {
            hi = mid;
        }
    }
    proof {
        lemma_sqrt_floor_unique(n as nat, lo as nat);
    }
    lo
}

} // verus!
