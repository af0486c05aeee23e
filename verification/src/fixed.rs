//! Fixed-point arithmetic on the complex plane's coordinates.
//!
//! A coordinate is an `i64` counting units of `1/65536`, so the sampling
//! rectangle `[-2.5, 1.0] x [-1.0, 1.0]` becomes `[-163840, 65536] x
//! [-65536, 65536]` in raw units.

use vstd::prelude::*;
use vstd::arithmetic::div_mod::lemma_div_is_ordered;

verus! {

/// Number of raw units in one: coordinates count units of `1/FP_ONE`.
pub const FP_ONE: i64 = 65536;

/// Largest magnitude accepted by `fp_mul` (2^38 raw units): the product of two
/// such values, rescaled, still fits an `i64` with room to spare.
pub const FP_MUL_LIM: i64 = 274877906944;

/// Rescaling after a product: division by the scale, rounded toward zero.
pub open spec fn scale_div(x: int) -> int {
    if x >= 0 {
        x / (FP_ONE as int)
    } else {
        -((-x) / (FP_ONE as int))
    }
}

/// The product of two values bounded in magnitude is bounded by the product
/// of the bounds.
pub proof fn lemma_abs_mul_bound(x: int, y: int, m: int, n: int)
    by (nonlinear_arith)
    requires
        -m <= x <= m,
        -n <= y <= n,
    ensures
        -(m * n) <= x * y <= m * n,
{
}

/// Fixed-point multiplication: the mathematical product of the two raw
/// values, rescaled by `FP_ONE` rounding toward zero.
pub fn fp_mul(a: i64, b: i64) -> (r: i64)
    requires
        -FP_MUL_LIM <= a <= FP_MUL_LIM,
        -FP_MUL_LIM <= b <= FP_MUL_LIM,
    ensures
        r == scale_div(a * b),
        -1152921504606846976 <= r <= 1152921504606846976,
{
    proof {
        lemma_abs_mul_bound(a as int, b as int, FP_MUL_LIM as int, FP_MUL_LIM as int);
    }
    let p: i128 = (a as i128) * (b as i128);
    if p >= 0 {
        let q: u128 = (p as u128) / (FP_ONE as u128);
        proof {
            lemma_div_is_ordered(p as int, 75557863725914323419136, 65536);
        }
        q as i64
    } else {
        let n: i128 = -p;
        let q: u128 = (n as u128) / (FP_ONE as u128);
        proof {
            lemma_div_is_ordered(n as int, 75557863725914323419136, 65536);
        }
        -(q as i64)
    }
}

} // verus!
