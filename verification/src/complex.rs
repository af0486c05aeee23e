//! Complex points in fixed-point coordinates, the quadratic recurrence, and
//! the escape test.

use vstd::prelude::*;
use crate::fixed::{fp_mul, lemma_abs_mul_bound, scale_div, FP_MUL_LIM};

verus! {

/// A point of the complex plane; both components are fixed-point raw values
/// (units of `1/65536`).
#[derive(Clone, Copy, PartialEq, Eq, Structural, Debug)]
pub struct ComplexFp {
    pub re: i64,
    pub im: i64,
}

/// Magnitude bound on the components of any point the recurrence produces:
/// one step from a point within `FP_MUL_LIM` stays below this.
pub const STEP_LIM: i64 = 2305843009214000000;

/// The sampling rectangle `[-2.5, 1.0] x [-1.0, 1.0]` in raw units.
pub open spec fn in_sample_rect(c: ComplexFp) -> bool {
    &&& -163840 <= c.re <= 65536
    &&& -65536 <= c.im <= 65536
}

/// Real part of one step of the recurrence `z * z + offset`.
pub open spec fn step_re(cr: int, ci: int, o_re: int) -> int {
    scale_div(cr * cr) - scale_div(ci * ci) + o_re
}

/// Imaginary part of one step of the recurrence `z * z + offset`.
pub open spec fn step_im(cr: int, ci: int, o_im: int) -> int {
    2 * scale_div(cr * ci) + o_im
}

/// The `k`-th iterate of the recurrence started at zero: `orbit(o, 0) = 0`,
/// `orbit(o, k+1) = orbit(o, k)^2 + o`, componentwise in raw units.
pub open spec fn orbit(o_re: int, o_im: int, k: nat) -> (int, int)
    decreases k,
{
    if k == 0 {
        (0int, 0int)
    } else {
        let p = orbit(o_re, o_im, (k - 1) as nat);
        (step_re(p.0, p.1, o_re), step_im(p.0, p.1, o_im))
    }
}

/// Squared magnitude in raw units squared (scale `1/65536^2`).
pub open spec fn norm2(re: int, im: int) -> int {
    re * re + im * im
}

/// The escape test: squared magnitude strictly above the squared escape
/// radius, both at the same scale.
pub open spec fn escapes(re: int, im: int, bail: int) -> bool {
    norm2(re, im) > bail * bail
}

/// Whether the `k`-th iterate of the orbit of `o` escapes.
pub open spec fn orbit_escapes(o_re: int, o_im: int, k: nat, bail: int) -> bool {
    escapes(orbit(o_re, o_im, k).0, orbit(o_re, o_im, k).1, bail)
}

/// The index at which a trajectory stops: the first `k` in `[k0, cap]` whose
/// iterate escapes, or `cap` if none below it does.
pub open spec fn first_stop(o_re: int, o_im: int, bail: int, k0: nat, cap: nat) -> nat
    decreases cap - k0,
{
    if k0 >= cap {
        cap
    } else if orbit_escapes(o_re, o_im, k0, bail) {
        k0
    } else {
        first_stop(o_re, o_im, bail, (k0 + 1) as nat, cap)
    }
}

/// `first_stop` is pinned down by its characteristic facts: no iterate in
/// `[k0, n)` escapes, and `n` is the cap or escapes.
pub proof fn lemma_first_stop_pins(o_re: int, o_im: int, bail: int, k0: nat, cap: nat, n: nat)
    requires
        k0 <= n <= cap,
        forall|j: int| k0 <= j < n ==> !#[trigger] orbit_escapes(o_re, o_im, j as nat, bail),
        n == cap || orbit_escapes(o_re, o_im, n, bail),
    ensures
        first_stop(o_re, o_im, bail, k0, cap) == n,
    decreases n - k0,
{
    if k0 < n {
        let j: int = k0 as int;
        assert(!orbit_escapes(o_re, o_im, j as nat, bail));
        assert(!orbit_escapes(o_re, o_im, k0, bail));
        lemma_first_stop_pins(o_re, o_im, bail, (k0 + 1) as nat, cap, n);
    }
}

/// A point whose squared magnitude is at most `bail^2` has both components
/// within `[-bail, bail]`.
pub proof fn lemma_component_bound(re: int, im: int, bail: int)
    by (nonlinear_arith)
    requires
        norm2(re, im) <= bail * bail,
        0 <= bail,
    ensures
        -bail <= re <= bail,
        -bail <= im <= bail,
{
}

impl ComplexFp {
    /// The escape test, computed exactly: both squared magnitudes are held at
    /// the same scale, so no rounding is involved.
    pub fn norm_exceeds(&self, bail: i64) -> (r: bool)
        requires
            -4611686018427387904 <= self.re <= 4611686018427387904,
            -4611686018427387904 <= self.im <= 4611686018427387904,
            0 <= bail,
        ensures
            r == escapes(self.re as int, self.im as int, bail as int),
    {
        proof {
            lemma_abs_mul_bound(
                self.re as int,
                self.re as int,
                4611686018427387904,
                4611686018427387904,
            );
            lemma_abs_mul_bound(
                self.im as int,
                self.im as int,
                4611686018427387904,
                4611686018427387904,
            );
            lemma_abs_mul_bound(bail as int, bail as int, 9223372036854775807, 9223372036854775807);
        }
        let rr: i128 = (self.re as i128) * (self.re as i128);
        let ii: i128 = (self.im as i128) * (self.im as i128);
        let bb: i128 = (bail as i128) * (bail as i128);
        rr + ii > bb
    }

    /// One step of the recurrence: `self * self + offset`, componentwise in
    /// fixed point.
    pub fn square_add(&self, offset: &ComplexFp) -> (r: ComplexFp)
        requires
            -FP_MUL_LIM <= self.re <= FP_MUL_LIM,
            -FP_MUL_LIM <= self.im <= FP_MUL_LIM,
            in_sample_rect(*offset),
        ensures
            r.re == step_re(self.re as int, self.im as int, offset.re as int),
            r.im == step_im(self.re as int, self.im as int, offset.im as int),
            -STEP_LIM <= r.re <= STEP_LIM,
            -STEP_LIM <= r.im <= STEP_LIM,
    {
        let rr = fp_mul(self.re, self.re);
        let ii = fp_mul(self.im, self.im);
        let cross = fp_mul(self.re, self.im);
        ComplexFp { re: rr - ii + offset.re, im: cross + cross + offset.im }
    }
}

} // verus!
