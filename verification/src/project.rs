//! The pixel projector: maps a complex point to a flattened pixel index on a
//! canvas covering the rectangle `[-2.5, 1.0] x [-1.0, 1.0]`, or signals that
//! the point is off canvas.
//!
//! A point is on canvas exactly when its column lands in `[0, width)` and its
//! row in `[0, height)`; with the floor formula below that means
//! `re in [-2.5, 1.0)` and `im in [-1.0, 1.0)` — the right edges project onto
//! the pixel after the last and are treated as off canvas.

use vstd::prelude::*;
use vstd::arithmetic::div_mod::{
    lemma_div_is_ordered, lemma_div_pos_is_pos, lemma_fundamental_div_mod,
    lemma_fundamental_div_mod_converse, lemma_mod_bound,
};
use vstd::arithmetic::mul::{lemma_mul_nonnegative, lemma_mul_upper_bound};
use crate::complex::ComplexFp;

verus! {

/// Whether a point (in raw fixed-point units) projects onto the canvas.
pub open spec fn in_canvas(re: int, im: int) -> bool {
    &&& -163840 <= re < 65536
    &&& -65536 <= im < 65536
}

/// Column of a point: `floor(width * (re + 2.5) / 3.5)` in raw units.
pub open spec fn pixel_col(re: int, width: int) -> int {
    (width * (re + 163840)) / 229376
}

/// Row of a point: `floor(height * (im + 1.0) / 2.0)` in raw units.
pub open spec fn pixel_row(im: int, height: int) -> int {
    (height * (im + 65536)) / 131072
}

/// Flattened row-major pixel index of an on-canvas point.
pub open spec fn pixel_index_of(re: int, im: int, width: int, height: int) -> int {
    pixel_col(re, width) + pixel_row(im, height) * width
}

/// A scaled floor division lands inside the grid: for `0 <= t < d` and
/// `1 <= v`, `(v * t) / d` lies in `[0, v)`.
pub proof fn lemma_scaled_div_range(v: int, t: int, d: int)
    requires
        1 <= v,
        0 <= t < d,
    ensures
        0 <= (v * t) / d < v,
{
    lemma_mul_nonnegative(v, t);
    lemma_div_pos_is_pos(v * t, d);
    assert(v * t <= v * d - 1) by (nonlinear_arith)
        requires
            1 <= v,
            0 <= t < d,
    ;
    lemma_div_is_ordered(v * t, v * d - 1, d);
    assert(v * d - 1 == (v - 1) * d + (d - 1)) by (nonlinear_arith);
    lemma_fundamental_div_mod_converse(v * d - 1, d, v - 1, d - 1);
}

/// Projection is a pure function of the point and the canvas dimensions: the
/// result is `Some` exactly on canvas, and then it is the floor-formula index,
/// always within the buffer.
pub fn get_pixel(p: &ComplexFp, width: usize, height: usize) -> (r: Option<usize>)
    requires
        1 <= width <= 46340,
        1 <= height <= 46340,
    ensures
        match r {
            Some(idx) => in_canvas(p.re as int, p.im as int) && idx == pixel_index_of(
                p.re as int,
                p.im as int,
                width as int,
                height as int,
            ) && idx < width * height,
            None => !in_canvas(p.re as int, p.im as int),
        },
{
    if p.re < -163840 || p.re >= 65536 || p.im < -65536 || p.im >= 65536 {
        return None;
    }
    let tx: u64 = (p.re + 163840) as u64;
    let ty: u64 = (p.im + 65536) as u64;
    proof {
        lemma_mul_upper_bound(width as int, 46340, tx as int, 229375);
        lemma_mul_upper_bound(height as int, 46340, ty as int, 131071);
    }
    let col: u64 = (width as u64) * tx / 229376;
    let row: u64 = (height as u64) * ty / 131072;
    proof {
        lemma_scaled_div_range(width as int, tx as int, 229376);
        lemma_scaled_div_range(height as int, ty as int, 131072);
        lemma_grid_index_bound(col as int, row as int, width as int, height as int);
        lemma_mul_upper_bound(row as int, 46339, width as int, 46340);
        lemma_mul_upper_bound(width as int, 46340, height as int, 46340);
    }
    Some((col + row * (width as u64)) as usize)
}

/// A column below `width` and a row below `height` give a flattened index
/// below `width * height`.
pub proof fn lemma_grid_index_bound(col: int, row: int, width: int, height: int)
    by (nonlinear_arith)
    requires
        0 <= col < width,
        0 <= row < height,
    ensures
        0 <= col + row * width < width * height,
{
}

/// Projection of the complex conjugate (the mirror across the real axis):
/// `Some` exactly when the mirrored point is on canvas, and then the
/// floor-formula index of the mirrored point.
pub fn get_pixel_conj(p: &ComplexFp, width: usize, height: usize) -> (r: Option<usize>)
    requires
        1 <= width <= 46340,
        1 <= height <= 46340,
    ensures
        match r {
            Some(idx) => in_canvas(p.re as int, -(p.im as int)) && idx == pixel_index_of(
                p.re as int,
                -(p.im as int),
                width as int,
                height as int,
            ) && idx < width * height,
            None => !in_canvas(p.re as int, -(p.im as int)),
        },
{
    if p.re < -163840 || p.re >= 65536 || p.im <= -65536 || p.im > 65536 {
        return None;
    }
    let tx: u64 = (p.re + 163840) as u64;
    let ty: u64 = (65536 - p.im) as u64;
    proof {
        lemma_mul_upper_bound(width as int, 46340, tx as int, 229375);
        lemma_mul_upper_bound(height as int, 46340, ty as int, 131071);
    }
    let col: u64 = (width as u64) * tx / 229376;
    let row: u64 = (height as u64) * ty / 131072;
    proof {
        lemma_scaled_div_range(width as int, tx as int, 229376);
        lemma_scaled_div_range(height as int, ty as int, 131072);
        lemma_grid_index_bound(col as int, row as int, width as int, height as int);
        lemma_mul_upper_bound(row as int, 46339, width as int, 46340);
        lemma_mul_upper_bound(width as int, 46340, height as int, 46340);
    }
    Some((col + row * (width as u64)) as usize)
}

/// Mirror symmetry of the projection: when a point and its conjugate are both
/// on canvas and the row computation does not land exactly on a pixel
/// boundary, the conjugate projects onto the same column and the vertically
/// mirrored row `height - 1 - row`.
pub proof fn lemma_mirror_symmetry(re: int, im: int, width: int, height: int)
    requires
        1 <= width,
        1 <= height,
        in_canvas(re, im),
        in_canvas(re, -im),
        (height * (im + 65536)) % 131072 != 0,
    ensures
        pixel_row(-im, height) == height - 1 - pixel_row(im, height),
        pixel_index_of(re, -im, width, height) == pixel_col(re, width) + (height - 1 - pixel_row(
            im,
            height,
        )) * width,
{
    let t = height * (im + 65536);
    lemma_fundamental_div_mod(t, 131072);
    lemma_mod_bound(t, 131072);
    let q = t / 131072;
    let r = t % 131072;
    assert(height * (-im + 65536) == (height - q - 1) * 131072 + (131072 - r))
        by (nonlinear_arith)
        requires
            t == 131072 * q + r,
            t == height * (im + 65536),
    ;
    lemma_fundamental_div_mod_converse(
        height * (-im + 65536),
        131072,
        height - q - 1,
        131072 - r,
    );
}

} // verus!
