//! The worker accumulator: applies an escaped trajectory's points (and their
//! conjugate mirrors) to a private histogram buffer.
//!
//! The accept policy matches the simulator's source of points: a point is
//! counted only when both its direct and its mirrored projection are on
//! canvas; otherwise the pair is dropped entirely.

use vstd::prelude::*;
use crate::complex::{escapes, ComplexFp};
use crate::pixel::{pix_bump, Pixel};
use crate::project::{get_pixel, get_pixel_conj, in_canvas, pixel_index_of};
use crate::trajectory::Trajectory;
use crate::fixed::FP_MUL_LIM;

verus! {

/// The buffer with one more count at cell `i`.
pub open spec fn bump_at(buf: Seq<Pixel>, i: int) -> Seq<Pixel>
    recommends
        0 <= i < buf.len(),
{
    buf.update(i, pix_bump(buf[i]))
}

/// The buffer after one trajectory point: if the point and its mirror are
/// both on canvas, both cells gain one count (the same cell twice if they
/// coincide); otherwise the buffer is unchanged.
pub open spec fn accum_point(buf: Seq<Pixel>, re: int, im: int, width: int, height: int) -> Seq<
    Pixel,
> {
    if in_canvas(re, im) && in_canvas(re, -im) {
        bump_at(
            bump_at(buf, pixel_index_of(re, im, width, height)),
            pixel_index_of(re, -im, width, height),
        )
    } else {
        buf
    }
}

/// The buffer after a whole sequence of trajectory points, applied in order.
pub open spec fn accum_points(
    buf: Seq<Pixel>,
    pts: Seq<(int, int)>,
    width: int,
    height: int,
) -> Seq<Pixel>
    decreases pts.len(),
{
    if pts.len() == 0 {
        buf
    } else {
        accum_point(
            accum_points(buf, pts.drop_last(), width, height),
            pts.last().0,
            pts.last().1,
            width,
            height,
        )
    }
}

/// The coordinates of a sequence of points, as mathematical integers.
pub open spec fn coords(pts: Seq<ComplexFp>) -> Seq<(int, int)> {
    pts.map_values(|p: ComplexFp| (p.re as int, p.im as int))
}

/// One more count at cell `i`.
fn bump_cell(buffer: &mut Vec<Pixel>, i: usize)
    requires
        i < old(buffer).len(),
    ensures
        final(buffer)@ == bump_at(old(buffer)@, i as int),
{
    let cell = buffer[i];
    buffer[i] = cell.bump();
}

/// Project every point of an escaped trajectory (and its mirror) and count
/// the pairs whose two projections are both on canvas.
pub fn accumulate_trajectory(
    buffer: &mut Vec<Pixel>,
    points: &Vec<ComplexFp>,
    width: usize,
    height: usize,
)
    requires
        1 <= width <= 46340,
        1 <= height <= 46340,
        old(buffer).len() == width * height,
    ensures
        final(buffer)@ == accum_points(
            old(buffer)@,
            coords(points@),
            width as int,
            height as int,
        ),
        final(buffer).len() == old(buffer).len(),
{
    let ghost base = buffer@;
    let ghost cs = coords(points@);
    let mut i: usize = 0;
    while i < points.len()
        invariant
            i <= points.len(),
            cs == coords(points@),
            cs.len() == points@.len(),
            1 <= width <= 46340,
            1 <= height <= 46340,
            buffer@.len() == width * height,
            buffer@ == accum_points(base, cs.subrange(0, i as int), width as int, height as int),
        decreases points.len() - i,
    {
        let p = points[i];
        let direct = get_pixel(&p, width, height);
        let mirror = get_pixel_conj(&p, width, height);
        let ghost before = buffer@;
        match (direct, mirror) {
            (Some(di), Some(mi)) => {
                bump_cell(buffer, di);
                bump_cell(buffer, mi);
            },
            _ => {},
        }
        proof {
            assert(buffer@ == accum_point(before, cs[i as int].0, cs[i as int].1, width as int, height as int));
            assert(cs.subrange(0, i + 1).drop_last() =~= cs.subrange(0, i as int));
            assert(cs.subrange(0, i + 1).last() == cs[i as int]);
        }
        i = i + 1;
    }
    proof {
        assert(cs.subrange(0, points@.len() as int) =~= cs);
    }
}

/// Classify-then-accumulate for one finished trajectory: only an escaped
/// trajectory contributes; the points of a bounded one (final squared
/// magnitude at most `bail^2`) never reach the buffer, which is left exactly
/// as it was.
pub fn apply_trajectory(
    buffer: &mut Vec<Pixel>,
    traj: &Trajectory,
    bail: i64,
    width: usize,
    height: usize,
)
    requires
        1 <= width <= 46340,
        1 <= height <= 46340,
        old(buffer).len() == width * height,
        0 <= bail <= FP_MUL_LIM,
        traj.cur_in_range(),
    ensures
        final(buffer).len() == old(buffer).len(),
        escapes(traj.current.re as int, traj.current.im as int, bail as int)
            ==> final(buffer)@ == accum_points(
            old(buffer)@,
            coords(traj.points@),
            width as int,
            height as int,
        ),
        !escapes(traj.current.re as int, traj.current.im as int, bail as int)
            ==> final(buffer)@ == old(buffer)@,
{
    if traj.current.norm_exceeds(bail) {
        accumulate_trajectory(buffer, &traj.points, width, height);
    }
}

} // verus!
