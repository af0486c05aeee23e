//! The trajectory simulator: iterates the quadratic recurrence for one seed
//! until the iterate escapes or the length cap is reached, recording every
//! iterate produced.

use vstd::prelude::*;
use crate::complex::{
    escapes, in_sample_rect, orbit, orbit_escapes, step_im, step_re, ComplexFp, STEP_LIM,
};
use crate::fixed::FP_MUL_LIM;

verus! {

/// One simulate-and-classify attempt: a seed (`offset`), the current iterate,
/// and the ordered sequence of iterates produced so far.
pub struct Trajectory {
    pub length: usize,
    pub offset: ComplexFp,
    pub iteration: usize,
    pub current: ComplexFp,
    pub points: Vec<ComplexFp>,
}

impl Trajectory {
    /// Structural well-formedness: the length cap is positive, the iterate
    /// count stays below it, one point was recorded per iteration, and the
    /// seed lies in the sampling rectangle.
    pub open spec fn wf(self) -> bool {
        &&& 1 <= self.length
        &&& self.iteration + 1 <= self.length
        &&& self.points@.len() == self.iteration
        &&& in_sample_rect(self.offset)
    }

    /// The current iterate and every recorded point are exactly the orbit of
    /// the seed: `points[i]` is iterate `i + 1`, `current` is iterate
    /// `iteration`.
    pub open spec fn tracks_orbit(self) -> bool {
        &&& self.current.re == orbit(self.offset.re as int, self.offset.im as int, self.iteration as nat).0
        &&& self.current.im == orbit(self.offset.re as int, self.offset.im as int, self.iteration as nat).1
        &&& forall|i: int|
            0 <= i < self.iteration ==> {
                &&& (#[trigger] self.points@[i]).re == orbit(
                    self.offset.re as int,
                    self.offset.im as int,
                    (i + 1) as nat,
                ).0
                &&& self.points@[i].im == orbit(
                    self.offset.re as int,
                    self.offset.im as int,
                    (i + 1) as nat,
                ).1
            }
    }

    /// The current iterate's components are within the bound every recurrence
    /// step respects.
    pub open spec fn cur_in_range(self) -> bool {
        &&& -STEP_LIM <= self.current.re <= STEP_LIM
        &&& -STEP_LIM <= self.current.im <= STEP_LIM
    }

    /// A fresh trajectory for one seed: no iterations yet, current iterate
    /// zero, room reserved for the cap.
    pub fn new(length: usize, offset: ComplexFp) -> (t: Trajectory)
        requires
            1 <= length,
            in_sample_rect(offset),
        ensures
            t.wf(),
            t.tracks_orbit(),
            t.cur_in_range(),
            t.length == length,
            t.offset == offset,
            t.iteration == 0,
            t.points@.len() == 0,
    {
        Trajectory {
            length,
            offset,
            iteration: 0,
            current: ComplexFp { re: 0, im: 0 },
            points: Vec::with_capacity(length),
        }
    }

    /// Whether the iterate count has reached the cap: no further iterate will
    /// be recorded.
    pub fn is_done(&self) -> (r: bool)
        requires
            self.wf(),
        ensures
            r == (self.length == self.iteration + 1),
    {
        self.length == self.iteration + 1
    }

    /// One step of the recurrence: advance the current iterate and record it.
    /// Does nothing once the cap is reached. Returns whether a further step
    /// is possible.
    pub fn advance(&mut self) -> (more: bool)
        requires
            old(self).wf(),
            old(self).tracks_orbit(),
            old(self).cur_in_range(),
            old(self).length != old(self).iteration + 1 ==> {
                &&& -FP_MUL_LIM <= old(self).current.re <= FP_MUL_LIM
                &&& -FP_MUL_LIM <= old(self).current.im <= FP_MUL_LIM
            },
        ensures
            final(self).wf(),
            final(self).tracks_orbit(),
            final(self).cur_in_range(),
            final(self).length == old(self).length,
            final(self).offset == old(self).offset,
            if old(self).length == old(self).iteration + 1 {
                &&& *final(self) == *old(self)
                &&& more == false
            } else {
                &&& final(self).iteration == old(self).iteration + 1
                &&& final(self).current.re == step_re(
                    old(self).current.re as int,
                    old(self).current.im as int,
                    old(self).offset.re as int,
                )
                &&& final(self).current.im == step_im(
                    old(self).current.re as int,
                    old(self).current.im as int,
                    old(self).offset.im as int,
                )
                &&& final(self).points@ == old(self).points@.push(final(self).current)
                &&& more == (final(self).length != final(self).iteration + 1)
            },
    {
        if self.is_done() {
            return false;
        }
        self.iteration = self.iteration + 1;
        self.current = self.current.square_add(&self.offset);
        self.points.push(self.current);
        proof {
            assert(orbit(
                self.offset.re as int,
                self.offset.im as int,
                self.iteration as nat,
            ) == (self.current.re as int, self.current.im as int));
        }
        !self.is_done()
    }

    /// Run the recurrence until the iterate escapes (squared magnitude above
    /// `bail^2`) or the cap leaves no room for another iterate. Afterwards
    /// the recorded points are exactly iterates `1..=iteration` of the seed's
    /// orbit, none before the last escaped, and the run stopped at the cap or
    /// on an escape. In particular at most `length - 1` points are ever
    /// recorded, so the loop terminates within the length cap.
    pub fn run(&mut self, bail: i64)
        requires
            old(self).wf(),
            old(self).tracks_orbit(),
            old(self).cur_in_range(),
            0 <= bail <= FP_MUL_LIM,
        ensures
            final(self).wf(),
            final(self).tracks_orbit(),
            final(self).cur_in_range(),
            final(self).length == old(self).length,
            final(self).offset == old(self).offset,
            old(self).iteration <= final(self).iteration,
            final(self).points@.len() <= final(self).length - 1,
            final(self).iteration + 1 == final(self).length || escapes(
                final(self).current.re as int,
                final(self).current.im as int,
                bail as int,
            ),
            forall|k: int|
                old(self).iteration <= k < final(self).iteration ==> !#[trigger] orbit_escapes(
                    old(self).offset.re as int,
                    old(self).offset.im as int,
                    k as nat,
                    bail as int,
                ),
    {
        while self.iteration + 1 < self.length && !self.current.norm_exceeds(bail)
            invariant
                self.wf(),
                self.tracks_orbit(),
                self.cur_in_range(),
                self.length == old(self).length,
                self.offset == old(self).offset,
                old(self).iteration <= self.iteration,
                0 <= bail <= FP_MUL_LIM,
                forall|k: int|
                    old(self).iteration <= k < self.iteration ==> !#[trigger] orbit_escapes(
                        self.offset.re as int,
                        self.offset.im as int,
                        k as nat,
                        bail as int,
                    ),
            decreases self.length - self.iteration,
        {
            proof {
                crate::complex::lemma_component_bound(
                    self.current.re as int,
                    self.current.im as int,
                    bail as int,
                );
            }
            let ghost pre = self.iteration;
            self.advance();
            proof {
                let k: int = pre as int;
                assert(!orbit_escapes(
                    self.offset.re as int,
                    self.offset.im as int,
                    k as nat,
                    bail as int,
                ));
            }
        }
    }
}

} // verus!
