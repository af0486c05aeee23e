//! Seed sampling and the worker loop: draws random seed points from the
//! sampling rectangle, runs the simulator, and accumulates escaped
//! trajectories into a private histogram buffer.

use vstd::prelude::*;
use crate::accumulate::{accum_points, apply_trajectory, coords};
use crate::complex::{first_stop, lemma_first_stop_pins, orbit, orbit_escapes, ComplexFp, in_sample_rect};
use crate::config::RenderConfig;
use crate::pixel::Pixel;
use crate::trajectory::Trajectory;

verus! {

#[verifier::external_type_specification]
#[verifier::external_body]
pub struct ExStdRng(rand::rngs::StdRng);

/// Relies on rand's `SeedableRng::seed_from_u64`: builds a generator whose
/// stream is a fixed function of the seed, so equal seeds replay equal
/// streams within one build of the crate.
#[verifier::external_body]
fn seed_rng(seed: u64) -> rand::rngs::StdRng {
    <rand::rngs::StdRng as rand::SeedableRng>::seed_from_u64(seed)
}

/// Relies on rand's `RngExt::random_range` over `lo..hi`: returns a value of
/// the half-open range, and panics only on an empty range, which the
/// precondition rules out.
#[verifier::external_body]
fn rand_in_range(rng: &mut rand::rngs::StdRng, lo: i64, hi: i64) -> (r: i64)
    requires
        lo < hi,
    ensures
        lo <= r < hi,
{
    rand::RngExt::random_range(rng, lo..hi)
}

/// A worker's private source of seed points: a deterministic generator owned
/// by exactly one worker.
pub struct SampleSource {
    rng: rand::rngs::StdRng,
}

impl SampleSource {
    /// A source whose stream is a fixed function of `seed`.
    pub fn new(seed: u64) -> SampleSource {
        SampleSource { rng: seed_rng(seed) }
    }

    /// Draw one seed point from the sampling rectangle
    /// `[-2.5, 1.0) x [-1.0, 1.0)`.
    pub fn next_offset(&mut self) -> (c: ComplexFp)
        ensures
            -163840 <= c.re < 65536,
            -65536 <= c.im < 65536,
            in_sample_rect(c),
    {
        let re = rand_in_range(&mut self.rng, -163840, 65536);
        let im = rand_in_range(&mut self.rng, -65536, 65536);
        ComplexFp { re, im }
    }
}

/// The index at which the trajectory of seed `o` stops under cap `length`:
/// the first iterate that escapes, or `length - 1` if none below the cap
/// does.
pub open spec fn traj_stop(o_re: int, o_im: int, bail: int, length: int) -> nat
    recommends
        length >= 1,
{
    first_stop(o_re, o_im, bail, 0, (length - 1) as nat)
}

/// The points an escaping trajectory of seed `o` records: iterates
/// `1..=traj_stop` of the orbit.
pub open spec fn traj_coords(o_re: int, o_im: int, bail: int, length: int) -> Seq<(int, int)> {
    Seq::new(traj_stop(o_re, o_im, bail, length), |i: int| orbit(o_re, o_im, (i + 1) as nat))
}

/// The buffer after one full sample of seed `o`: if the iterate the
/// trajectory stopped at escapes, all recorded points are accumulated,
/// otherwise the buffer is unchanged.
pub open spec fn spec_sample(
    buf: Seq<Pixel>,
    o_re: int,
    o_im: int,
    bail: int,
    length: int,
    width: int,
    height: int,
) -> Seq<Pixel> {
    if orbit_escapes(o_re, o_im, traj_stop(o_re, o_im, bail, length), bail) {
        accum_points(buf, traj_coords(o_re, o_im, bail, length), width, height)
    } else {
        buf
    }
}

/// One sample: draw a seed, simulate its trajectory, and accumulate it if it
/// escaped. Returns the seed that was drawn; the buffer afterwards is exactly
/// `spec_sample` of that seed.
pub fn sample_step(source: &mut SampleSource, buffer: &mut Vec<Pixel>, cfg: &RenderConfig) -> (offset:
    ComplexFp)
    requires
        cfg.wf(),
        old(buffer).len() == cfg.width * cfg.height,
    ensures
        final(buffer).len() == old(buffer).len(),
        in_sample_rect(offset),
        final(buffer)@ == spec_sample(
            old(buffer)@,
            offset.re as int,
            offset.im as int,
            cfg.bail as int,
            cfg.max_length as int,
            cfg.width as int,
            cfg.height as int,
        ),
{
    let offset = source.next_offset();
    let mut traj = Trajectory::new(cfg.max_length, offset);
    traj.run(cfg.bail);
    apply_trajectory(buffer, &traj, cfg.bail, cfg.width, cfg.height);
    proof {
        let o_re = offset.re as int;
        let o_im = offset.im as int;
        let n = traj.iteration as nat;
        lemma_first_stop_pins(o_re, o_im, cfg.bail as int, 0, (cfg.max_length - 1) as nat, n);
        assert(traj_stop(o_re, o_im, cfg.bail as int, cfg.max_length as int) == n);
        assert(coords(traj.points@) =~= traj_coords(
            o_re,
            o_im,
            cfg.bail as int,
            cfg.max_length as int,
        ));
        assert((traj.current.re as int, traj.current.im as int) == orbit(o_re, o_im, n));
    }
    offset
}

/// A zero-initialized histogram buffer of `n` pixels.
pub fn zero_buffer(n: usize) -> (buffer: Vec<Pixel>)
    ensures
        buffer@.len() == n,
        forall|i: int| 0 <= i < n ==> buffer@[i] == (Pixel { r: 0, g: 0, b: 0 }),
{
    let mut buffer: Vec<Pixel> = Vec::new();
    let mut i: usize = 0;
    while i < n
        invariant
            i <= n,
            buffer@.len() == i,
            forall|k: int| 0 <= k < i ==> buffer@[k] == (Pixel { r: 0, g: 0, b: 0 }),
        decreases n - i,
    {
        buffer.push(Pixel { r: 0, g: 0, b: 0 });
        i = i + 1;
    }
    buffer
}

/// The buffer after a whole sequence of samples, applied in order.
pub open spec fn spec_samples(
    buf: Seq<Pixel>,
    offs: Seq<(int, int)>,
    bail: int,
    length: int,
    width: int,
    height: int,
) -> Seq<Pixel>
    decreases offs.len(),
{
    if offs.len() == 0 {
        buf
    } else {
        spec_sample(
            spec_samples(buf, offs.drop_last(), bail, length, width, height),
            offs.last().0,
            offs.last().1,
            bail,
            length,
            width,
            height,
        )
    }
}

/// A count-boxed worker: starting from a zero buffer, run `samples` samples
/// against a private buffer and return it. The result is the accumulation of
/// some sequence of `samples` seeds from the sampling rectangle — which
/// seeds is up to the generator, everything after them is pinned.
pub fn buddhabrot(cfg: &RenderConfig, samples: u64, source: &mut SampleSource) -> (buffer: Vec<
    Pixel,
>)
    requires
        cfg.wf(),
    ensures
        buffer@.len() == cfg.width * cfg.height,
        exists|offs: Seq<(int, int)>|
            {
                &&& offs.len() == samples
                &&& (forall|j: int|
                    0 <= j < offs.len() ==> -163840 <= (#[trigger] offs[j]).0 <= 65536 && -65536
                        <= offs[j].1 <= 65536)
                &&& buffer@ == spec_samples(
                    zero_buf_spec((cfg.width * cfg.height) as int),
                    offs,
                    cfg.bail as int,
                    cfg.max_length as int,
                    cfg.width as int,
                    cfg.height as int,
                )
            },
{
    let mut buffer = zero_buffer(cfg.pixel_count());
    proof {
        assert(buffer@ =~= zero_buf_spec((cfg.width * cfg.height) as int));
    }
    let ghost mut offs: Seq<(int, int)> = Seq::empty();
    let mut done: u64 = 0;
    while done < samples
        invariant
            done <= samples,
            cfg.wf(),
            buffer@.len() == cfg.width * cfg.height,
            offs.len() == done,
            forall|j: int|
                0 <= j < offs.len() ==> -163840 <= (#[trigger] offs[j]).0 <= 65536 && -65536
                    <= offs[j].1 <= 65536,
            buffer@ == spec_samples(
                zero_buf_spec((cfg.width * cfg.height) as int),
                offs,
                cfg.bail as int,
                cfg.max_length as int,
                cfg.width as int,
                cfg.height as int,
            ),
        decreases samples - done,
    {
        let offset = sample_step(source, &mut buffer, cfg);
        proof {
            let prev = offs;
            offs = offs.push((offset.re as int, offset.im as int));
            assert(offs.drop_last() =~= prev);
            assert(offs.last() == (offset.re as int, offset.im as int));
        }
        done = done + 1;
    }
    proof {
        assert(offs.len() == samples && buffer@ == spec_samples(
            zero_buf_spec((cfg.width * cfg.height) as int),
            offs,
            cfg.bail as int,
            cfg.max_length as int,
            cfg.width as int,
            cfg.height as int,
        ));
    }
    buffer
}

/// A zero buffer of `n` pixels, as a sequence.
pub open spec fn zero_buf_spec(n: int) -> Seq<Pixel> {
    Seq::new(n as nat, |i: int| Pixel { r: 0, g: 0, b: 0 })
}

/// The lifecycle of one worker: trajectories are generated only while
/// `Running`; a stop signal is observed between samples and leads through
/// `StopRequested` and `Finalizing` (where the buffer is handed over exactly
/// once) to `Done`, which is never left again.
#[derive(Clone, Copy, PartialEq, Eq, Structural, Debug)]
pub enum WorkerPhase {
    Idle,
    Running,
    StopRequested,
    Finalizing,
    Done,
}

/// What the scheduler's loop does next on behalf of a worker.
#[derive(Clone, Copy, PartialEq, Eq, Structural, Debug)]
pub enum WorkerAction {
    /// Set up the private generator and buffer.
    Start,
    /// Run one sample against the private buffer.
    Sample,
    /// Hand the private buffer to the reducer, exactly once.
    SendBuffer,
    /// Nothing left to do.
    Rest,
}

/// The worker's transition table.
pub open spec fn worker_next_spec(phase: WorkerPhase, stop_seen: bool) -> (WorkerPhase,
    WorkerAction,
) {
    match phase {
        WorkerPhase::Idle => (WorkerPhase::Running, WorkerAction::Start),
        WorkerPhase::Running => if stop_seen {
            (WorkerPhase::StopRequested, WorkerAction::Rest)
        } else {
            (WorkerPhase::Running, WorkerAction::Sample)
        },
        WorkerPhase::StopRequested => (WorkerPhase::Finalizing, WorkerAction::SendBuffer),
        WorkerPhase::Finalizing => (WorkerPhase::Done, WorkerAction::Rest),
        WorkerPhase::Done => (WorkerPhase::Done, WorkerAction::Rest),
    }
}

/// One step of the worker lifecycle: only `Running` generates trajectories,
/// the stop signal moves the worker toward `Finalizing`, the buffer is sent
/// exactly on the `Finalizing` transition, and no worker leaves `Done`.
pub fn worker_next(phase: WorkerPhase, stop_seen: bool) -> (r: (WorkerPhase, WorkerAction))
    ensures
        r == worker_next_spec(phase, stop_seen),
        r.1 == WorkerAction::Sample <==> (phase == WorkerPhase::Running && !stop_seen),
        r.1 == WorkerAction::SendBuffer <==> phase == WorkerPhase::StopRequested,
        phase == WorkerPhase::Done ==> r.0 == WorkerPhase::Done,
{
    match phase {
        WorkerPhase::Idle => (WorkerPhase::Running, WorkerAction::Start),
        WorkerPhase::Running => if stop_seen {
            (WorkerPhase::StopRequested, WorkerAction::Rest)
        } else {
            (WorkerPhase::Running, WorkerAction::Sample)
        },
        WorkerPhase::StopRequested => (WorkerPhase::Finalizing, WorkerAction::SendBuffer),
        WorkerPhase::Finalizing => (WorkerPhase::Done, WorkerAction::Rest),
        WorkerPhase::Done => (WorkerPhase::Done, WorkerAction::Rest),
    }
}

} // verus!
