use buddhabrot::config::{RenderConfig, StopBudget};
use buddhabrot::sampling::{worker_next, WorkerAction, WorkerPhase};
use buddhabrot::pixel::Pixel;
use buddhabrot::reduce::finalize;
use buddhabrot::sampling::{buddhabrot, SampleSource};

// 2.0 as an escape radius, in raw units of 1/65536.
const BAIL_TWO: i64 = 131072;

fn render(seed: u64, samples: u64) -> Vec<Pixel> {
    let cfg = RenderConfig::try_new(
        100,
        100,
        50,
        BAIL_TWO,
        1,
        StopBudget::Samples { count: samples },
    )
    .unwrap();
    let mut source = SampleSource::new(seed);
    buddhabrot(&cfg, samples, &mut source)
}

fn total_counts(buf: &[Pixel]) -> u64 {
    buf.iter().map(|c| c.r as u64 + c.g as u64 + c.b as u64).sum()
}

#[test]
fn fixed_seed_run_is_reproducible_byte_for_byte() {
    // 100x100 canvas, escape radius 2.0, max length 50, one worker, a
    // fixed-seed generator and a 10,000-sample budget: two runs agree on
    // every output byte.
    let first = render(42, 10_000);
    let second = render(42, 10_000);
    assert_eq!(first, second);
    let bytes_first = finalize(&vec![first]);
    let bytes_second = finalize(&vec![second]);
    assert_eq!(bytes_first, bytes_second);
    // The scene produces escapes, so the image is not degenerate.
    assert!(bytes_first.1 > 1);
}

#[test]
fn one_worker_and_four_workers_agree_statistically() {
    // The same total sample budget split over one worker or over four
    // independently seeded workers: the aggregate histograms need not be
    // identical, but their total mass stays within Monte Carlo variance.
    let total_budget: u64 = 20_000;
    let single = render(1, total_budget);
    let single_mass = total_counts(&single);

    let mut parts: Vec<Vec<Pixel>> = Vec::new();
    for seed in [101u64, 202, 303, 404] {
        parts.push(render(seed, total_budget / 4));
    }
    let mut quad_mass: u64 = 0;
    for part in &parts {
        quad_mass += total_counts(part);
    }

    assert!(single_mass > 0);
    assert!(quad_mass > 0);
    // Within a factor of two of each other — generous for 20k samples.
    assert!(quad_mass < 2 * single_mass);
    assert!(single_mass < 2 * quad_mass);
}

#[test]
fn worker_lifecycle_follows_the_state_machine() {
    // Idle starts running; running samples until the stop signal is seen.
    assert_eq!(
        worker_next(WorkerPhase::Idle, false),
        (WorkerPhase::Running, WorkerAction::Start)
    );
    assert_eq!(
        worker_next(WorkerPhase::Running, false),
        (WorkerPhase::Running, WorkerAction::Sample)
    );
    assert_eq!(
        worker_next(WorkerPhase::Running, true),
        (WorkerPhase::StopRequested, WorkerAction::Rest)
    );
    // The buffer is handed over exactly once, then the worker ends.
    assert_eq!(
        worker_next(WorkerPhase::StopRequested, false),
        (WorkerPhase::Finalizing, WorkerAction::SendBuffer)
    );
    assert_eq!(
        worker_next(WorkerPhase::Finalizing, true),
        (WorkerPhase::Done, WorkerAction::Rest)
    );
    // No worker re-enters Running after Done.
    assert_eq!(
        worker_next(WorkerPhase::Done, false),
        (WorkerPhase::Done, WorkerAction::Rest)
    );
}
