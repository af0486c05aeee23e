//! The render configuration: canvas size, escape radius, trajectory length
//! cap, worker count and stopping budget. Built once, then shared read-only
//! by every worker.

use vstd::prelude::*;

verus! {

/// When the workers stop: after a total number of samples, or after a
/// wall-clock budget (interpreted by the scheduler around the library).
#[derive(Clone, Copy, PartialEq, Eq, Structural, Debug)]
pub enum StopBudget {
    Samples { count: u64 },
    Seconds { secs: u64 },
}

/// Canvas and simulation parameters, read-only after construction.
#[derive(Clone, Copy, PartialEq, Eq, Structural, Debug)]
pub struct RenderConfig {
    pub width: usize,
    pub height: usize,
    pub max_length: usize,
    pub bail: i64,
    pub workers: usize,
    pub budget: StopBudget,
}

/// The bounds under which every arithmetic step of the renderer stays in
/// range: a canvas whose pixel count fits a 32-bit index, a positive length
/// cap, an escape radius whose square fits the fixed-point test, and at
/// least one worker.
pub open spec fn config_wf(cfg: RenderConfig) -> bool {
    &&& 1 <= cfg.width <= 46340
    &&& 1 <= cfg.height <= 46340
    &&& 1 <= cfg.max_length
    &&& 0 <= cfg.bail <= 274877906944
    &&& 1 <= cfg.workers
}

impl RenderConfig {
    /// Well-formedness of this configuration.
    pub open spec fn wf(self) -> bool {
        config_wf(self)
    }

    /// Validate and build a configuration: `Some` exactly when every
    /// parameter is within the renderer's bounds.
    pub fn try_new(
        width: usize,
        height: usize,
        max_length: usize,
        bail: i64,
        workers: usize,
        budget: StopBudget,
    ) -> (cfg: Option<RenderConfig>)
        ensures
            match cfg {
                Some(c) => {
                    &&& c.wf()
                    &&& c.width == width
                    &&& c.height == height
                    &&& c.max_length == max_length
                    &&& c.bail == bail
                    &&& c.workers == workers
                    &&& c.budget == budget
                },
                None => !config_wf(
                    RenderConfig { width, height, max_length, bail, workers, budget },
                ),
            },
    {
        if 1 <= width && width <= 46340 && 1 <= height && height <= 46340 && 1 <= max_length && 0
            <= bail && bail <= 274877906944 && 1 <= workers {
            Some(RenderConfig { width, height, max_length, bail, workers, budget })
        } else {
            None
        }
    }

    /// The number of pixels of the canvas.
    pub fn pixel_count(&self) -> (n: usize)
        requires
            self.wf(),
        ensures
            n == self.width * self.height,
    {
        proof {
            vstd::arithmetic::mul::lemma_mul_upper_bound(
                self.width as int,
                46340,
                self.height as int,
                46340,
            );
        }
        self.width * self.height
    }
}

} // verus!
