use buddhabrot::config::{RenderConfig, StopBudget};

const BUDGET: StopBudget = StopBudget::Samples { count: 1000 };

#[test]
fn valid_parameters_build_a_config() {
    let cfg = RenderConfig::try_new(1920, 1080, 10000, 3276800, 16, BUDGET).unwrap();
    assert_eq!(cfg.width, 1920);
    assert_eq!(cfg.height, 1080);
    assert_eq!(cfg.max_length, 10000);
    assert_eq!(cfg.bail, 3276800);
    assert_eq!(cfg.workers, 16);
    assert_eq!(cfg.budget, BUDGET);
}

#[test]
fn out_of_range_parameters_are_rejected() {
    // Zero-sized canvas.
    assert!(RenderConfig::try_new(0, 1080, 10000, 3276800, 16, BUDGET).is_none());
    // A canvas whose pixel count would overflow a 32-bit index.
    assert!(RenderConfig::try_new(46341, 46341, 10000, 3276800, 16, BUDGET).is_none());
    // A zero length cap leaves no room for any iterate.
    assert!(RenderConfig::try_new(1920, 1080, 0, 3276800, 16, BUDGET).is_none());
    // A negative escape radius.
    assert!(RenderConfig::try_new(1920, 1080, 10000, -1, 16, BUDGET).is_none());
    // No workers.
    assert!(RenderConfig::try_new(1920, 1080, 10000, 3276800, 0, BUDGET).is_none());
    // The largest accepted canvas still builds.
    assert!(RenderConfig::try_new(46340, 46340, 1, 0, 1, BUDGET).is_some());
}
