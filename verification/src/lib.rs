//! A Buddhabrot renderer: random seed points are iterated under the quadratic
//! recurrence, the trajectories of escaping points are projected onto a pixel
//! grid (together with their conjugate mirrors), and per-worker histograms are
//! reduced and normalized into an 8-bit image buffer.
//!
//! Coordinates are fixed-point: `i64` counts of `1/65536`.

pub mod fixed;
pub mod config;
pub mod complex;
pub mod trajectory;
pub mod project;
pub mod pixel;
pub mod accumulate;
pub mod reduce;
pub mod sampling;
