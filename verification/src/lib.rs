//! A battery of statistical randomness tests over byte samples.
//!
//! The verified core holds the deterministic reference generator, the
//! integer statistic kernel of each estimator (bit counts, histograms,
//! window differences, run, gap and prediction counts, correlation sums,
//! point extraction, compressed sizes), and the test-name registry.
//! Every kernel states in its contract exactly which statistic it
//! computes over the sample, and exactly when a sample is too short or
//! too degenerate for its test — the skip decisions of the battery.
//! Floating-point standardization (z-scores and p-values) lives outside
//! the verified library, on top of the exact integer observations proved
//! here.

pub mod bits;
pub mod bytes;
pub mod compress;
pub mod determinism;
pub mod dispatch;
pub mod gaps;
pub mod points;
pub mod runs;
pub mod series;
pub mod well19937c;
