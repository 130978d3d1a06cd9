//! Motion estimation core for an AV1-style video encoder.
//!
//! Given a block of luma samples from the current frame and a previously
//! reconstructed reference frame, the estimator picks the motion vector that
//! minimizes a rate-distortion cost at sub-pixel precision.  The crate offers
//! the SAD distortion kernel, the MV-rate model, an EPZS-style predictor
//! collector, diamond and exhaustive full-pixel searches, sub-pixel
//! refinement, and half- and quarter-resolution coarse passes.

pub mod types;
pub mod mv;
pub mod plane;
pub mod sad;
pub mod grid;
pub mod state;
pub mod predictors;
pub mod interp;
pub mod cost;
pub mod search;
pub mod estimate;
