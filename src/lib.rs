//! Gradient feature maps for sliding-window detection: a deterministic
//! catalog of candidate patches and an eight-channel, sign-routed integral
//! image over the horizontal and vertical gradients of a grayscale window.
use vstd::prelude::*;

pub mod channels;
pub mod error;
pub mod feature_map;
pub mod feature_pool;
pub mod geometry;
pub mod gradient;
pub mod integral;

verus! {

/// Number of interleaved channels of the integral image; a feature vector
/// holds this many values per cell.
pub const NUM_INT_CHANNEL: usize = 8;

} // verus!
