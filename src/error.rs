use vstd::prelude::*;

verus! {

/// Failures reported by the feature pool and the feature map.
#[derive(Debug, Clone, Copy, PartialEq, Eq, Structural)]
pub enum FeatureMapError {
    /// An image with zero width or zero height was handed to `compute`.
    InvalidArgument,
    /// A feature id outside the catalog was queried.
    OutOfRange,
}

} // verus!
