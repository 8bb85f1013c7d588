//! Failure kinds of interpolant construction and evaluation.

use vstd::prelude::*;

verus! {

/// Why a construction or evaluation call failed.
///
/// Every failure is reported to the caller; no path panics and no partial
/// interpolant is ever observable.
#[derive(Clone, Copy, Debug, PartialEq, Eq, Structural)]
pub enum Error {
    /// Centers or values of inconsistent dimension, a center count that
    /// differs from the value count, an empty center set, or a point whose
    /// dimension differs from the interpolant's.
    DimensionMismatch,
    /// A polynomial order outside `{0, 1, 2}`.
    UnsupportedOrder,
    /// A non-positive shape parameter for the Gaussian, multiquadric or
    /// inverse multiquadric basis.
    InvalidBasisParameter,
    /// The augmented system matrix is not invertible (duplicate centers or
    /// another degenerate configuration).
    SingularSystem,
    /// Evaluation against a shared slot before any successful construction.
    NotInitialized,
}

} // verus!
