//! Radial basis function (RBF) scattered-data interpolation.
//!
//! The crate fits a smooth multivariate function through a finite set of
//! scattered sample points and evaluates the fitted function at arbitrary
//! coordinates. Construction assembles an augmented linear system from the
//! sample centers, the sample values, a basis-function family and a
//! polynomial order, solves it, and bundles the solved coefficients into an
//! immutable [`scatter::Scatter`] interpolant.

pub mod basis;
pub mod error;
pub mod linalg;
pub mod scalar;
pub mod scatter;
pub mod slot;
