//! A derivative-free minimizer for scalar functions of several variables,
//! implementing the Nelder-Mead downhill-simplex method.
//!
//! The crate is generic over the scalar number type: callers supply an
//! implementation of [`scalar::Scalar`] (typically a thin wrapper around a
//! machine float type) together with an [`minimizer::Objective`] to evaluate,
//! and drive the search through [`minimizer::Minimizer::minimize`].

pub mod minimizer;
pub mod scalar;
pub mod simplex;
pub mod vector;

pub use crate::minimizer::MaxIterError;
pub use crate::minimizer::Minimizer;
pub use crate::minimizer::Objective;
pub use crate::minimizer::Output;
