//! A two-dimensional Newtonian gravity kernel: point masses that attract each
//! other, move under semi-implicit Euler integration, merge when they touch,
//! and can be previewed along a speculative trajectory.
//!
//! The kernel is written once for every number type that implements
//! [`sim::scalar::Scalar`]; [`sim::fixed::Fixed`] is the implementation that
//! ships with the library.
pub mod sim;
