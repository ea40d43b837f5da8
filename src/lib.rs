//! Real roots of a quadratic equation `a*x^2 + b*x + c = 0`.
//!
//! Coefficients and the discriminant travel through the library as the bit
//! patterns of IEEE-754 binary64 values (`f64::to_bits`), so that every rule
//! that decides the outcome of a solve is stated and proved over integers.
//! The floating-point arithmetic itself is left to the caller.
pub mod binary64;
pub mod solver;

pub use binary64::{
    at_least_epsilon, below_epsilon, is_infinite, is_nan, EPSILON_BITS, INFINITY_BITS,
};
pub use solver::{real_roots, validate, QuadraticEquatationError, RealRoots};
