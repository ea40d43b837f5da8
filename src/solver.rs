//! The rules of a solve: which coefficients are refused, and how many real
//! roots a discriminant gives.
use crate::binary64::{
    at_least_epsilon, at_least_epsilon_spec, below_epsilon, below_epsilon_spec, is_finite_spec,
    is_infinite, is_infinite_spec, is_nan, is_nan_spec, lemma_exponent_bound,
};
use vstd::prelude::*;

verus! {

/// Why a quadratic equation was refused.
#[derive(Debug, Clone, Copy, PartialEq, Eq, Structural)]
pub enum QuadraticEquatationError {
    /// `|a| < f64::EPSILON`: the equation is not quadratic.
    CoefficientAEqualToZero,
    /// One of the coefficients is infinite.
    CoefficientEqualToInfinity,
    /// One of the coefficients is NaN.
    CoefficientEqualToNan,
}

/// How many real roots the equation has, and which formula gives them.
#[derive(Debug, Clone, Copy, PartialEq, Eq, Structural)]
pub enum RealRoots {
    /// The discriminant is negative beyond epsilon: no real root.
    Absent,
    /// The discriminant is zero within epsilon: the one root `-b / (2a)`.
    Double,
    /// The discriminant is at least epsilon: `(-b + sqrt(D)) / (2a)`, then
    /// `(-b - sqrt(D)) / (2a)`.
    Pair,
}

/// The checks on the coefficients, in their order: infinity first, then
/// NaN, then a leading coefficient that is zero within epsilon.
pub open spec fn validation(a: u64, b: u64, c: u64) -> Result<(), QuadraticEquatationError> {
    if is_infinite_spec(a) || is_infinite_spec(b) || is_infinite_spec(c) {
        Err(QuadraticEquatationError::CoefficientEqualToInfinity)
    } else if is_nan_spec(a) || is_nan_spec(b) || is_nan_spec(c) {
        Err(QuadraticEquatationError::CoefficientEqualToNan)
    } else if below_epsilon_spec(a) {
        Err(QuadraticEquatationError::CoefficientAEqualToZero)
    } else {
        Ok(())
    }
}

/// The real roots that a discriminant `D` gives.
pub open spec fn real_roots_of(discriminant: u64) -> RealRoots {
    if below_epsilon_spec(discriminant) {
        RealRoots::Double
    } else if at_least_epsilon_spec(discriminant) {
        RealRoots::Pair
    } else {
        RealRoots::Absent
    }
}

/// Checks the coefficients `a`, `b`, `c` (as `f64` bits) of `a*x^2 + b*x + c`.
/// `Ok` means that they are all finite and that `|a| >= f64::EPSILON`.
pub fn validate(a: u64, b: u64, c: u64) -> (r: Result<(), QuadraticEquatationError>)
    ensures
        r == validation(a, b, c),
        r is Ok <==> (is_finite_spec(a) && is_finite_spec(b) && is_finite_spec(c)
            && !below_epsilon_spec(a)),
{
    proof {
        lemma_exponent_bound(a);
        lemma_exponent_bound(b);
        lemma_exponent_bound(c);
    }
    if is_infinite(a) || is_infinite(b) || is_infinite(c) {
        return Err(QuadraticEquatationError::CoefficientEqualToInfinity);
    }
    if is_nan(a) || is_nan(b) || is_nan(c) {
        return Err(QuadraticEquatationError::CoefficientEqualToNan);
    }
    if below_epsilon(a) {
        return Err(QuadraticEquatationError::CoefficientAEqualToZero);
    }
    Ok(())
}

/// The real roots that the discriminant `b*b - 4*a*c` (as `f64` bits) gives.
pub fn real_roots(discriminant: u64) -> (r: RealRoots)
    ensures
        r == real_roots_of(discriminant),
        r is Double <==> below_epsilon_spec(discriminant),
        r is Pair <==> at_least_epsilon_spec(discriminant),
{
    if below_epsilon(discriminant) {
        RealRoots::Double
    } else if at_least_epsilon(discriminant) {
        RealRoots::Pair
    } else {
        RealRoots::Absent
    }
}

/// Solving keeps no hidden state: equal coefficients always get the same
/// verdict, and equal discriminants the same real roots, however many times
/// `validate` and `real_roots` are called.
pub proof fn lemma_solve_is_deterministic(
    a1: u64,
    b1: u64,
    c1: u64,
    d1: u64,
    a2: u64,
    b2: u64,
    c2: u64,
    d2: u64,
)
    requires
        a1 == a2,
        b1 == b2,
        c1 == c2,
        d1 == d2,
    ensures
        validation(a1, b1, c1) == validation(a2, b2, c2),
        real_roots_of(d1) == real_roots_of(d2),
{
}

} // verus!
