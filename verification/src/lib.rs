//! Scalar root-finding routines for continuous real-valued functions of one
//! variable: bracket validation by sign change, bisection, the secant
//! method, Newton-Raphson iteration, and a finite-difference derivative
//! helper. The routines are generic over the scalar type: the caller
//! supplies the target function, the primitive arithmetic and the
//! positivity test as closures, and every contract states the result in
//! terms of what those closures can return.

pub mod errors;
pub mod root_finding;
