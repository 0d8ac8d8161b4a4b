use rootfind::errors::MathError;
use rootfind::root_finding::{
    bisection, bounds_check, bounds_decision, bracket_update, derivative, newton_raphson, secant,
    RealOp, BISECTION_ITERATIONS, NEWTON_ITERATIONS, SECANT_ITERATIONS,
};

fn real_ops(op: RealOp<f64>) -> f64 {
    match op {
        RealOp::Add(a, b) => a + b,
        RealOp::Sub(a, b) => a - b,
        RealOp::Mul(a, b) => a * b,
        RealOp::Div(a, b) => a / b,
        RealOp::Neg(a) => -a,
        RealOp::Half(a) => a / 2.0,
        RealOp::Double(a) => a * 2.0,
    }
}

fn positive(v: f64) -> bool {
    v > 0.0
}

fn target(x: f64) -> f64 {
    2.0 * x * x + 3.0 * x - 5.0
}

#[test]
fn bounds_decision_is_exact() {
    assert_eq!(bounds_decision(true), Err(MathError::BoundsError));
    assert_eq!(bounds_decision(false), Ok(()));
}

#[test]
fn bracket_update_replaces_the_matching_endpoint() {
    assert_eq!(bracket_update(1.0, 2.0, 1.5, true), (1.0, 1.5));
    assert_eq!(bracket_update(1.0, 2.0, 1.5, false), (1.5, 2.0));
}

#[test]
fn same_sign_bracket_is_rejected() {
    assert_eq!(
        bounds_check(target, real_ops, positive, 2.0, 3.0),
        Err(MathError::BoundsError)
    );
    assert_eq!(
        bisection(target, real_ops, positive, 2.0, 3.0, BISECTION_ITERATIONS),
        Err(MathError::BoundsError)
    );
    assert_eq!(
        secant(target, real_ops, positive, 2.0, 3.0, 0.0, SECANT_ITERATIONS),
        Err(MathError::BoundsError)
    );
}

#[test]
fn sign_change_bracket_is_accepted() {
    assert_eq!(bounds_check(target, real_ops, positive, -1.0, 2.0), Ok(()));
}

#[test]
fn endpoint_root_is_accepted() {
    // target(1.0) is exactly zero, so the endpoint product is zero: not
    // strictly positive, hence accepted.
    assert_eq!(target(1.0), 0.0);
    assert_eq!(bounds_check(target, real_ops, positive, 1.0, 2.0), Ok(()));
    assert!(bisection(target, real_ops, positive, 1.0, 2.0, BISECTION_ITERATIONS).is_ok());
}

#[test]
fn algorithms_are_idempotent() {
    let first = bisection(target, real_ops, positive, -1.0, 2.0, BISECTION_ITERATIONS);
    let second = bisection(target, real_ops, positive, -1.0, 2.0, BISECTION_ITERATIONS);
    assert_eq!(first, second);
    let first = secant(target, real_ops, positive, -1.0, 2.0, 0.0, SECANT_ITERATIONS);
    let second = secant(target, real_ops, positive, -1.0, 2.0, 0.0, SECANT_ITERATIONS);
    assert_eq!(first, second);
    let first = newton_raphson(target, real_ops, -43.0, 0.0001, NEWTON_ITERATIONS);
    let second = newton_raphson(target, real_ops, -43.0, 0.0001, NEWTON_ITERATIONS);
    assert_eq!(first, second);
}

#[test]
fn bisection_without_iterations_returns_the_half_width() {
    // The working midpoint is (max - min) / 2, not the arithmetic mean.
    assert_eq!(
        bisection(target, real_ops, positive, -1.0, 2.0, 0),
        Ok(1.5)
    );
}

#[test]
fn secant_without_iterations_returns_the_initial_estimate() {
    assert_eq!(
        secant(target, real_ops, positive, -1.0, 2.0, 0.0, 0),
        Ok(0.0)
    );
}

#[test]
fn secant_single_step_interpolates_exactly() {
    // One linear interpolation through (-1, -6) and (2, 9): slope 5,
    // intercept -1, root 0.2.
    assert_eq!(
        secant(target, real_ops, positive, -1.0, 2.0, 0.0, 1),
        Ok(0.2)
    );
}

#[test]
fn newton_without_iterations_returns_the_start_point() {
    assert_eq!(
        newton_raphson(target, real_ops, -43.0, 0.0001, 0),
        Ok(-43.0)
    );
}

#[test]
fn derivative_of_quadratic_is_exact() {
    // The symmetric difference quotient of a quadratic equals the true
    // derivative, here 4 * x + 3.
    let d = derivative(target, real_ops, 1.0, 0.0001).unwrap();
    assert!((d - 7.0).abs() < 0.000001);
    let d = derivative(target, real_ops, -2.5, 0.0001).unwrap();
    assert!((d - (-7.0)).abs() < 0.000001);
}

#[test]
fn derivative_never_fails() {
    assert!(derivative(target, real_ops, 0.0, 0.0).is_ok());
}

#[test]
fn derivative_with_zero_halfstep_propagates_nan() {
    let d = derivative(target, real_ops, 1.0, 0.0).unwrap();
    assert!(d.is_nan());
}

#[test]
fn secant_degenerate_bracket_propagates_nan() {
    // Equal endpoints pass the bounds check when the function value there is
    // zero, and the first interpolation then divides by a zero width.
    let f = |x: f64| x;
    let res = secant(f, real_ops, positive, 0.0, 0.0, 0.0, SECANT_ITERATIONS).unwrap();
    assert!(res.is_nan());
}

#[test]
fn newton_flat_slope_propagates_non_finite() {
    // A constant target has a zero finite-difference slope, so the tangent
    // root divides by zero; the degenerate value is returned, not an error.
    let flat = |_x: f64| 1.0;
    let res = newton_raphson(flat, real_ops, 0.0, 0.0001, NEWTON_ITERATIONS).unwrap();
    assert!(!res.is_finite());
}

#[test]
fn bounds_error_message_text() {
    assert_eq!(
        MathError::BoundsError.message(),
        "Invalid bounds for root-finding."
    );
}
