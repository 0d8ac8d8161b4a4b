use vstd::prelude::*;

use crate::errors::MathError;

verus! {

/// One primitive arithmetic step on the caller's scalar type. The routines
/// below are generic over the scalar: the caller interprets each request with
/// the arithmetic of its own number type, so the algorithms' structure is
/// verified here while the numerics stay under the caller's control.
/// `Half` asks for the argument divided by two, `Double` for the argument
/// multiplied by two.
pub enum RealOp<T> {
    Add(T, T),
    Sub(T, T),
    Mul(T, T),
    Div(T, T),
    Neg(T),
    Half(T),
    Double(T),
}

/// How many iterations the bisection routine runs in the reference driver.
pub const BISECTION_ITERATIONS: u64 = 49;

/// How many iterations the secant routine runs in the reference driver.
pub const SECANT_ITERATIONS: u64 = 24;

/// How many iterations the Newton-Raphson routine runs in the reference driver.
pub const NEWTON_ITERATIONS: u64 = 9;

/// The closure accepts every input value: each of the routines below demands
/// this of the target function and of the arithmetic closures, since it may
/// call them on any intermediate scalar.
pub open spec fn accepts_all_inputs<A, B, F: Fn(A) -> B>(f: F) -> bool {
    forall|x: A| #[trigger] call_requires(f, (x,))
}

/// Some evaluation of `f` at `min` and at `max`, with their product judged by
/// `positive`, can report `same_sign`. This is how the contracts below speak
/// of the endpoint sign test: the closures are the caller's, so only the
/// values they can actually return are constrained.
pub open spec fn sign_test_can_yield<T, F: Fn(T) -> T, O: Fn(RealOp<T>) -> T, P: Fn(T) -> bool>(
    f: F,
    ops: O,
    positive: P,
    min: T,
    max: T,
    same_sign: bool,
) -> bool {
    exists|val_min: T, val_max: T, product: T|
        call_ensures(f, (min,), val_min) && call_ensures(f, (max,), val_max) && #[trigger] call_ensures(
            ops,
            (RealOp::Mul(val_min, val_max),),
            product,
        ) && call_ensures(positive, (product,), same_sign)
}

/// `m` is a model of the closure `f`: every value the closure can return on
/// an input is the one the specification function gives. A closure whose
/// result depends on anything besides its argument has no model; for one
/// that does behave as a function, the contracts below pin the routines'
/// results down exactly.
pub open spec fn models<A, B, F: Fn(A) -> B>(f: F, m: spec_fn(A) -> B) -> bool {
    forall|x: A, y: B| #[trigger] call_ensures(f, (x,), y) ==> y == m(x)
}

/// What the endpoint sign test reports under models of the closures: whether
/// the product of the modelled function values at the endpoints is judged
/// strictly positive.
pub open spec fn sign_test_model<T>(
    fm: spec_fn(T) -> T,
    om: spec_fn(RealOp<T>) -> T,
    pm: spec_fn(T) -> bool,
    min: T,
    max: T,
) -> bool {
    pm(om(RealOp::Mul(fm(min), fm(max))))
}

/// The outcome of the bracket validation, as a function of the one fact it
/// inspects: whether the product of the endpoint values is strictly positive.
pub open spec fn bounds_outcome(same_sign: bool) -> Result<(), MathError> {
    if same_sign {
        Err(MathError::BoundsError)
    } else {
        Ok(())
    }
}

/// Decide whether a bracket is acceptable, given whether the product of the
/// function values at its endpoints came out strictly positive. A strictly
/// positive product means both endpoints lie on the same side of zero, so the
/// intermediate value theorem guarantees nothing and the bracket is rejected;
/// a zero or negative product is accepted.
pub fn bounds_decision(same_sign: bool) -> (r: Result<(), MathError>)
    ensures
        r == bounds_outcome(same_sign),
{
    if same_sign {
        Err(MathError::BoundsError)
    } else {
        Ok(())
    }
}

/// The bracket that results from replacing one endpoint by the candidate:
/// the upper endpoint when the function value at the candidate is positive,
/// the lower endpoint otherwise.
pub open spec fn updated_bracket<T>(min: T, max: T, candidate: T, candidate_positive: bool) -> (
    T,
    T,
) {
    if candidate_positive {
        (min, candidate)
    } else {
        (candidate, max)
    }
}

/// Narrow a bracket around a candidate point, given whether the function
/// value at the candidate came out positive. A positive value means the root
/// lies below the candidate, so the candidate becomes the new upper endpoint;
/// otherwise it becomes the new lower endpoint.
pub fn bracket_update<T>(min: T, max: T, candidate: T, candidate_positive: bool) -> (r: (T, T))
    ensures
        r == updated_bracket(min, max, candidate, candidate_positive),
{
    if candidate_positive {
        (min, candidate)
    } else {
        (candidate, max)
    }
}

/// Validate a bracket: evaluate the target function at both endpoints and
/// reject the bracket exactly when the product of the two values is judged
/// strictly positive. A zero product (an endpoint is itself a root) and a
/// negative product (a sign change) are both accepted.
pub fn bounds_check<T: Copy, F: Fn(T) -> T, O: Fn(RealOp<T>) -> T, P: Fn(T) -> bool>(
    f: F,
    ops: O,
    positive: P,
    min: T,
    max: T,
) -> (r: Result<(), MathError>)
    requires
        accepts_all_inputs(f),
        accepts_all_inputs(ops),
        accepts_all_inputs(positive),
    ensures
        r is Err ==> r == Err::<(), MathError>(MathError::BoundsError) && sign_test_can_yield(
            f,
            ops,
            positive,
            min,
            max,
            true,
        ),
        r is Ok ==> sign_test_can_yield(f, ops, positive, min, max, false),
        forall|fm: spec_fn(T) -> T, om: spec_fn(RealOp<T>) -> T, pm: spec_fn(T) -> bool|
            #![trigger models(f, fm), models(ops, om), models(positive, pm)]
            models(f, fm) && models(ops, om) && models(positive, pm) ==> r == bounds_outcome(
                sign_test_model(fm, om, pm, min, max),
            ),
{
    let val_min = f(min);
    let val_max = f(max);
    let product = ops(RealOp::Mul(val_min, val_max));
    let same_sign = positive(product);
    bounds_decision(same_sign)
}

/// Subtracting some bracket's endpoints and halving the width, both
/// interpreted by `ops`, can produce `v`: the shape of every midpoint the
/// bisection routine works with.
pub open spec fn half_width_can_yield<T, O: Fn(RealOp<T>) -> T>(ops: O, v: T) -> bool {
    exists|lo: T, hi: T, width: T|
        #[trigger] call_ensures(ops, (RealOp::Sub(hi, lo),), width) && call_ensures(
            ops,
            (RealOp::Half(width),),
            v,
        )
}

/// The working midpoint under a model of the arithmetic: the bracket's
/// width, halved.
pub open spec fn half_width_model<T>(om: spec_fn(RealOp<T>) -> T, lo: T, hi: T) -> T {
    om(RealOp::Half(om(RealOp::Sub(hi, lo))))
}

/// The bracket after `n` bisection steps under models of the closures: each
/// step samples the modelled function at the working midpoint and replaces
/// the endpoint on the sample's side of zero.
pub open spec fn bisected_bracket<T>(
    fm: spec_fn(T) -> T,
    om: spec_fn(RealOp<T>) -> T,
    pm: spec_fn(T) -> bool,
    min: T,
    max: T,
    n: nat,
) -> (T, T)
    decreases n,
{
    if n == 0 {
        (min, max)
    } else {
        let prev = bisected_bracket(fm, om, pm, min, max, (n - 1) as nat);
        let mid = half_width_model(om, prev.0, prev.1);
        updated_bracket(prev.0, prev.1, mid, pm(fm(mid)))
    }
}

/// What bisection returns after `n` steps under models of the closures: the
/// working midpoint of the final bracket.
pub open spec fn bisection_model<T>(
    fm: spec_fn(T) -> T,
    om: spec_fn(RealOp<T>) -> T,
    pm: spec_fn(T) -> bool,
    min: T,
    max: T,
    n: nat,
) -> T {
    let fin = bisected_bracket(fm, om, pm, min, max, n);
    half_width_model(om, fin.0, fin.1)
}

/// Bisection: validate the bracket, then narrow it a fixed number of times
/// around the working midpoint, and return the final midpoint. The working
/// midpoint is the half-width `(max - min) / 2`, not the arithmetic mean of
/// the endpoints; the formula is deliberately kept exactly as stated, an
/// unconventional choice the contracts and tests pin down, even for callers
/// it fails to converge for. Rejected brackets produce `BoundsError` before
/// any iteration runs.
#[verifier::loop_isolation(false)]
pub fn bisection<
    T: Copy,
    F: Copy + Fn(T) -> T,
    O: Copy + Fn(RealOp<T>) -> T,
    P: Copy + Fn(T) -> bool,
>(f: F, ops: O, positive: P, min: T, max: T, iterations: u64) -> (r: Result<T, MathError>)
    requires
        accepts_all_inputs(f),
        accepts_all_inputs(ops),
        accepts_all_inputs(positive),
    ensures
        r matches Err(e) ==> e == MathError::BoundsError,
        r is Err ==> sign_test_can_yield(f, ops, positive, min, max, true),
        r is Ok ==> sign_test_can_yield(f, ops, positive, min, max, false),
        r matches Ok(v) ==> half_width_can_yield(ops, v),
        forall|fm: spec_fn(T) -> T, om: spec_fn(RealOp<T>) -> T, pm: spec_fn(T) -> bool|
            #![trigger models(f, fm), models(ops, om), models(positive, pm)]
            models(f, fm) && models(ops, om) && models(positive, pm) ==> {
                &&& (r is Err <==> sign_test_model(fm, om, pm, min, max))
                &&& (r matches Ok(v) ==> v == bisection_model(
                    fm,
                    om,
                    pm,
                    min,
                    max,
                    iterations as nat,
                ))
            },
{
    match bounds_check(f, ops, positive, min, max) {
        Err(e) => {
            return Err(e);
        },
        Ok(()) => {},
    }
    let mut lo = min;
    let mut hi = max;
    let mut midpoint = ops(RealOp::Half(ops(RealOp::Sub(hi, lo))));
    let mut k: u64 = 0;
    while k < iterations
        invariant
            k <= iterations,
            half_width_can_yield(ops, midpoint),
            forall|fm: spec_fn(T) -> T, om: spec_fn(RealOp<T>) -> T, pm: spec_fn(T) -> bool|
                #![trigger models(f, fm), models(ops, om), models(positive, pm)]
                models(f, fm) && models(ops, om) && models(positive, pm) ==> (lo, hi)
                    == bisected_bracket(fm, om, pm, min, max, k as nat) && midpoint
                    == half_width_model(om, lo, hi),
        decreases iterations - k,
    {
        let sample = f(midpoint);
        let sample_positive = positive(sample);
        let narrowed = bracket_update(lo, hi, midpoint, sample_positive);
        lo = narrowed.0;
        hi = narrowed.1;
        midpoint = ops(RealOp::Half(ops(RealOp::Sub(hi, lo))));
        k = k + 1;
    }
    Ok(midpoint)
}

/// Negating the quotient of some intercept and slope, both interpreted by
/// `ops`, can produce `v`: the shape of every estimate the secant and
/// Newton-Raphson routines produce.
pub open spec fn interpolation_can_yield<T, O: Fn(RealOp<T>) -> T>(ops: O, v: T) -> bool {
    exists|intercept: T, slope: T, quotient: T|
        #[trigger] call_ensures(ops, (RealOp::Div(intercept, slope),), quotient) && call_ensures(
            ops,
            (RealOp::Neg(quotient),),
            v,
        )
}

/// The bracket and estimate after `n` secant steps under models of the
/// closures. Each step interpolates the line through the modelled function
/// values at the endpoints, takes `-b / m` as the estimate, and replaces the
/// endpoint on the estimate's side of zero; the estimate starts as
/// `initial_estimate`.
pub open spec fn secant_state<T>(
    fm: spec_fn(T) -> T,
    om: spec_fn(RealOp<T>) -> T,
    pm: spec_fn(T) -> bool,
    min: T,
    max: T,
    initial_estimate: T,
    n: nat,
) -> (T, T, T)
    decreases n,
{
    if n == 0 {
        (min, max, initial_estimate)
    } else {
        let prev = secant_state(fm, om, pm, min, max, initial_estimate, (n - 1) as nat);
        let lo = prev.0;
        let hi = prev.1;
        let slope = om(RealOp::Div(om(RealOp::Sub(fm(hi), fm(lo))), om(RealOp::Sub(hi, lo))));
        let intercept = om(RealOp::Sub(fm(hi), om(RealOp::Mul(slope, hi))));
        let estimate = om(RealOp::Neg(om(RealOp::Div(intercept, slope))));
        let narrowed = updated_bracket(lo, hi, estimate, pm(fm(estimate)));
        (narrowed.0, narrowed.1, estimate)
    }
}

/// What the secant method returns after `n` steps under models of the
/// closures: the last estimate, or the initial one when no step runs.
pub open spec fn secant_model<T>(
    fm: spec_fn(T) -> T,
    om: spec_fn(RealOp<T>) -> T,
    pm: spec_fn(T) -> bool,
    min: T,
    max: T,
    initial_estimate: T,
    n: nat,
) -> T {
    secant_state(fm, om, pm, min, max, initial_estimate, n).2
}

/// Secant method: validate the bracket, then repeatedly interpolate a line
/// through the function values at the endpoints, take the line's root
/// `-b / m` as the new estimate, and replace the endpoint on the same side
/// of zero as the estimate's function value. Returns the final estimate, or
/// `initial_estimate` untouched when no iteration runs. A degenerate bracket
/// with equal endpoints is not guarded against: the caller's arithmetic
/// decides what a division by a zero width yields. Rejected brackets produce
/// `BoundsError` before any iteration runs.
#[verifier::loop_isolation(false)]
pub fn secant<
    T: Copy,
    F: Copy + Fn(T) -> T,
    O: Copy + Fn(RealOp<T>) -> T,
    P: Copy + Fn(T) -> bool,
>(
    f: F,
    ops: O,
    positive: P,
    min: T,
    max: T,
    initial_estimate: T,
    iterations: u64,
) -> (r: Result<T, MathError>)
    requires
        accepts_all_inputs(f),
        accepts_all_inputs(ops),
        accepts_all_inputs(positive),
    ensures
        r matches Err(e) ==> e == MathError::BoundsError,
        r is Err ==> sign_test_can_yield(f, ops, positive, min, max, true),
        r is Ok ==> sign_test_can_yield(f, ops, positive, min, max, false),
        r matches Ok(v) ==> v == initial_estimate || interpolation_can_yield(ops, v),
        iterations == 0 && r is Ok ==> r == Ok::<T, MathError>(initial_estimate),
        forall|fm: spec_fn(T) -> T, om: spec_fn(RealOp<T>) -> T, pm: spec_fn(T) -> bool|
            #![trigger models(f, fm), models(ops, om), models(positive, pm)]
            models(f, fm) && models(ops, om) && models(positive, pm) ==> {
                &&& (r is Err <==> sign_test_model(fm, om, pm, min, max))
                &&& (r matches Ok(v) ==> v == secant_model(
                    fm,
                    om,
                    pm,
                    min,
                    max,
                    initial_estimate,
                    iterations as nat,
                ))
            },
{
    match bounds_check(f, ops, positive, min, max) {
        Err(e) => {
            return Err(e);
        },
        Ok(()) => {},
    }
    let mut lo = min;
    let mut hi = max;
    let mut zero_point = initial_estimate;
    let mut k: u64 = 0;
    while k < iterations
        invariant
            k <= iterations,
            zero_point == initial_estimate || interpolation_can_yield(ops, zero_point),
            k == 0 ==> zero_point == initial_estimate,
            forall|fm: spec_fn(T) -> T, om: spec_fn(RealOp<T>) -> T, pm: spec_fn(T) -> bool|
                #![trigger models(f, fm), models(ops, om), models(positive, pm)]
                models(f, fm) && models(ops, om) && models(positive, pm) ==> (lo, hi, zero_point)
                    == secant_state(fm, om, pm, min, max, initial_estimate, k as nat),
        decreases iterations - k,
    {
        let val_lo = f(lo);
        let val_hi = f(hi);
        let slope = ops(RealOp::Div(ops(RealOp::Sub(val_hi, val_lo)), ops(RealOp::Sub(hi, lo))));
        let intercept = ops(RealOp::Sub(val_hi, ops(RealOp::Mul(slope, hi))));
        zero_point = ops(RealOp::Neg(ops(RealOp::Div(intercept, slope))));
        let sample_positive = positive(f(zero_point));
        let narrowed = bracket_update(lo, hi, zero_point, sample_positive);
        lo = narrowed.0;
        hi = narrowed.1;
        k = k + 1;
    }
    Ok(zero_point)
}

/// The central-difference quotient: shifting `x` by `half_eps` in both
/// directions, sampling `f` at the two shifted points, and dividing the
/// difference of the samples by twice `half_eps`, all interpreted by `ops`,
/// can produce `v`.
pub open spec fn central_difference_can_yield<T, F: Fn(T) -> T, O: Fn(RealOp<T>) -> T>(
    f: F,
    ops: O,
    x: T,
    half_eps: T,
    v: T,
) -> bool {
    exists|above: T, below: T, val_above: T, val_below: T, rise: T, run: T|
        #![trigger call_ensures(ops, (RealOp::Add(x, half_eps),), above), call_ensures(ops, (RealOp::Sub(x, half_eps),), below), call_ensures(ops, (RealOp::Sub(val_above, val_below),), rise), call_ensures(ops, (RealOp::Double(half_eps),), run)]
        call_ensures(ops, (RealOp::Add(x, half_eps),), above) && call_ensures(
            ops,
            (RealOp::Sub(x, half_eps),),
            below,
        ) && call_ensures(f, (above,), val_above) && call_ensures(f, (below,), val_below)
            && call_ensures(ops, (RealOp::Sub(val_above, val_below),), rise) && call_ensures(
            ops,
            (RealOp::Double(half_eps),),
            run,
        ) && call_ensures(ops, (RealOp::Div(rise, run),), v)
}

/// The central-difference quotient under models of the closures: the
/// modelled function values at `x` shifted by `half_eps` in both directions,
/// their difference divided by twice `half_eps`.
pub open spec fn derivative_model<T>(
    fm: spec_fn(T) -> T,
    om: spec_fn(RealOp<T>) -> T,
    x: T,
    half_eps: T,
) -> T {
    om(
        RealOp::Div(
            om(
                RealOp::Sub(
                    fm(om(RealOp::Add(x, half_eps))),
                    fm(om(RealOp::Sub(x, half_eps))),
                ),
            ),
            om(RealOp::Double(half_eps)),
        ),
    )
}

/// Finite-difference derivative: the symmetric difference quotient of `f`
/// around `x` with half-step `half_eps`. It never fails; the error channel
/// exists only so the routine's shape matches the other routines. A zero
/// half-step is not guarded against: the caller's arithmetic decides what
/// the division yields.
pub fn derivative<T: Copy, F: Fn(T) -> T, O: Fn(RealOp<T>) -> T>(
    f: F,
    ops: O,
    x: T,
    half_eps: T,
) -> (r: Result<T, MathError>)
    requires
        accepts_all_inputs(f),
        accepts_all_inputs(ops),
    ensures
        r is Ok,
        r matches Ok(v) ==> central_difference_can_yield(f, ops, x, half_eps, v),
        forall|fm: spec_fn(T) -> T, om: spec_fn(RealOp<T>) -> T|
            #![trigger models(f, fm), models(ops, om)]
            models(f, fm) && models(ops, om) ==> r == Ok::<T, MathError>(
                derivative_model(fm, om, x, half_eps),
            ),
{
    let above = ops(RealOp::Add(x, half_eps));
    let below = ops(RealOp::Sub(x, half_eps));
    let val_above = f(above);
    let val_below = f(below);
    let rise = ops(RealOp::Sub(val_above, val_below));
    let run = ops(RealOp::Double(half_eps));
    Ok(ops(RealOp::Div(rise, run)))
}

/// The estimate after `n` Newton-Raphson steps under models of the
/// closures: each step takes the tangent line with the modelled
/// central-difference slope at the current estimate and moves to the
/// tangent's root `-b / m`.
pub open spec fn newton_raphson_model<T>(
    fm: spec_fn(T) -> T,
    om: spec_fn(RealOp<T>) -> T,
    start_point: T,
    half_eps: T,
    n: nat,
) -> T
    decreases n,
{
    if n == 0 {
        start_point
    } else {
        let prev = newton_raphson_model(fm, om, start_point, half_eps, (n - 1) as nat);
        let slope = derivative_model(fm, om, prev, half_eps);
        let intercept = om(RealOp::Sub(fm(prev), om(RealOp::Mul(slope, prev))));
        om(RealOp::Neg(om(RealOp::Div(intercept, slope))))
    }
}

/// Newton-Raphson: starting from `start_point`, repeatedly estimate the
/// slope with the finite-difference derivative at half-step `half_eps`, form
/// the tangent line's intercept, and move to the tangent's root `-b / m`.
/// No bracket is involved, so no bounds check runs and the routine never
/// fails. A zero or near-zero slope is not guarded against: the caller's
/// arithmetic decides what the division yields, and any degenerate value
/// propagates into later iterations and the result.
#[verifier::loop_isolation(false)]
pub fn newton_raphson<T: Copy, F: Copy + Fn(T) -> T, O: Copy + Fn(RealOp<T>) -> T>(
    f: F,
    ops: O,
    start_point: T,
    half_eps: T,
    iterations: u64,
) -> (r: Result<T, MathError>)
    requires
        accepts_all_inputs(f),
        accepts_all_inputs(ops),
    ensures
        r is Ok,
        r matches Ok(v) ==> v == start_point || interpolation_can_yield(ops, v),
        iterations == 0 ==> r == Ok::<T, MathError>(start_point),
        forall|fm: spec_fn(T) -> T, om: spec_fn(RealOp<T>) -> T|
            #![trigger models(f, fm), models(ops, om)]
            models(f, fm) && models(ops, om) ==> r == Ok::<T, MathError>(
                newton_raphson_model(fm, om, start_point, half_eps, iterations as nat),
            ),
{
    let mut zero_point = start_point;
    let mut k: u64 = 0;
    while k < iterations
        invariant
            k <= iterations,
            zero_point == start_point || interpolation_can_yield(ops, zero_point),
            k == 0 ==> zero_point == start_point,
            forall|fm: spec_fn(T) -> T, om: spec_fn(RealOp<T>) -> T|
                #![trigger models(f, fm), models(ops, om)]
                models(f, fm) && models(ops, om) ==> zero_point == newton_raphson_model(
                    fm,
                    om,
                    start_point,
                    half_eps,
                    k as nat,
                ),
        decreases iterations - k,
    {
        let slope = match derivative(f, ops, zero_point, half_eps) {
            Ok(v) => v,
            Err(e) => {
                return Err(e);
            },
        };
        let intercept = ops(RealOp::Sub(f(zero_point), ops(RealOp::Mul(slope, zero_point))));
        zero_point = ops(RealOp::Neg(ops(RealOp::Div(intercept, slope))));
        k = k + 1;
    }
    Ok(zero_point)
}

/// Law: a bracket is rejected exactly when the sign test reports a strictly
/// positive product of the endpoint function values. In particular every
/// bracket whose endpoint values share a strict sign fails with
/// `BoundsError`, and every bracket with a sign change succeeds.
pub proof fn lemma_bounds_outcome_rejects_iff_same_sign(same_sign: bool)
    ensures
        bounds_outcome(same_sign) is Err <==> same_sign,
        bounds_outcome(same_sign) is Err ==> bounds_outcome(same_sign) == Err::<
            (),
            MathError,
        >(MathError::BoundsError),
{
}

/// Law: a bracket one of whose endpoints is itself an exact root has an
/// endpoint product of zero, which is not strictly positive, so the sign
/// test reports no shared sign and the bracket is accepted.
pub proof fn lemma_endpoint_root_accepted(same_sign: bool)
    requires
        !same_sign,
    ensures
        bounds_outcome(same_sign) == Ok::<(), MathError>(()),
{
}

/// Law: the routines are deterministic. Each step of each routine is a
/// function of the values the caller's closures hand back, and for closures
/// that behave as functions (ones a specification function models) the
/// routines' contracts pin the whole result: it is rejected exactly when the
/// modelled sign test reports a shared sign, carries `BoundsError` when
/// rejected, and equals the modelled iteration otherwise. Two results about
/// which that much is known are equal, so calling a routine twice with
/// identical inputs produces identical output.
pub proof fn lemma_modeled_runs_agree<T>(
    rejected: bool,
    modelled: T,
    first: Result<T, MathError>,
    second: Result<T, MathError>,
)
    requires
        first is Err <==> rejected,
        second is Err <==> rejected,
        first matches Err(e) ==> e == MathError::BoundsError,
        second matches Err(e) ==> e == MathError::BoundsError,
        first matches Ok(v) ==> v == modelled,
        second matches Ok(v) ==> v == modelled,
    ensures
        first == second,
{
}

} // verus!
