//! The integer quadratic built from pool and deposit amounts, and its
//! positive root found by Newton-Raphson over arbitrary-precision integers.

use vstd::prelude::*;

use crate::bigint::{
    abs_val, big_add, big_div, big_eq, big_from_u128, big_mul, big_sub, big_val, trunc_div,
};
use crate::error::ZapError;
use crate::COMMISSION_RATE_BPS;

verus! {

/// The maximum number of Newton-Raphson iterations before the last computed
/// value is returned as-is.
pub const MAX_ITERATIONS: u64 = 32;

/// The quadratic's coefficient of `x^2`: the ask-side depth plus the
/// ask-side deposit.
pub open spec fn coef_a(offer_user: int, offer_pool: int, ask_user: int, ask_pool: int) -> int {
    ask_pool + ask_user
}

/// The quadratic's coefficient of `x`, with the commission applied by
/// truncating division.
pub open spec fn coef_b(offer_user: int, offer_pool: int, ask_user: int, ask_pool: int) -> int {
    offer_pool * (ask_pool + ask_user) * 2 - trunc_div(
        ask_pool * (offer_pool + offer_user) * (COMMISSION_RATE_BPS as int),
        10000,
    )
}

/// The quadratic's constant term: its sign reflects which side of the pool
/// the deposit over-supplies.
pub open spec fn coef_c(offer_user: int, offer_pool: int, ask_user: int, ask_pool: int) -> int {
    offer_pool * (offer_pool * ask_user - offer_user * ask_pool)
}

/// `a*x^2 + b*x + c` at `x`.
pub open spec fn quad_at(a: int, b: int, c: int, x: int) -> int {
    a * x * x + b * x + c
}

/// The derivative `2*a*x + b` at `x`.
pub open spec fn quad_deriv_at(a: int, b: int, x: int) -> int {
    2 * a * x + b
}

/// One Newton-Raphson step from `x`, with truncating division.
pub open spec fn newton_step(a: int, b: int, c: int, x: int) -> int {
    x - trunc_div(quad_at(a, b, c, x), quad_deriv_at(a, b, x))
}

/// The value Newton-Raphson reaches from `x` within `fuel` further steps:
/// stops early at a bit-exact fixed point, keeps the last value when fuel
/// runs out, and is `None` when a step's derivative is zero.
pub open spec fn newton_run(a: int, b: int, c: int, x: int, fuel: nat) -> Option<int>
    decreases fuel,
{
    if fuel == 0 {
        Some(x)
    } else if quad_deriv_at(a, b, x) == 0 {
        None
    } else if newton_step(a, b, c, x) == x {
        Some(x)
    } else {
        newton_run(a, b, c, newton_step(a, b, c, x), (fuel - 1) as nat)
    }
}

/// The solver's result: Newton-Raphson from zero with the fixed iteration
/// cap.
pub open spec fn solved_root(a: int, b: int, c: int) -> Option<int> {
    newton_run(a, b, c, 0, MAX_ITERATIONS as nat)
}

/// Newton-Raphson from `x` reaches a bit-exact fixed point within `fuel`
/// steps (rather than running out of fuel or hitting a zero derivative).
pub open spec fn newton_converged(a: int, b: int, c: int, x: int, fuel: nat) -> bool
    decreases fuel,
{
    if fuel == 0 {
        false
    } else if quad_deriv_at(a, b, x) == 0 {
        false
    } else if newton_step(a, b, c, x) == x {
        true
    } else {
        newton_converged(a, b, c, newton_step(a, b, c, x), (fuel - 1) as nat)
    }
}

/// A converged run ends on a value that is its own Newton step.
proof fn lemma_converged_run_fixed_point(a: int, b: int, c: int, x: int, fuel: nat)
    requires
        newton_converged(a, b, c, x, fuel),
    ensures
        newton_run(a, b, c, x, fuel) matches Some(y) && quad_deriv_at(a, b, y) != 0
            && newton_step(a, b, c, y) == y,
    decreases fuel,
{
    if !(quad_deriv_at(a, b, x) != 0 && newton_step(a, b, c, x) == x) {
        lemma_converged_run_fixed_point(a, b, c, newton_step(a, b, c, x), (fuel - 1) as nat);
    }
}

/// What convergence buys: the solver's output leaves the quadratic a
/// residual strictly smaller in magnitude than the derivative there. The
/// bit-exact fixed point of the truncating Newton step is a root of the
/// equation up to that division's rounding tolerance.
pub proof fn lemma_converged_output_near_root(a: int, b: int, c: int)
    requires
        newton_converged(a, b, c, 0, MAX_ITERATIONS as nat),
    ensures
        solved_root(a, b, c) matches Some(x) && abs_val(quad_at(a, b, c, x)) < abs_val(
            quad_deriv_at(a, b, x),
        ),
{
    lemma_converged_run_fixed_point(a, b, c, 0, MAX_ITERATIONS as nat);
    let x = solved_root(a, b, c)->Some_0;
    let f = quad_at(a, b, c, x);
    let d = quad_deriv_at(a, b, x);
    assert(trunc_div(f, d) == 0);
    if abs_val(f) >= abs_val(d) {
        vstd::arithmetic::div_mod::lemma_div_non_zero(abs_val(f), abs_val(d));
        assert(false);
    }
}

/// Idempotence of convergence: when the solver's run from zero reaches a
/// bit-exact fixed point within the iteration cap, re-solving with the
/// solver's own output as the starting value yields that same output.
pub proof fn lemma_solve_idempotent(a: int, b: int, c: int)
    requires
        newton_converged(a, b, c, 0, MAX_ITERATIONS as nat),
    ensures
        solved_root(a, b, c) matches Some(x) && newton_run(a, b, c, x, MAX_ITERATIONS as nat)
            == Some(x),
{
    lemma_converged_run_fixed_point(a, b, c, 0, MAX_ITERATIONS as nat);
}

/// The equation `a*x^2 + b*x + c = 0` relating the optimal swap amount `x`
/// to the pool depths and deposit amounts. Once constructed it is never
/// changed.
pub struct Quadratic {
    /// Coefficient of the quadratic term.
    pub a: num_bigint::BigInt,
    /// Coefficient of the linear term.
    pub b: num_bigint::BigInt,
    /// The constant term.
    pub c: num_bigint::BigInt,
}

impl Quadratic {
    /// Build the quadratic for a swap that offers the asset the deposit
    /// over-supplies: `offer_user`/`ask_user` are the deposited amounts and
    /// `offer_pool`/`ask_pool` the pool depths of the offered and asked
    /// asset.
    pub fn from_asset_amounts(
        offer_user: &num_bigint::BigInt,
        offer_pool: &num_bigint::BigInt,
        ask_user: &num_bigint::BigInt,
        ask_pool: &num_bigint::BigInt,
    ) -> (r: Quadratic)
        ensures
            big_val(r.a) == coef_a(
                big_val(*offer_user),
                big_val(*offer_pool),
                big_val(*ask_user),
                big_val(*ask_pool),
            ),
            big_val(r.b) == coef_b(
                big_val(*offer_user),
                big_val(*offer_pool),
                big_val(*ask_user),
                big_val(*ask_pool),
            ),
            big_val(r.c) == coef_c(
                big_val(*offer_user),
                big_val(*offer_pool),
                big_val(*ask_user),
                big_val(*ask_pool),
            ),
    {
        let a = big_add(ask_pool, ask_user);

        // the first term of b
        let two = big_from_u128(2);
        let b1 = big_mul(&big_mul(offer_pool, &a), &two);
        // the second term of b: the commission share of the offer side
        let rate = big_from_u128(COMMISSION_RATE_BPS as u128);
        let bps = big_from_u128(10000);
        let b2 = big_div(&big_mul(&big_mul(ask_pool, &big_add(offer_pool, offer_user)), &rate), &bps);
        let b = big_sub(&b1, &b2);

        let c = big_mul(
            offer_pool,
            &big_sub(&big_mul(offer_pool, ask_user), &big_mul(offer_user, ask_pool)),
        );

        Quadratic { a, b, c }
    }

    /// `f(x) = a*x^2 + b*x + c`.
    pub fn compute_value(&self, x: &num_bigint::BigInt) -> (r: num_bigint::BigInt)
        ensures
            big_val(r) == quad_at(big_val(self.a), big_val(self.b), big_val(self.c), big_val(*x)),
    {
        big_add(&big_add(&big_mul(&big_mul(&self.a, x), x), &big_mul(&self.b, x)), &self.c)
    }

    /// `f'(x) = 2*a*x + b`.
    pub fn compute_deriv_value(&self, x: &num_bigint::BigInt) -> (r: num_bigint::BigInt)
        ensures
            big_val(r) == quad_deriv_at(big_val(self.a), big_val(self.b), big_val(*x)),
    {
        let two = big_from_u128(2);
        big_add(&big_mul(&big_mul(&two, &self.a), x), &self.b)
    }

    /// Solve `a*x^2 + b*x + c = 0` by Newton-Raphson from `x = 0`, stopping
    /// at a bit-exact fixed point or after [`MAX_ITERATIONS`] steps,
    /// whichever comes first. When the cap is hit the last computed value is
    /// returned rather than an error; a zero derivative is the one failure.
    pub fn solve(&self) -> (r: Result<num_bigint::BigInt, ZapError>)
        ensures
            match r {
                Ok(x) => solved_root(big_val(self.a), big_val(self.b), big_val(self.c)) == Some(
                    big_val(x),
                ),
                Err(e) => {
                    &&& e matches ZapError::DivisionByZero
                    &&& solved_root(big_val(self.a), big_val(self.b), big_val(self.c)) is None
                },
            },
    {
        let ghost av = big_val(self.a);
        let ghost bv = big_val(self.b);
        let ghost cv = big_val(self.c);
        let zero = big_from_u128(0);
        let mut x = big_from_u128(0);
        let mut i: u64 = 0;
        while i < MAX_ITERATIONS
            invariant
                0 <= i <= MAX_ITERATIONS,
                av == big_val(self.a),
                bv == big_val(self.b),
                cv == big_val(self.c),
                big_val(zero) == 0,
                newton_run(av, bv, cv, big_val(x), (MAX_ITERATIONS - i) as nat) == solved_root(
                    av,
                    bv,
                    cv,
                ),
            decreases MAX_ITERATIONS - i,
        {
            let val = self.compute_value(&x);
            let deriv = self.compute_deriv_value(&x);
            if big_eq(&deriv, &zero) {
                return Err(ZapError::DivisionByZero);
            }
            let x_next = big_sub(&x, &big_div(&val, &deriv));
            if big_eq(&x_next, &x) {
                return Ok(x_next);
            }
            x = x_next;
            i += 1;
        }
        Ok(x)
    }
}

} // verus!
