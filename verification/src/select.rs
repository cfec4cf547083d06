//! The optimal-offer selector: decides which pool asset the deposit
//! over-supplies, builds the solver's inputs from pool depths and deposit
//! amounts, and narrows the solved root to an executable offer amount.

use vstd::prelude::*;

use crate::asset::{amount_of, lemma_first_match, AssetAmount, AssetKind, AssetSet};
use crate::bigint::{big_from_u128, big_lt, big_mul, bigint_to_uint128, trunc_div};
use crate::error::ZapError;
use crate::math::{
    coef_a, coef_b, coef_c, newton_run, newton_step, quad_at, quad_deriv_at, solved_root,
    Quadratic, MAX_ITERATIONS,
};
use crate::pool::PoolState;
use crate::COMMISSION_RATE_BPS;

verus! {

/// The first asset's deposit share exceeds the second's:
/// `ua/pa > ub/pb`, compared by cross-multiplication so no precision is
/// lost.
pub open spec fn first_share_larger(ua: int, pa: int, ub: int, pb: int) -> bool {
    ua * pb > ub * pa
}

/// The Newton-Raphson result for the quadratic built with the given role
/// assignment: `ou`/`op` deposit and depth of the offered asset, `au`/`ap`
/// of the asked asset.
pub open spec fn offer_root(ou: int, op: int, au: int, ap: int) -> Option<int> {
    solved_root(coef_a(ou, op, au, ap), coef_b(ou, op, au, ap), coef_c(ou, op, au, ap))
}

/// Whether the selector offers the pool's first asset: it does unless the
/// second asset's share is strictly larger, so an exact tie picks the first.
pub open spec fn offers_asset_a(pool: PoolState, user: Seq<AssetAmount>) -> bool {
    !first_share_larger(
        amount_of(user, pool.asset_b.kind),
        pool.asset_b.amount as int,
        amount_of(user, pool.asset_a.kind),
        pool.asset_a.amount as int,
    )
}

/// The kind the selector offers for swap.
pub open spec fn chosen_offer_kind(pool: PoolState, user: Seq<AssetAmount>) -> AssetKind {
    if offers_asset_a(pool, user) {
        pool.asset_a.kind
    } else {
        pool.asset_b.kind
    }
}

/// The solver's root for the selector's chosen role assignment.
pub open spec fn chosen_offer_root(pool: PoolState, user: Seq<AssetAmount>) -> Option<int> {
    if offers_asset_a(pool, user) {
        offer_root(
            amount_of(user, pool.asset_a.kind),
            pool.asset_a.amount as int,
            amount_of(user, pool.asset_b.kind),
            pool.asset_b.amount as int,
        )
    } else {
        offer_root(
            amount_of(user, pool.asset_b.kind),
            pool.asset_b.amount as int,
            amount_of(user, pool.asset_a.kind),
            pool.asset_a.amount as int,
        )
    }
}

/// Whichever asset the deposit over-supplies relative to the pool's depths
/// is the one the selector offers: when the first asset's share is strictly
/// larger, the first asset is chosen, and symmetrically for the second.
pub proof fn lemma_selector_offers_oversupplied(pool: PoolState, user: Seq<AssetAmount>)
    ensures
        first_share_larger(
            amount_of(user, pool.asset_a.kind),
            pool.asset_a.amount as int,
            amount_of(user, pool.asset_b.kind),
            pool.asset_b.amount as int,
        ) ==> chosen_offer_kind(pool, user) == pool.asset_a.kind,
        first_share_larger(
            amount_of(user, pool.asset_b.kind),
            pool.asset_b.amount as int,
            amount_of(user, pool.asset_a.kind),
            pool.asset_a.amount as int,
        ) ==> chosen_offer_kind(pool, user) == pool.asset_b.kind,
{
}

/// With both pool depths positive and a deposit that is exactly
/// depth-proportional (zero imbalance), the selector's solved offer amount
/// is zero: no swap is needed.
pub proof fn lemma_balanced_deposit_zero_offer(pool: PoolState, user: Seq<AssetAmount>)
    requires
        pool.asset_a.amount > 0,
        pool.asset_b.amount > 0,
        amount_of(user, pool.asset_a.kind) * pool.asset_b.amount == amount_of(
            user,
            pool.asset_b.kind,
        ) * pool.asset_a.amount,
    ensures
        chosen_offer_root(pool, user) == Some(0int),
{
    let ua = amount_of(user, pool.asset_a.kind);
    let ub = amount_of(user, pool.asset_b.kind);
    let pa = pool.asset_a.amount as int;
    let pb = pool.asset_b.amount as int;
    lemma_first_match(user, pool.asset_a.kind);
    lemma_first_match(user, pool.asset_b.kind);
    assert(ua >= 0);
    assert(ub >= 0);

    // An exact tie keeps the first asset as the offer side.
    assert(offers_asset_a(pool, user));
    let ca = coef_a(ua, pa, ub, pb);
    let cb = coef_b(ua, pa, ub, pb);
    let cc = coef_c(ua, pa, ub, pb);

    // The constant term vanishes exactly when the deposit is proportional.
    assert(pa * (pa * ub - ua * pb) == 0) by (nonlinear_arith)
        requires
            ua * pb == ub * pa,
    ;
    assert(cc == pa * (pa * ub - ua * pb));
    assert(cc == 0);

    // The linear term is positive: it is twice the commission base, minus
    // the commission's truncated share of it, which is strictly smaller.
    assert(pb * (pa + ua) > 0) by (nonlinear_arith)
        requires
            pb > 0,
            pa > 0,
            ua >= 0,
    ;
    assert(pa * (pb + ub) == pb * (pa + ua)) by (nonlinear_arith)
        requires
            ua * pb == ub * pa,
    ;
    let x_base = pb * (pa + ua);
    let fee_cut = trunc_div(x_base * (COMMISSION_RATE_BPS as int), 10000);
    assert(cb == x_base * 2 - fee_cut);
    assert(x_base * (COMMISSION_RATE_BPS as int) >= 0) by (nonlinear_arith)
        requires
            x_base > 0,
    ;
    assert(fee_cut == (x_base * (COMMISSION_RATE_BPS as int)) / 10000);
    assert(x_base * (COMMISSION_RATE_BPS as int) <= 10000 * x_base) by (nonlinear_arith)
        requires
            x_base > 0,
    ;
    vstd::arithmetic::div_mod::lemma_div_is_ordered(
        x_base * (COMMISSION_RATE_BPS as int),
        10000 * x_base,
        10000,
    );
    vstd::arithmetic::div_mod::lemma_div_multiples_vanish(x_base, 10000);
    assert(fee_cut <= x_base);
    assert(cb >= x_base);
    assert(cb != 0);

    // From zero, the first Newton step stays at zero: the derivative there
    // is the (non-zero) linear term and the function value is the (zero)
    // constant term, so zero is already the bit-exact fixed point.
    assert(quad_deriv_at(ca, cb, 0) == cb) by (nonlinear_arith);
    assert(quad_at(ca, cb, cc, 0) == cc) by (nonlinear_arith);
    assert(newton_step(ca, cb, cc, 0) == 0 - trunc_div(0, cb));
    assert(trunc_div(0, cb) == 0);
    assert(newton_run(ca, cb, cc, 0, MAX_ITERATIONS as nat) == Some(0int));
    assert(offer_root(ua, pa, ub, pb) == Some(0int));
}

/// Compute the swap that balances the deposit against the pool: offer the
/// asset whose deposited share of its depth is larger, in the amount the
/// quadratic's root gives. A zero amount means the deposit already matches
/// pool proportions and no swap is needed.
pub fn compute_offer_asset(pool: &PoolState, user_assets: &AssetSet) -> (r: Result<
    AssetAmount,
    ZapError,
>)
    ensures
        match r {
            Ok(offer) => {
                &&& offer.kind == chosen_offer_kind(*pool, user_assets@)
                &&& chosen_offer_root(*pool, user_assets@) == Some(offer.amount as int)
            },
            Err(e) => match chosen_offer_root(*pool, user_assets@) {
                Some(v) => {
                    &&& !(0 <= v <= u128::MAX)
                    &&& if v < 0 {
                        e matches ZapError::NegativeAmount
                    } else {
                        e matches ZapError::Overflow
                    }
                },
                None => e matches ZapError::DivisionByZero,
            },
        },
{
    let a_user = user_assets.amount_of_kind(&pool.asset_a.kind);
    let b_user = user_assets.amount_of_kind(&pool.asset_b.kind);

    let big_a_user = big_from_u128(a_user);
    let big_a_pool = big_from_u128(pool.asset_a.amount);
    let big_b_user = big_from_u128(b_user);
    let big_b_pool = big_from_u128(pool.asset_b.amount);

    // Compare the two shares `a_user/a_pool` and `b_user/b_pool` by
    // cross-multiplication; the over-supplied asset is offered, and an exact
    // tie keeps the first.
    let share_a_scaled = big_mul(&big_a_user, &big_b_pool);
    let share_b_scaled = big_mul(&big_b_user, &big_a_pool);
    let offers_a = !big_lt(&share_a_scaled, &share_b_scaled);

    let q = if offers_a {
        Quadratic::from_asset_amounts(&big_a_user, &big_a_pool, &big_b_user, &big_b_pool)
    } else {
        Quadratic::from_asset_amounts(&big_b_user, &big_b_pool, &big_a_user, &big_a_pool)
    };

    let root = match q.solve() {
        Ok(root) => root,
        Err(e) => {
            return Err(e);
        },
    };
    let offer_amount = match bigint_to_uint128(&root) {
        Ok(v) => v,
        Err(e) => {
            return Err(e);
        },
    };

    let offer_kind = if offers_a {
        pool.asset_a.kind.clone()
    } else {
        pool.asset_b.kind.clone()
    };
    Ok(AssetAmount::new(offer_kind, offer_amount))
}

} // verus!
