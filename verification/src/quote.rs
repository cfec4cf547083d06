//! The quotation path: a read-only mirror of the entry planning plus a
//! closed-form replica of the pool's share-minting rule, predicting the
//! operation's outcome without dispatching anything.

use vstd::prelude::*;

use crate::asset::{
    amount_of, deducted, first_match, has_kind, kind_eq, merged, purged, AssetAmount, AssetKind,
    AssetSet,
};
use crate::bigint::{big_div, big_from_u128, big_mul, big_to_u128};
use crate::error::ZapError;
use crate::pool::{assert_pair_type, pair_type_label, PairMeta, PoolState};
use crate::deposit::{assert_deposit_number, assert_deposit_types};
use crate::select::{chosen_offer_kind, chosen_offer_root, compute_offer_asset};
use crate::zap::deposits_in_pool;

verus! {

/// The predicted outcome of an entry: the swap to make, what it returns,
/// and the liquidity shares minted by then providing everything.
#[derive(Debug, PartialEq, Eq)]
pub struct SimulateResponse {
    /// The asset to offer for swap to balance the deposit against the pool.
    pub offer_asset: AssetAmount,
    /// The asset the swap returns.
    pub return_asset: AssetAmount,
    /// The liquidity shares minted by providing both assets after the swap.
    pub mint_shares: u128,
}

/// Multiply then divide with full intermediate precision:
/// `amount * numerator / denominator`, truncated. Fails on a zero
/// denominator or a quotient past the ledger's width.
pub fn multiply_ratio(amount: u128, numerator: u128, denominator: u128) -> (r: Result<
    u128,
    ZapError,
>)
    ensures
        match r {
            Ok(v) => {
                &&& denominator != 0
                &&& v as int == (amount * numerator) / (denominator as int)
            },
            Err(e) => {
                if denominator == 0 {
                    e matches ZapError::DivisionByZero
                } else {
                    &&& (amount * numerator) / (denominator as int) > u128::MAX
                    &&& e matches ZapError::Overflow
                }
            },
        },
{
    if denominator == 0 {
        return Err(ZapError::DivisionByZero);
    }
    let product = big_mul(&big_from_u128(amount), &big_from_u128(numerator));
    let quotient = big_div(&product, &big_from_u128(denominator));
    proof {
        vstd::arithmetic::div_mod::lemma_div_pos_is_pos(
            amount as int * numerator as int,
            denominator as int,
        );
    }
    match big_to_u128(&quotient) {
        Some(v) => Ok(v),
        None => Err(ZapError::Overflow),
    }
}

/// The read-only variant of entry planning: the same validations, selector
/// and solver, but no funds handling, no checkpoint and no dispatch.
pub fn simulate_offer(pair: &PairMeta, pool: &PoolState, deposits: AssetSet) -> (r: Result<
    AssetAmount,
    ZapError,
>)
    ensures
        match r {
            Ok(offer) => {
                let pdeps = purged(deposits@);
                &&& pair.pair_type is Xyk
                &&& deposits_in_pool(*pool, deposits@)
                &&& 1 <= pdeps.len() <= 2
                &&& offer.kind == chosen_offer_kind(*pool, pdeps)
                &&& chosen_offer_root(*pool, pdeps) == Some(offer.amount as int)
            },
            Err(e) => {
                let pdeps = purged(deposits@);
                if !(pair.pair_type is Xyk) {
                    e matches ZapError::UnsupportedPairType(l) && l@ == pair_type_label(
                        pair.pair_type,
                    )
                } else if !deposits_in_pool(*pool, deposits@) {
                    e matches ZapError::DepositNotInPool(k) && !pool.contains_kind_spec(k)
                } else if !(1 <= pdeps.len() <= 2) {
                    e == ZapError::WrongDepositNumber(pdeps.len() as usize)
                } else {
                    match chosen_offer_root(*pool, pdeps) {
                        None => e matches ZapError::DivisionByZero,
                        Some(v) => {
                            &&& !(0 <= v <= u128::MAX)
                            &&& if v < 0 {
                                e matches ZapError::NegativeAmount
                            } else {
                                e matches ZapError::Overflow
                            }
                        },
                    }
                }
            },
        },
{
    let mut deposits = deposits;

    // The pair must be of the constant-product type.
    assert_pair_type(&pair.pair_type)?;
    // Each deposited asset must be contained by the pool.
    assert_deposit_types(pool, &deposits)?;
    // Must deposit exactly one or two non-zero assets.
    deposits.purge();
    assert_deposit_number(&deposits)?;

    compute_offer_asset(pool, &deposits)
}

/// The pool's depth on the offered side after the swap is notionally
/// applied.
pub open spec fn offer_side_depth(pool: PoolState, offer: AssetAmount) -> int {
    if kind_eq(offer.kind, pool.asset_a.kind) {
        pool.asset_a.amount + offer.amount
    } else {
        pool.asset_b.amount + offer.amount
    }
}

/// The pool's depth on the asked side after the swap is notionally applied.
pub open spec fn ask_side_depth(pool: PoolState, offer: AssetAmount, return_amount: int) -> int {
    if kind_eq(offer.kind, pool.asset_a.kind) {
        pool.asset_b.amount - return_amount
    } else {
        pool.asset_a.amount - return_amount
    }
}

/// The deposits after the swap is notionally applied: the returned asset
/// merged in, the offered amount taken out.
pub open spec fn adjusted_deposits(
    pdeps: Seq<AssetAmount>,
    offer: AssetAmount,
    ret: AssetAmount,
) -> Seq<AssetAmount> {
    deducted(merged(pdeps, ret), offer)
}

/// The kind the swap returns: the pool asset the offer is not.
pub open spec fn return_kind_spec(pool: PoolState, offer: AssetAmount) -> AssetKind {
    if kind_eq(offer.kind, pool.asset_a.kind) {
        pool.asset_b.kind
    } else {
        pool.asset_a.kind
    }
}

/// Predict the outcome of providing the deposits once the swap's result is
/// known: the external pool mints the minimum over both assets of
/// `deposited * total_shares / depth`, each evaluated on the post-swap
/// depths.
///
/// `return_amount` is what the pool's own swap simulator quoted for
/// `offer`; this function is pure arithmetic on that quote.
pub fn simulate_outcome(
    pool: &PoolState,
    deposits: AssetSet,
    offer: &AssetAmount,
    return_amount: u128,
) -> (r: Result<SimulateResponse, ZapError>)
    requires
        pool.contains_kind_spec(offer.kind),
    ensures
        ({
            let pdeps = purged(deposits@);
            let ret = AssetAmount { kind: return_kind_spec(*pool, *offer), amount: return_amount };
            let dep1 = merged(pdeps, ret);
            let dep2 = adjusted_deposits(pdeps, *offer, ret);
            let osd = offer_side_depth(*pool, *offer);
            let asd = ask_side_depth(*pool, *offer, return_amount as int);
            let depth_a = (if kind_eq(offer.kind, pool.asset_a.kind) {
                osd
            } else {
                asd
            });
            let depth_b = (if kind_eq(offer.kind, pool.asset_a.kind) {
                asd
            } else {
                osd
            });
            let mint_a = (amount_of(dep2, pool.asset_a.kind) * pool.total_share) / depth_a;
            let mint_b = (amount_of(dep2, pool.asset_b.kind) * pool.total_share) / depth_b;
            match r {
                Ok(resp) => {
                    &&& resp.offer_asset == *offer
                    &&& resp.return_asset == ret
                    &&& osd <= u128::MAX
                    &&& asd >= 0
                    &&& has_kind(pdeps, ret.kind) ==> pdeps[first_match(pdeps, ret.kind)].amount
                        + return_amount <= u128::MAX
                    &&& has_kind(dep1, offer.kind)
                    &&& offer.amount <= dep1[first_match(dep1, offer.kind)].amount
                    &&& depth_a != 0
                    &&& depth_b != 0
                    &&& mint_a <= u128::MAX
                    &&& mint_b <= u128::MAX
                    &&& resp.mint_shares as int == (if mint_a <= mint_b {
                        mint_a
                    } else {
                        mint_b
                    })
                },
                Err(e) => {
                    if osd > u128::MAX {
                        e matches ZapError::Overflow
                    } else if asd < 0 {
                        e matches ZapError::Underflow
                    } else if has_kind(pdeps, ret.kind) && pdeps[first_match(
                        pdeps,
                        ret.kind,
                    )].amount + return_amount > u128::MAX {
                        e matches ZapError::Overflow
                    } else if !has_kind(dep1, offer.kind) {
                        e matches ZapError::AssetNotFound(kk) && kk == offer.kind
                    } else if dep1[first_match(dep1, offer.kind)].amount < offer.amount {
                        e matches ZapError::Underflow
                    } else if depth_a == 0 {
                        e matches ZapError::DivisionByZero
                    } else if mint_a > u128::MAX {
                        e matches ZapError::Overflow
                    } else if depth_b == 0 {
                        e matches ZapError::DivisionByZero
                    } else {
                        &&& mint_b > u128::MAX
                        &&& e matches ZapError::Overflow
                    }
                },
            }
        }),
{
    let offers_a = offer.kind.matches(&pool.asset_a.kind);
    let offer_depth_old = if offers_a {
        pool.asset_a.amount
    } else {
        pool.asset_b.amount
    };
    let ask_depth_old = if offers_a {
        pool.asset_b.amount
    } else {
        pool.asset_a.amount
    };

    // Apply the swap to the pool's depths: the offered amount flows in, the
    // returned amount flows out.
    let new_offer_depth = match offer_depth_old.checked_add(offer.amount) {
        Some(v) => v,
        None => {
            return Err(ZapError::Overflow);
        },
    };
    let new_ask_depth = match ask_depth_old.checked_sub(return_amount) {
        Some(v) => v,
        None => {
            return Err(ZapError::Underflow);
        },
    };

    // Apply the swap to the deposits: the returned asset comes under our
    // control, the offered amount leaves it.
    let return_kind = if offers_a {
        pool.asset_b.kind.clone()
    } else {
        pool.asset_a.kind.clone()
    };
    let return_asset = AssetAmount::new(return_kind, return_amount);
    let mut dep = deposits;
    dep.purge();
    match dep.add(&return_asset) {
        Ok(()) => {},
        Err(e) => {
            return Err(e);
        },
    }
    match dep.deduct(offer) {
        Ok(()) => {},
        Err(e) => {
            return Err(e);
        },
    }

    let depth_a = if offers_a {
        new_offer_depth
    } else {
        new_ask_depth
    };
    let depth_b = if offers_a {
        new_ask_depth
    } else {
        new_offer_depth
    };
    let deposited_a = dep.amount_of_kind(&pool.asset_a.kind);
    let deposited_b = dep.amount_of_kind(&pool.asset_b.kind);

    // The pool mints the minimum of the two assets' proportional claims.
    let mint_a = match multiply_ratio(deposited_a, pool.total_share, depth_a) {
        Ok(v) => v,
        Err(e) => {
            return Err(e);
        },
    };
    let mint_b = match multiply_ratio(deposited_b, pool.total_share, depth_b) {
        Ok(v) => v,
        Err(e) => {
            return Err(e);
        },
    };
    let mint_shares = if mint_a <= mint_b {
        mint_a
    } else {
        mint_b
    };

    Ok(SimulateResponse { offer_asset: offer.clone(), return_asset, mint_shares })
}

} // verus!
