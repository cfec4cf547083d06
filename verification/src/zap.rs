//! The continuation state machine: one entry step that plans the operation
//! and persists a checkpoint, and two resumption steps that advance it when
//! the external swap and provide-liquidity calls report back.
//!
//! The checkpoint is the only state that crosses an asynchronous call
//! boundary; exactly one exists per in-flight operation, and a resumption
//! with no checkpoint, or with an unknown callback identifier, is a fatal
//! protocol error.

use vstd::prelude::*;
use vstd::string::StringExecFns;

use crate::asset::{
    deducted, first_match, has_kind, kind_eq, merged, purged, AssetAmount, AssetKind, AssetSet,
};
use crate::deposit::{
    assert_deposit_number, assert_deposit_types, handle_deposits, reconcile_deposits,
};
use crate::error::ZapError;
use crate::events::{
    dec_digits, dec_val, find_attr_value, find_event_with_attr, first_attr_with, first_event_with,
    parse_u128, Event,
};
use crate::pool::{assert_pair_type, pair_type_label, PairMeta, PoolState};
use crate::select::{chosen_offer_kind, chosen_offer_root, compute_offer_asset};

verus! {

/// The callback identifier tagged onto the external swap call.
pub const SWAP_REPLY_ID: u64 = 1;

/// The callback identifier tagged onto the external provide-liquidity call.
pub const PROVIDE_LIQUIDITY_REPLY_ID: u64 = 2;

/// The continuation record persisted across the asynchronous call
/// boundaries: who started the operation, against which pair, the share
/// token to settle in, the funds the operation still controls, and the
/// caller's optional minimum-output threshold.
#[derive(Debug, PartialEq, Eq)]
pub struct CacheData {
    pub user_addr: String,
    pub pair_addr: String,
    pub liquidity_token_addr: String,
    pub assets: AssetSet,
    pub minimum_received: Option<u128>,
}

impl Clone for CacheData {
    fn clone(&self) -> (r: Self)
        ensures
            r.user_addr@ == self.user_addr@,
            r.pair_addr@ == self.pair_addr@,
            r.liquidity_token_addr@ == self.liquidity_token_addr@,
            r.assets@ == self.assets@,
            r.minimum_received == self.minimum_received,
    {
        CacheData {
            user_addr: self.user_addr.clone(),
            pair_addr: self.pair_addr.clone(),
            liquidity_token_addr: self.liquidity_token_addr.clone(),
            assets: self.assets.clone(),
            minimum_received: self.minimum_received,
        }
    }
}

/// The single external call the entry step dispatches: a swap of the
/// over-supplied asset, or, when no swap is needed, the liquidity provision
/// itself.
#[derive(Debug, PartialEq, Eq)]
pub enum ZapAction {
    Swap(AssetAmount),
    ProvideLiquidity(AssetSet),
}

/// Everything the entry step decides: the funds-pull instructions for
/// account-held deposits, the one external call to dispatch, and the
/// checkpoint to persist before dispatching it.
#[derive(Debug, PartialEq, Eq)]
pub struct EnterPlan {
    pub pull_instructions: Vec<AssetAmount>,
    pub action: ZapAction,
    pub checkpoint: CacheData,
}

/// Which resumption a callback identifier selects.
#[derive(Debug, Clone, Copy, PartialEq, Eq)]
pub enum CallbackKind {
    AfterSwap,
    AfterProvideLiquidity,
}

/// Every claimed deposit is one of the pool's two constituent assets.
pub open spec fn deposits_in_pool(pool: PoolState, deposits: Seq<AssetAmount>) -> bool {
    forall|i: int| 0 <= i < deposits.len() ==> pool.contains_kind_spec(#[trigger] deposits[i].kind)
}

/// The checkpoint's asset set at entry: the purged deposits minus the
/// offer amount `v` taken from the chosen offer asset.
pub open spec fn enter_checkpoint_assets(pool: PoolState, pdeps: Seq<AssetAmount>, v: int) -> Seq<
    AssetAmount,
> {
    deducted(pdeps, AssetAmount { kind: chosen_offer_kind(pool, pdeps), amount: v as u128 })
}

/// Plan one entry into the pool.
///
/// Validates the pair type, the deposits against the pool's composition and
/// count after discarding zero entries, and the claimed deposits against the
/// attached funds; then computes the optimal swap, deducts the offered
/// amount from the funds the operation keeps, and decides whether a swap is
/// needed at all. Nothing is dispatched here: the caller persists the
/// checkpoint and performs the plan's one action.
pub fn enter(
    user_addr: String,
    pair_addr: String,
    pair: &PairMeta,
    pool: &PoolState,
    deposits: AssetSet,
    funds: AssetSet,
    minimum_received: Option<u128>,
) -> (r: Result<EnterPlan, ZapError>)
    ensures
        match r {
            Ok(plan) => {
                let pdeps = purged(deposits@);
                &&& pair.pair_type is Xyk
                &&& deposits_in_pool(*pool, deposits@)
                &&& 1 <= pdeps.len() <= 2
                &&& reconcile_deposits(pdeps, funds@) matches Ok(pr) && pr.1.len() == 0
                    && plan.pull_instructions@ == pr.0
                &&& chosen_offer_root(*pool, pdeps) matches Some(v) && {
                    let k = chosen_offer_kind(*pool, pdeps);
                    &&& 0 <= v <= u128::MAX
                    &&& has_kind(pdeps, k)
                    &&& v <= pdeps[first_match(pdeps, k)].amount
                    &&& plan.checkpoint.user_addr@ == user_addr@
                    &&& plan.checkpoint.pair_addr@ == pair_addr@
                    &&& plan.checkpoint.liquidity_token_addr@ == pair.liquidity_token@
                    &&& plan.checkpoint.assets@ == enter_checkpoint_assets(*pool, pdeps, v)
                    &&& plan.checkpoint.minimum_received == minimum_received
                    &&& if v == 0 {
                        plan.action matches ZapAction::ProvideLiquidity(s) && s@ == pdeps
                    } else {
                        plan.action matches ZapAction::Swap(o) && o.kind == k && o.amount == v
                    }
                }
            },
            Err(e) => {
                let pdeps = purged(deposits@);
                if !(pair.pair_type is Xyk) {
                    e matches ZapError::UnsupportedPairType(l) && l@ == pair_type_label(
                        pair.pair_type,
                    )
                } else if !deposits_in_pool(*pool, deposits@) {
                    e matches ZapError::DepositNotInPool(k) && !pool.contains_kind_spec(k)
                } else if !(1 <= pdeps.len() <= 2) {
                    e == ZapError::WrongDepositNumber(pdeps.len() as usize)
                } else {
                    match reconcile_deposits(pdeps, funds@) {
                        Err(e2) => e == e2,
                        Ok(pr) => {
                            if pr.1.len() > 0 {
                                e matches ZapError::ExtraFunds(l) && l@ == pr.1
                            } else {
                                match chosen_offer_root(*pool, pdeps) {
                                    None => e matches ZapError::DivisionByZero,
                                    Some(v) => {
                                        let k = chosen_offer_kind(*pool, pdeps);
                                        if v < 0 {
                                            e matches ZapError::NegativeAmount
                                        } else if v > u128::MAX {
                                            e matches ZapError::Overflow
                                        } else if !has_kind(pdeps, k) {
                                            e matches ZapError::AssetNotFound(kk) && kk == k
                                        } else {
                                            &&& v > pdeps[first_match(pdeps, k)].amount
                                            &&& e matches ZapError::Underflow
                                        }
                                    },
                                }
                            }
                        },
                    }
                }
            },
        },
{
    let mut deposits = deposits;
    let mut funds = funds;

    // The pair must be of the constant-product type.
    assert_pair_type(&pair.pair_type)?;
    // Each deposited asset must be contained by the pool.
    assert_deposit_types(pool, &deposits)?;
    // Must deposit exactly one or two non-zero assets.
    deposits.purge();
    assert_deposit_number(&deposits)?;

    // Account-held deposits become funds-pull instructions; native deposits
    // must match the attached funds exactly, with nothing left over.
    let pulls = handle_deposits(&deposits, &mut funds)?;

    // Compute the optimal swap, then set aside the amount about to be
    // offered: the checkpoint keeps only what stays under our control.
    let offer = compute_offer_asset(pool, &deposits)?;
    let mut available = deposits.clone();
    available.deduct(&offer)?;

    let no_swap = offer.is_zero();
    let checkpoint = CacheData {
        user_addr,
        pair_addr,
        liquidity_token_addr: pair.liquidity_token.clone(),
        assets: available,
        minimum_received,
    };
    let action = if no_swap {
        ZapAction::ProvideLiquidity(deposits)
    } else {
        ZapAction::Swap(offer)
    };
    Ok(EnterPlan { pull_instructions: pulls, action, checkpoint })
}

/// Route a callback identifier to its resumption; one this layer never
/// issued is a fatal protocol error.
pub fn classify_callback(id: u64) -> (r: Result<CallbackKind, ZapError>)
    ensures
        match r {
            Ok(k) => {
                &&& id == SWAP_REPLY_ID || id == PROVIDE_LIQUIDITY_REPLY_ID
                &&& (k is AfterSwap <==> id == SWAP_REPLY_ID)
            },
            Err(e) => {
                &&& id != SWAP_REPLY_ID && id != PROVIDE_LIQUIDITY_REPLY_ID
                &&& e == ZapError::InvalidReplyId(id)
            },
        },
{
    if id == SWAP_REPLY_ID {
        Ok(CallbackKind::AfterSwap)
    } else if id == PROVIDE_LIQUIDITY_REPLY_ID {
        Ok(CallbackKind::AfterProvideLiquidity)
    } else {
        Err(ZapError::InvalidReplyId(id))
    }
}

/// Read the swap's outcome out of its callback event log: the identifier of
/// the asset returned (attribute `ask_asset` of the event whose `action` is
/// `swap`) and the returned quantity (attribute `return_amount`). A missing
/// event or attribute is fatal: the swap's true outcome cannot be
/// reconstructed.
pub fn extract_swap_outcome(events: &Vec<Event>) -> (r: Result<(String, u128), ZapError>)
    ensures
        match r {
            Ok(out) => {
                let ei = first_event_with(events@, "action"@, "swap"@);
                &&& ei >= 0
                &&& {
                    let attrs = events@[ei].attributes@;
                    let ai = first_attr_with(attrs, "ask_asset"@);
                    let ri = first_attr_with(attrs, "return_amount"@);
                    &&& ai >= 0
                    &&& ri >= 0
                    &&& out.0@ == attrs[ai].value@
                    &&& dec_digits(attrs[ri].value@)
                    &&& out.1 as int == dec_val(attrs[ri].value@)
                }
            },
            Err(e) => {
                let ei = first_event_with(events@, "action"@, "swap"@);
                if ei == -1 {
                    e matches ZapError::MissingEvent(t) && t@ == "swap"@
                } else {
                    let attrs = events@[ei].attributes@;
                    let ai = first_attr_with(attrs, "ask_asset"@);
                    let ri = first_attr_with(attrs, "return_amount"@);
                    if ai == -1 {
                        e matches ZapError::MissingAttribute(t) && t@ == "ask_asset"@
                    } else if ri == -1 {
                        e matches ZapError::MissingAttribute(t) && t@ == "return_amount"@
                    } else {
                        &&& !(dec_digits(attrs[ri].value@) && dec_val(attrs[ri].value@)
                            <= u128::MAX)
                        &&& e matches ZapError::InvalidAmount(t) && t@ == attrs[ri].value@
                    }
                }
            },
        },
{
    let action_key = String::from_str("action");
    let swap_value = String::from_str("swap");
    let found = find_event_with_attr(events, &action_key, &swap_value);
    match found {
        None => Err(ZapError::MissingEvent(swap_value)),
        Some(i) => {
            let event = &events[i];
            let ask_key = String::from_str("ask_asset");
            match find_attr_value(event, &ask_key) {
                None => Err(ZapError::MissingAttribute(ask_key)),
                Some(ask_asset) => {
                    let amount_key = String::from_str("return_amount");
                    match find_attr_value(event, &amount_key) {
                        None => Err(ZapError::MissingAttribute(amount_key)),
                        Some(amount_text) => match parse_u128(amount_text.as_str()) {
                            Ok(amount) => Ok((ask_asset, amount)),
                            Err(e) => Err(e),
                        },
                    }
                },
            }
        },
    }
}

/// Read the minted-share quantity out of the provide-liquidity callback's
/// event log: attribute `share` of the event whose `action` is
/// `provide_liquidity`.
pub fn extract_minted_shares(events: &Vec<Event>) -> (r: Result<u128, ZapError>)
    ensures
        match r {
            Ok(minted) => {
                let ei = first_event_with(events@, "action"@, "provide_liquidity"@);
                &&& ei >= 0
                &&& {
                    let attrs = events@[ei].attributes@;
                    let si = first_attr_with(attrs, "share"@);
                    &&& si >= 0
                    &&& dec_digits(attrs[si].value@)
                    &&& minted as int == dec_val(attrs[si].value@)
                }
            },
            Err(e) => {
                let ei = first_event_with(events@, "action"@, "provide_liquidity"@);
                if ei == -1 {
                    e matches ZapError::MissingEvent(t) && t@ == "provide_liquidity"@
                } else {
                    let attrs = events@[ei].attributes@;
                    let si = first_attr_with(attrs, "share"@);
                    if si == -1 {
                        e matches ZapError::MissingAttribute(t) && t@ == "share"@
                    } else {
                        &&& !(dec_digits(attrs[si].value@) && dec_val(attrs[si].value@)
                            <= u128::MAX)
                        &&& e matches ZapError::InvalidAmount(t) && t@ == attrs[si].value@
                    }
                }
            },
        },
{
    let action_key = String::from_str("action");
    let provide_value = String::from_str("provide_liquidity");
    let found = find_event_with_attr(events, &action_key, &provide_value);
    match found {
        None => Err(ZapError::MissingEvent(provide_value)),
        Some(i) => {
            let event = &events[i];
            let share_key = String::from_str("share");
            match find_attr_value(event, &share_key) {
                None => Err(ZapError::MissingAttribute(share_key)),
                Some(share_text) => match parse_u128(share_text.as_str()) {
                    Ok(minted) => Ok(minted),
                    Err(e) => Err(e),
                },
            }
        },
    }
}

/// Resume after the swap callback: merge the returned asset into the
/// checkpoint's funds and hand back the updated checkpoint together with
/// the full asset set to provide as liquidity. A resumption with no
/// checkpoint is a fatal protocol error.
pub fn after_swap(checkpoint: Option<CacheData>, returned: &AssetAmount) -> (r: Result<
    (CacheData, AssetSet),
    ZapError,
>)
    ensures
        match r {
            Ok(out) => {
                &&& checkpoint matches Some(c0) && {
                    &&& has_kind(c0.assets@, returned.kind) ==> c0.assets@[first_match(
                        c0.assets@,
                        returned.kind,
                    )].amount + returned.amount <= u128::MAX
                    &&& out.0.user_addr@ == c0.user_addr@
                    &&& out.0.pair_addr@ == c0.pair_addr@
                    &&& out.0.liquidity_token_addr@ == c0.liquidity_token_addr@
                    &&& out.0.minimum_received == c0.minimum_received
                    &&& out.0.assets@ == merged(c0.assets@, *returned)
                    &&& out.1@ == merged(c0.assets@, *returned)
                }
            },
            Err(e) => match checkpoint {
                None => e == ZapError::NoCheckpoint,
                Some(c0) => {
                    &&& e == ZapError::Overflow
                    &&& has_kind(c0.assets@, returned.kind)
                    &&& c0.assets@[first_match(c0.assets@, returned.kind)].amount + returned.amount
                        > u128::MAX
                },
            },
        },
{
    let mut cache = match checkpoint {
        Some(c) => c,
        None => {
            return Err(ZapError::NoCheckpoint);
        },
    };
    match cache.assets.add(returned) {
        Ok(()) => {},
        Err(e) => {
            return Err(e);
        },
    }
    let provide = cache.assets.clone();
    Ok((cache, provide))
}

/// What settles the operation: a transfer of the minted shares, in the
/// pair's liquidity-share token, to the original caller.
#[derive(Debug, PartialEq, Eq)]
pub struct ShareTransfer {
    pub recipient: String,
    pub token: String,
    pub amount: u128,
}

/// Resume after the provide-liquidity callback: enforce the caller's
/// minimum-output threshold on the minted shares and settle them to the
/// original caller. Whatever the outcome, the caller of this layer clears
/// the checkpoint: the operation is over. A resumption with no checkpoint
/// is a fatal protocol error.
pub fn after_provide_liquidity(checkpoint: Option<CacheData>, minted: u128) -> (r: Result<
    ShareTransfer,
    ZapError,
>)
    ensures
        match r {
            Ok(t) => {
                &&& checkpoint matches Some(c0) && {
                    &&& (c0.minimum_received matches Some(m) ==> minted >= m)
                    &&& t.recipient@ == c0.user_addr@
                    &&& t.token@ == c0.liquidity_token_addr@
                    &&& t.amount == minted
                }
            },
            Err(e) => match checkpoint {
                None => e == ZapError::NoCheckpoint,
                Some(c0) => {
                    &&& c0.minimum_received matches Some(m) && minted < m && e
                        == (ZapError::Slippage { minimum: m, minted: minted })
                },
            },
        },
{
    let cache = match checkpoint {
        Some(c) => c,
        None => {
            return Err(ZapError::NoCheckpoint);
        },
    };
    if let Some(minimum) = cache.minimum_received {
        if minted < minimum {
            return Err(ZapError::Slippage { minimum, minted });
        }
    }
    Ok(ShareTransfer { recipient: cache.user_addr, token: cache.liquidity_token_addr, amount: minted })
}

/// Split an asset set the way the provide-liquidity call wants it: the
/// account-held entries, each needing an allowance instruction toward the
/// pair, and the native entries, attached directly as funds.
pub fn split_for_provide(assets: &AssetSet) -> (r: (Vec<AssetAmount>, Vec<AssetAmount>))
    ensures
        r.0@ == assets@.filter(|a: AssetAmount| a.kind is Cw20),
        r.1@ == assets@.filter(|a: AssetAmount| a.kind is Native),
{
    let entries = assets.entries();
    let n = entries.len();
    let mut cw20s: Vec<AssetAmount> = Vec::new();
    let mut natives: Vec<AssetAmount> = Vec::new();
    let mut i: usize = 0;
    while i < n
        invariant
            0 <= i <= n,
            n == assets@.len(),
            entries@ == assets@,
            cw20s@ == assets@.take(i as int).filter(|a: AssetAmount| a.kind is Cw20),
            natives@ == assets@.take(i as int).filter(|a: AssetAmount| a.kind is Native),
        decreases n - i,
    {
        if entries[i].kind.is_cw20() {
            cw20s.push(entries[i].clone());
        } else {
            natives.push(entries[i].clone());
        }
        proof {
            reveal_with_fuel(Seq::<_>::filter, 2);
            assert(assets@.take(i + 1).drop_last() =~= assets@.take(i as int));
            assert(assets@.take(i + 1).last() == assets@[i as int]);
            assert(cw20s@ =~= assets@.take(i + 1).filter(|a: AssetAmount| a.kind is Cw20));
            assert(natives@ =~= assets@.take(i + 1).filter(|a: AssetAmount| a.kind is Native));
        }
        i += 1;
    }
    proof {
        assert(assets@.take(n as int) =~= assets@);
    }
    (cw20s, natives)
}

} // verus!

