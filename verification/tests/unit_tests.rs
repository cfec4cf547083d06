use astrozap::asset::{AssetAmount, AssetKind, AssetSet};
use astrozap::bigint::bigint_to_uint128;
use astrozap::deposit::handle_deposits;
use astrozap::error::ZapError;
use astrozap::events::{event_contains_attr, parse_u128, Attribute, Event};
use astrozap::pool::{assert_pair_type, PairType, PoolState};
use astrozap::quote::multiply_ratio;
use astrozap::select::compute_offer_asset;
use astrozap::zap::{
    after_provide_liquidity, after_swap, classify_callback, extract_minted_shares,
    extract_swap_outcome, CallbackKind,
};

use num_bigint::BigInt;

fn native(denom: &str, amount: u128) -> AssetAmount {
    AssetAmount::new(AssetKind::Native(denom.to_string()), amount)
}

fn cw20(addr: &str, amount: u128) -> AssetAmount {
    AssetAmount::new(AssetKind::Cw20(addr.to_string()), amount)
}

fn wasm_event(pairs: &[(&str, &str)]) -> Event {
    Event {
        ty: "wasm".to_string(),
        attributes: pairs
            .iter()
            .map(|(k, v)| Attribute { key: k.to_string(), value: v.to_string() })
            .collect(),
    }
}

#[test]
fn selector_picks_sole_deposited_asset() {
    // A single-asset deposit into a pool with positive depths always offers
    // that asset: the other share is exactly zero.
    let pool = PoolState {
        asset_a: native("uusd", 118070429547232u128),
        asset_b: native("uluna", 1451993415113u128),
        total_share: 12966110801826u128,
    };
    let deposits = AssetSet::from_vec(vec![native("uusd", 100000000000u128)]);
    let offer = compute_offer_asset(&pool, &deposits).unwrap();
    assert_eq!(offer.kind, AssetKind::Native("uusd".to_string()));
    assert_eq!(offer.amount, 50064546170u128);

    // Symmetrically for the second asset.
    let deposits = AssetSet::from_vec(vec![native("uluna", 1000000u128)]);
    let offer = compute_offer_asset(&pool, &deposits).unwrap();
    assert_eq!(offer.kind, AssetKind::Native("uluna".to_string()));
}

#[test]
fn balanced_deposit_offers_zero() {
    // A deposit exactly proportional to the pool depths solves to a zero
    // offer amount.
    let pool = PoolState {
        asset_a: native("uusd", 2000u128),
        asset_b: native("uluna", 500u128),
        total_share: 1000u128,
    };
    let deposits = AssetSet::from_vec(vec![native("uusd", 400u128), native("uluna", 100u128)]);
    let offer = compute_offer_asset(&pool, &deposits).unwrap();
    assert_eq!(offer.amount, 0u128);
}

#[test]
fn extra_funds_are_rejected() {
    // The caller attaches more coins than the claimed deposits account for:
    // reconciliation fails and names the leftover.
    let claimed = AssetSet::from_vec(vec![native("uusd", 100u128)]);
    let mut funds = AssetSet::from_vec(vec![native("uusd", 100u128), native("uluna", 5u128)]);
    let err = handle_deposits(&claimed, &mut funds).unwrap_err();
    assert_eq!(err, ZapError::ExtraFunds(AssetSet::from_vec(vec![native("uluna", 5u128)])));
}

#[test]
fn pair_type_labels() {
    assert!(assert_pair_type(&PairType::Xyk).is_ok());
    assert_eq!(
        assert_pair_type(&PairType::Stable).unwrap_err(),
        ZapError::UnsupportedPairType("stable".to_string())
    );
    assert_eq!(
        assert_pair_type(&PairType::Custom("concentrated".to_string())).unwrap_err(),
        ZapError::UnsupportedPairType("concentrated".to_string())
    );
}

#[test]
fn parse_amounts() {
    assert_eq!(parse_u128("0").unwrap(), 0u128);
    assert_eq!(parse_u128("613571013").unwrap(), 613571013u128);
    assert_eq!(
        parse_u128("340282366920938463463374607431768211455").unwrap(),
        u128::MAX
    );
    // Empty, stray characters, and values past 128 bits are rejected.
    assert_eq!(parse_u128("").unwrap_err(), ZapError::InvalidAmount("".to_string()));
    assert_eq!(parse_u128("12x4").unwrap_err(), ZapError::InvalidAmount("12x4".to_string()));
    assert_eq!(parse_u128("-5").unwrap_err(), ZapError::InvalidAmount("-5".to_string()));
    assert_eq!(
        parse_u128("340282366920938463463374607431768211456").unwrap_err(),
        ZapError::InvalidAmount("340282366920938463463374607431768211456".to_string())
    );
}

#[test]
fn event_lookup() {
    let event = wasm_event(&[("action", "swap"), ("ask_asset", "uluna")]);
    assert!(event_contains_attr(&event, &"action".to_string(), &"swap".to_string()));
    assert!(!event_contains_attr(&event, &"action".to_string(), &"provide_liquidity".to_string()));

    // A log without the swap event, or with the event but without the
    // expected attributes, cannot be resumed from.
    let events = vec![wasm_event(&[("action", "provide_liquidity")])];
    assert_eq!(
        extract_swap_outcome(&events).unwrap_err(),
        ZapError::MissingEvent("swap".to_string())
    );
    let events = vec![wasm_event(&[("action", "swap"), ("return_amount", "1")])];
    assert_eq!(
        extract_swap_outcome(&events).unwrap_err(),
        ZapError::MissingAttribute("ask_asset".to_string())
    );
    let events = vec![wasm_event(&[("action", "swap"), ("ask_asset", "uluna")])];
    assert_eq!(
        extract_swap_outcome(&events).unwrap_err(),
        ZapError::MissingAttribute("return_amount".to_string())
    );
    let events = vec![wasm_event(&[("action", "provide_liquidity")])];
    assert_eq!(
        extract_minted_shares(&events).unwrap_err(),
        ZapError::MissingAttribute("share".to_string())
    );
    let events = vec![wasm_event(&[("action", "provide_liquidity"), ("share", "1e9")])];
    assert_eq!(
        extract_minted_shares(&events).unwrap_err(),
        ZapError::InvalidAmount("1e9".to_string())
    );
}

#[test]
fn callback_routing() {
    assert_eq!(classify_callback(1).unwrap(), CallbackKind::AfterSwap);
    assert_eq!(classify_callback(2).unwrap(), CallbackKind::AfterProvideLiquidity);
    assert_eq!(classify_callback(7).unwrap_err(), ZapError::InvalidReplyId(7));
}

#[test]
fn resumption_needs_checkpoint() {
    assert_eq!(
        after_swap(None, &native("uluna", 1u128)).unwrap_err(),
        ZapError::NoCheckpoint
    );
    assert_eq!(after_provide_liquidity(None, 1u128).unwrap_err(), ZapError::NoCheckpoint);
}

#[test]
fn narrowing_is_checked() {
    // The solver's wide result reaches ledger amounts only through the
    // fallible narrowing.
    assert_eq!(bigint_to_uint128(&BigInt::from(12345u128)).unwrap(), 12345u128);
    assert_eq!(
        bigint_to_uint128(&BigInt::from(-5i32)).unwrap_err(),
        ZapError::NegativeAmount
    );
    let wide = BigInt::from(u128::MAX) * BigInt::from(3u32);
    assert_eq!(bigint_to_uint128(&wide).unwrap_err(), ZapError::Overflow);
}

#[test]
fn ratio_arithmetic() {
    assert_eq!(multiply_ratio(49935453830u128, 12966110801826u128, 118120494093402u128).unwrap(), 5481424982u128);
    assert_eq!(multiply_ratio(613571013u128, 12966110801826u128, 1451379844100u128).unwrap(), 5481424984u128);
    assert_eq!(multiply_ratio(1u128, 1u128, 0u128).unwrap_err(), ZapError::DivisionByZero);
    assert_eq!(
        multiply_ratio(u128::MAX, 2u128, 1u128).unwrap_err(),
        ZapError::Overflow
    );
}

#[test]
fn asset_set_operations() {
    let mut set = AssetSet::from_vec(vec![native("uusd", 10u128), cw20("astro_token", 7u128)]);
    assert_eq!(set.amount_of_kind(&AssetKind::Native("uusd".to_string())), 10u128);
    assert_eq!(set.amount_of_kind(&AssetKind::Native("uluna".to_string())), 0u128);

    // Adding merges by kind; deducting to zero drops the entry.
    set.add(&native("uusd", 5u128)).unwrap();
    assert_eq!(set.amount_of_kind(&AssetKind::Native("uusd".to_string())), 15u128);
    set.deduct(&cw20("astro_token", 7u128)).unwrap();
    assert_eq!(set.entries(), &vec![native("uusd", 15u128)]);

    // Underflow and unknown kinds are errors, overflow too.
    assert_eq!(set.deduct(&native("uusd", 16u128)).unwrap_err(), ZapError::Underflow);
    assert_eq!(
        set.deduct(&native("uluna", 1u128)).unwrap_err(),
        ZapError::AssetNotFound(AssetKind::Native("uluna".to_string()))
    );
    assert_eq!(set.add(&native("uusd", u128::MAX)).unwrap_err(), ZapError::Overflow);

    // Purging drops the zero entries and keeps order.
    let mut set = AssetSet::from_vec(vec![
        native("uusd", 0u128),
        native("uluna", 3u128),
        cw20("astro_token", 0u128),
    ]);
    set.purge();
    assert_eq!(set.entries(), &vec![native("uluna", 3u128)]);
}
