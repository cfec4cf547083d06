use astrozap::asset::{AssetAmount, AssetKind, AssetSet};
use astrozap::error::ZapError;
use astrozap::events::{Attribute, Event};
use astrozap::pool::{PairMeta, PairType, PoolState};
use astrozap::quote::{simulate_offer, simulate_outcome, SimulateResponse};
use astrozap::zap::{
    after_provide_liquidity, after_swap, enter, extract_minted_shares, extract_swap_outcome,
    split_for_provide, CacheData, ZapAction,
};

fn native(denom: &str, amount: u128) -> AssetAmount {
    AssetAmount::new(AssetKind::Native(denom.to_string()), amount)
}

fn cw20(addr: &str, amount: u128) -> AssetAmount {
    AssetAmount::new(AssetKind::Cw20(addr.to_string()), amount)
}

fn luna_ust_pair() -> (PairMeta, PoolState) {
    (
        PairMeta {
            pair_type: PairType::Xyk,
            asset_a: AssetKind::Native("uusd".to_string()),
            asset_b: AssetKind::Native("uluna".to_string()),
            liquidity_token: "luna_ust_lp_token".to_string(),
        },
        PoolState {
            asset_a: native("uusd", 118070429547232u128),
            asset_b: native("uluna", 1451993415113u128),
            total_share: 12966110801826u128,
        },
    )
}

fn astro_ust_pair() -> (PairMeta, PoolState) {
    (
        PairMeta {
            pair_type: PairType::Xyk,
            asset_a: AssetKind::Cw20("astro_token".to_string()),
            asset_b: AssetKind::Native("uusd".to_string()),
            liquidity_token: "astro_ust_lp_token".to_string(),
        },
        PoolState {
            asset_a: cw20("astro_token", 48059201882191u128),
            asset_b: native("uusd", 65155920988539u128),
            total_share: 55851193190261u128,
        },
    )
}

fn bluna_luna_pair() -> (PairMeta, PoolState) {
    (
        PairMeta {
            pair_type: PairType::Stable,
            asset_a: AssetKind::Cw20("bluna_token".to_string()),
            asset_b: AssetKind::Native("uluna".to_string()),
            liquidity_token: "bluna_luna_lp_token".to_string(),
        },
        PoolState {
            asset_a: cw20("bluna_token", 2961459937027u128),
            asset_b: native("uluna", 2937863752918u128),
            total_share: 2948589474051u128,
        },
    )
}

fn wasm_event(pairs: &[(&str, &str)]) -> Event {
    Event {
        ty: "wasm".to_string(),
        attributes: pairs
            .iter()
            .map(|(k, v)| Attribute { key: k.to_string(), value: v.to_string() })
            .collect(),
    }
}

#[test]
fn should_reject_wrong_pair_type() {
    let (pair, pool) = bluna_luna_pair();
    let err = enter(
        "alice".to_string(),
        "bluna_luna_pair".to_string(),
        &pair,
        &pool,
        AssetSet::from_vec(vec![cw20("bluna_token", 12345u128), native("uluna", 12345u128)]),
        AssetSet::new(),
        None,
    )
    .unwrap_err();
    assert_eq!(err, ZapError::UnsupportedPairType("stable".to_string()));
}

#[test]
fn should_reject_wrong_deposit_type() {
    let (pair, pool) = luna_ust_pair();
    let err = enter(
        "alice".to_string(),
        "luna_ust_pair".to_string(),
        &pair,
        &pool,
        AssetSet::from_vec(vec![cw20("astro_token", 12345u128), native("uusd", 12345u128)]),
        AssetSet::new(),
        None,
    )
    .unwrap_err();
    assert_eq!(err, ZapError::DepositNotInPool(AssetKind::Cw20("astro_token".to_string())));
}

#[test]
fn should_reject_wrong_deposit_number() {
    let (pair, pool) = luna_ust_pair();

    // Deposit no asset: the one claimed entry is zero, so nothing remains
    // after the purge.
    let err = enter(
        "alice".to_string(),
        "luna_ust_pair".to_string(),
        &pair,
        &pool,
        AssetSet::from_vec(vec![native("uluna", 0u128)]),
        AssetSet::new(),
        None,
    )
    .unwrap_err();
    assert_eq!(err, ZapError::WrongDepositNumber(0));

    // Deposit three assets.
    let err = enter(
        "alice".to_string(),
        "luna_ust_pair".to_string(),
        &pair,
        &pool,
        AssetSet::from_vec(vec![
            native("uluna", 12345u128),
            native("uusd", 12345u128),
            native("uluna", 12345u128),
        ]),
        AssetSet::new(),
        None,
    )
    .unwrap_err();
    assert_eq!(err, ZapError::WrongDepositNumber(3));
}

#[test]
fn should_reject_missing_deposit() {
    let (pair, pool) = luna_ust_pair();

    // The caller claims to deposit 12345 uluna but attaches nothing.
    let err = enter(
        "alice".to_string(),
        "luna_ust_pair".to_string(),
        &pair,
        &pool,
        AssetSet::from_vec(vec![native("uluna", 12345u128)]),
        AssetSet::new(),
        None,
    )
    .unwrap_err();
    assert_eq!(
        err,
        ZapError::DepositMismatch { expected: native("uluna", 12345u128), received: None }
    );

    // The caller claims 12345 uluna but attaches a different amount.
    let err = enter(
        "alice".to_string(),
        "luna_ust_pair".to_string(),
        &pair,
        &pool,
        AssetSet::from_vec(vec![native("uluna", 12345u128)]),
        AssetSet::from_vec(vec![native("uluna", 88888u128)]),
        None,
    )
    .unwrap_err();
    assert_eq!(
        err,
        ZapError::DepositMismatch {
            expected: native("uluna", 12345u128),
            received: Some(88888u128),
        }
    );
}

#[test]
fn should_enter_native_native_pool() {
    let (pair, pool) = luna_ust_pair();

    let plan = enter(
        "alice".to_string(),
        "luna_ust_pair".to_string(),
        &pair,
        &pool,
        AssetSet::from_vec(vec![native("uusd", 100000000000u128)]),
        AssetSet::from_vec(vec![native("uusd", 100000000000u128)]),
        None,
    )
    .unwrap();

    assert_eq!(plan.pull_instructions, vec![]);
    assert_eq!(plan.action, ZapAction::Swap(native("uusd", 50064546170u128)));
    assert_eq!(plan.checkpoint.user_addr, "alice".to_string());
    assert_eq!(plan.checkpoint.pair_addr, "luna_ust_pair".to_string());
    assert_eq!(plan.checkpoint.liquidity_token_addr, "luna_ust_lp_token".to_string());
    assert_eq!(plan.checkpoint.assets.entries(), &vec![native("uusd", 49935453830u128)]);
    assert_eq!(plan.checkpoint.minimum_received, None);

    // The swap callback reports 613571013 uluna returned.
    let events = vec![wasm_event(&[
        ("action", "swap"),
        ("ask_asset", "uluna"),
        ("return_amount", "613571013"),
    ])];
    let (ask_asset, return_amount) = extract_swap_outcome(&events).unwrap();
    assert_eq!(ask_asset, "uluna".to_string());
    assert_eq!(return_amount, 613571013u128);

    let (checkpoint, provide) =
        after_swap(Some(plan.checkpoint), &native("uluna", 613571013u128)).unwrap();
    assert_eq!(
        provide.entries(),
        &vec![native("uusd", 49935453830u128), native("uluna", 613571013u128)]
    );
    let (allowances, funds) = split_for_provide(&provide);
    assert_eq!(allowances, vec![]);
    assert_eq!(
        funds,
        vec![native("uusd", 49935453830u128), native("uluna", 613571013u128)]
    );

    // The provide-liquidity callback reports 5481424982 shares minted; they
    // go to the original caller.
    let events = vec![wasm_event(&[("action", "provide_liquidity"), ("share", "5481424982")])];
    let minted = extract_minted_shares(&events).unwrap();
    assert_eq!(minted, 5481424982u128);
    let transfer = after_provide_liquidity(Some(checkpoint), minted).unwrap();
    assert_eq!(transfer.recipient, "alice".to_string());
    assert_eq!(transfer.token, "luna_ust_lp_token".to_string());
    assert_eq!(transfer.amount, 5481424982u128);
}

#[test]
fn should_enter_cw20_native_pool() {
    let (pair, pool) = astro_ust_pair();

    let plan = enter(
        "alice".to_string(),
        "astro_ust_pair".to_string(),
        &pair,
        &pool,
        AssetSet::from_vec(vec![
            native("uusd", 100000000000u128),
            cw20("astro_token", 750000000000u128),
        ]),
        AssetSet::from_vec(vec![native("uusd", 100000000000u128)]),
        None,
    )
    .unwrap();

    // The account-held deposit is pulled from the caller's balance.
    assert_eq!(plan.pull_instructions, vec![cw20("astro_token", 750000000000u128)]);
    assert_eq!(plan.action, ZapAction::Swap(cw20("astro_token", 336933122413u128)));
    assert_eq!(
        plan.checkpoint.assets.entries(),
        &vec![native("uusd", 100000000000u128), cw20("astro_token", 413066877587u128)]
    );

    // The swap callback reports 452253642498 uusd returned.
    let events = vec![wasm_event(&[
        ("action", "swap"),
        ("ask_asset", "uusd"),
        ("return_amount", "452253642498"),
    ])];
    let (ask_asset, return_amount) = extract_swap_outcome(&events).unwrap();
    assert_eq!(ask_asset, "uusd".to_string());
    assert_eq!(return_amount, 452253642498u128);

    let (checkpoint, provide) =
        after_swap(Some(plan.checkpoint), &native("uusd", 452253642498u128)).unwrap();
    assert_eq!(
        provide.entries(),
        &vec![native("uusd", 552253642498u128), cw20("astro_token", 413066877587u128)]
    );
    let (allowances, funds) = split_for_provide(&provide);
    assert_eq!(allowances, vec![cw20("astro_token", 413066877587u128)]);
    assert_eq!(funds, vec![native("uusd", 552253642498u128)]);

    // The provide-liquidity callback reports 476696702710 shares minted.
    let events = vec![wasm_event(&[("action", "provide_liquidity"), ("share", "476696702710")])];
    let minted = extract_minted_shares(&events).unwrap();
    let transfer = after_provide_liquidity(Some(checkpoint), minted).unwrap();
    assert_eq!(transfer.recipient, "alice".to_string());
    assert_eq!(transfer.token, "astro_ust_lp_token".to_string());
    assert_eq!(transfer.amount, 476696702710u128);
}

#[test]
fn should_enter_with_equal_value_assets() {
    let (pair, pool) = luna_ust_pair();

    // A deposit exactly matching the pool depths needs no swap.
    let plan = enter(
        "alice".to_string(),
        "luna_ust_pair".to_string(),
        &pair,
        &pool,
        AssetSet::from_vec(vec![
            native("uusd", 118070429547232u128),
            native("uluna", 1451993415113u128),
        ]),
        AssetSet::from_vec(vec![
            native("uusd", 118070429547232u128),
            native("uluna", 1451993415113u128),
        ]),
        None,
    )
    .unwrap();

    assert_eq!(
        plan.action,
        ZapAction::ProvideLiquidity(AssetSet::from_vec(vec![
            native("uusd", 118070429547232u128),
            native("uluna", 1451993415113u128),
        ]))
    );
}

#[test]
fn should_reject_excessive_slippage() {
    let checkpoint = CacheData {
        user_addr: "alice".to_string(),
        pair_addr: "luna_ust_pair".to_string(),
        liquidity_token_addr: "luna_ust_lp_token".to_string(),
        assets: AssetSet::new(),
        minimum_received: Some(20000u128),
    };

    let events = vec![wasm_event(&[("action", "provide_liquidity"), ("share", "12345")])];
    let minted = extract_minted_shares(&events).unwrap();
    let err = after_provide_liquidity(Some(checkpoint), minted).unwrap_err();
    assert_eq!(err, ZapError::Slippage { minimum: 20000u128, minted: 12345u128 });
}

#[test]
fn should_query_simulate() {
    let (pair, pool) = luna_ust_pair();
    let deposits = AssetSet::from_vec(vec![native("uusd", 100000000000u128)]);
    let offer = simulate_offer(&pair, &pool, deposits.clone()).unwrap();
    assert_eq!(offer, native("uusd", 50064546170u128));
    let res = simulate_outcome(&pool, deposits, &offer, 613571013u128).unwrap();
    assert_eq!(
        res,
        SimulateResponse {
            offer_asset: native("uusd", 50064546170u128),
            return_asset: native("uluna", 613571013u128),
            mint_shares: 5481424982u128,
        }
    );

    let (pair, pool) = astro_ust_pair();
    let deposits = AssetSet::from_vec(vec![
        native("uusd", 100000000000u128),
        cw20("astro_token", 750000000000u128),
    ]);
    let offer = simulate_offer(&pair, &pool, deposits.clone()).unwrap();
    assert_eq!(offer, cw20("astro_token", 336933122413u128));
    let res = simulate_outcome(&pool, deposits, &offer, 452253642498u128).unwrap();
    assert_eq!(
        res,
        SimulateResponse {
            offer_asset: cw20("astro_token", 336933122413u128),
            return_asset: native("uusd", 452253642498u128),
            mint_shares: 476696702710u128,
        }
    );
}
