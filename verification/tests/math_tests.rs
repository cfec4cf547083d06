use astrozap::bigint::bigint_to_uint128;
use astrozap::math::Quadratic;

use num_bigint::BigInt;

fn mock_equation() -> Quadratic {
    Quadratic::from_asset_amounts(
        &BigInt::from(100000000000u128),
        &BigInt::from(118070429547232u128),
        &BigInt::from(0u128),
        &BigInt::from(1451993415113u128),
    )
}

#[test]
fn should_create_from_asset_amounts() {
    let qe = mock_equation();
    assert_eq!(qe.a, BigInt::from(1451993415113u128));
    assert_eq!(qe.b, BigInt::from(342360224387597541370186081u128));
    assert_eq!(qe.c, BigInt::from(-17143748622214425401611721600000000000i128));
}

#[test]
fn should_solve_equation() {
    let qe = mock_equation();
    let offer_amount_bi = qe.solve().unwrap();
    let offer_amount = bigint_to_uint128(&offer_amount_bi).unwrap();
    assert_eq!(offer_amount, 50064546170u128);
}
