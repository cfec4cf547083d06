//! The deposit reconciler: checks claimed deposits against the pool's
//! composition and against the funds actually attached to the request, and
//! turns account-held-token claims into funds-pull instructions.

use vstd::prelude::*;

use crate::asset::{first_match, has_kind, lemma_first_match, purged, AssetAmount, AssetKind, AssetSet};
use crate::error::ZapError;
use crate::pool::PoolState;

verus! {

/// Every claimed deposit must be one of the pool's two constituent assets;
/// the first that is not is rejected.
pub fn assert_deposit_types(pool: &PoolState, deposits: &AssetSet) -> (r: Result<(), ZapError>)
    ensures
        match r {
            Ok(()) => forall|i: int|
                0 <= i < deposits@.len() ==> pool.contains_kind_spec(#[trigger] deposits@[i].kind),
            Err(e) => exists|i: int|
                {
                    &&& 0 <= i < deposits@.len()
                    &&& !pool.contains_kind_spec(#[trigger] deposits@[i].kind)
                    &&& forall|j: int| 0 <= j < i ==> pool.contains_kind_spec(#[trigger] deposits@[j].kind)
                    &&& e == ZapError::DepositNotInPool(deposits@[i].kind)
                },
        },
{
    let n = deposits.len();
    let mut i: usize = 0;
    while i < n
        invariant
            0 <= i <= n,
            n == deposits@.len(),
            forall|j: int| 0 <= j < i ==> pool.contains_kind_spec(#[trigger] deposits@[j].kind),
        decreases n - i,
    {
        let d = deposits.get(i);
        if !pool.contains_kind(&d.kind) {
            return Err(ZapError::DepositNotInPool(d.kind.clone()));
        }
        i += 1;
    }
    Ok(())
}

/// After zero-amount entries are discarded, exactly one or two deposits
/// must remain.
pub fn assert_deposit_number(deposits: &AssetSet) -> (r: Result<(), ZapError>)
    ensures
        match r {
            Ok(()) => 1 <= deposits@.len() <= 2,
            Err(e) => {
                &&& !(1 <= deposits@.len() <= 2)
                &&& e == ZapError::WrongDepositNumber(deposits@.len() as usize)
            },
        },
{
    let n = deposits.len();
    if 1 <= n && n <= 2 {
        Ok(())
    } else {
        Err(ZapError::WrongDepositNumber(n))
    }
}

/// What reconciling one claimed deposit against the attached coins yields:
/// an account-held claim becomes a pull instruction and leaves the coins
/// alone; a native claim must match an attached coin of its kind exactly,
/// which it consumes.
///
/// What reconciling a whole claim list yields: the pull instructions in
/// claim order and the attached coins that remain, or the first claim's
/// failure.
pub open spec fn reconcile_deposits(claimed: Seq<AssetAmount>, coins: Seq<AssetAmount>) -> Result<
    (Seq<AssetAmount>, Seq<AssetAmount>),
    ZapError,
>
    decreases claimed.len(),
{
    if claimed.len() == 0 {
        Ok((Seq::empty(), coins))
    } else {
        let d = claimed[0];
        if d.kind is Cw20 {
            match reconcile_deposits(claimed.drop_first(), coins) {
                Ok((pulls, rest)) => Ok((seq![d] + pulls, rest)),
                Err(e) => Err(e),
            }
        } else {
            let fm = first_match(coins, d.kind);
            if fm == -1 {
                Err(ZapError::DepositMismatch { expected: d, received: None })
            } else if coins[fm].amount != d.amount {
                Err(ZapError::DepositMismatch { expected: d, received: Some(coins[fm].amount) })
            } else {
                reconcile_deposits(
                    claimed.drop_first(),
                    purged(coins.update(fm, AssetAmount { kind: coins[fm].kind, amount: 0 })),
                )
            }
        }
    }
}

/// Reconcile one claimed deposit.
///
/// An account-held-token claim yields the transfer instruction to pull that
/// amount from the caller (trusted to succeed exactly or fail the operation
/// atomically). A directly-transferable claim must match the attached coin
/// of its kind exactly; the matched coin is consumed from `received_coins`.
pub fn handle_deposit(claimed: &AssetAmount, received_coins: &mut AssetSet) -> (r: Result<
    Option<AssetAmount>,
    ZapError,
>)
    ensures
        match r {
            Ok(opt) => {
                if claimed.kind is Cw20 {
                    &&& opt == Some(*claimed)
                    &&& final(received_coins)@ == old(received_coins)@
                } else {
                    let fm = first_match(old(received_coins)@, claimed.kind);
                    &&& opt is None
                    &&& has_kind(old(received_coins)@, claimed.kind)
                    &&& old(received_coins)@[fm].amount == claimed.amount
                    &&& final(received_coins)@ == purged(
                        old(received_coins)@.update(
                            fm,
                            AssetAmount { kind: old(received_coins)@[fm].kind, amount: 0 },
                        ),
                    )
                }
            },
            Err(e) => {
                &&& final(received_coins)@ == old(received_coins)@
                &&& claimed.kind is Native
                &&& if has_kind(old(received_coins)@, claimed.kind) {
                    {
                        let fm = first_match(old(received_coins)@, claimed.kind);
                        &&& old(received_coins)@[fm].amount != claimed.amount
                        &&& e == (ZapError::DepositMismatch {
                            expected: *claimed,
                            received: Some(old(received_coins)@[fm].amount),
                        })
                    }
                } else {
                    e == (ZapError::DepositMismatch { expected: *claimed, received: None })
                }
            },
        },
{
    if claimed.kind.is_cw20() {
        return Ok(Some(claimed.clone()));
    }
    match received_coins.index_of(&claimed.kind) {
        None => Err(ZapError::DepositMismatch { expected: claimed.clone(), received: None }),
        Some(i) => {
            let received_amount = received_coins.get(i).amount;
            if received_amount != claimed.amount {
                Err(
                    ZapError::DepositMismatch {
                        expected: claimed.clone(),
                        received: Some(received_amount),
                    },
                )
            } else {
                match received_coins.deduct(claimed) {
                    Ok(()) => Ok(None),
                    Err(e) => {
                        proof {
                            assert(false);
                        }
                        Err(e)
                    },
                }
            }
        },
    }
}

/// Reconcile every claimed deposit against the attached coins, in claim
/// order, and require that nothing attached is left unclaimed: extra funds
/// are rejected, never silently absorbed.
pub fn handle_deposits(claimed_deposits: &AssetSet, received_coins: &mut AssetSet) -> (r: Result<
    Vec<AssetAmount>,
    ZapError,
>)
    ensures
        match r {
            Ok(pulls) => {
                &&& reconcile_deposits(claimed_deposits@, old(received_coins)@) == Ok::<
                    _,
                    ZapError,
                >((pulls@, final(received_coins)@))
                &&& final(received_coins)@.len() == 0
            },
            Err(e) => match reconcile_deposits(claimed_deposits@, old(received_coins)@) {
                Ok((pulls, rest)) => {
                    &&& rest.len() > 0
                    &&& e matches ZapError::ExtraFunds(leftover) && leftover@ == rest
                },
                Err(e2) => e == e2,
            },
        },
{
    let ghost coins0 = received_coins@;
    let n = claimed_deposits.len();
    let mut pulls: Vec<AssetAmount> = Vec::new();
    let mut i: usize = 0;
    proof {
        assert(claimed_deposits@.skip(0) =~= claimed_deposits@);
        match reconcile_deposits(claimed_deposits@, coins0) {
            Ok((p, rest)) => {
                assert(pulls@ + p =~= p);
            },
            Err(_) => {},
        }
    }
    while i < n
        invariant
            0 <= i <= n,
            n == claimed_deposits@.len(),
            coins0 == old(received_coins)@,
            reconcile_deposits(claimed_deposits@, coins0) == (match reconcile_deposits(
                claimed_deposits@.skip(i as int),
                received_coins@,
            ) {
                Ok((p, rest)) => Ok::<_, ZapError>((pulls@ + p, rest)),
                Err(e) => Err(e),
            }),
        decreases n - i,
    {
        let ghost pulls_pre = pulls@;
        let ghost coins_pre = received_coins@;
        let d = claimed_deposits.get(i);
        let step = handle_deposit(d, received_coins);
        proof {
            assert(claimed_deposits@.skip(i as int).drop_first() =~= claimed_deposits@.skip(
                i + 1,
            ));
            assert(claimed_deposits@.skip(i as int)[0] == claimed_deposits@[i as int]);
        }
        match step {
            Ok(Some(pull)) => {
                pulls.push(pull);
                proof {
                    let d = claimed_deposits@[i as int];
                    assert(pulls@ =~= pulls_pre.push(d));
                    assert(reconcile_deposits(claimed_deposits@.skip(i as int), coins_pre)
                        == (match reconcile_deposits(claimed_deposits@.skip(i + 1), coins_pre) {
                        Ok((p, rest)) => Ok::<_, ZapError>((seq![d] + p, rest)),
                        Err(e) => Err(e),
                    }));
                    match reconcile_deposits(claimed_deposits@.skip(i + 1), received_coins@) {
                        Ok((p, rest)) => {
                            assert(pulls_pre + (seq![d] + p) =~= pulls@ + p);
                        },
                        Err(_) => {},
                    }
                }
            },
            Ok(None) => {
                proof {
                    let d = claimed_deposits@[i as int];
                    lemma_first_match(coins_pre, d.kind);
                    assert(reconcile_deposits(claimed_deposits@.skip(i as int), coins_pre)
                        == reconcile_deposits(claimed_deposits@.skip(i + 1), received_coins@));
                }
            },
            Err(e) => {
                proof {
                    let d = claimed_deposits@[i as int];
                    lemma_first_match(coins_pre, d.kind);
                    assert(reconcile_deposits(claimed_deposits@.skip(i as int), coins_pre)
                        == Err::<(Seq<AssetAmount>, Seq<AssetAmount>), ZapError>(e));
                }
                return Err(e);
            },
        }
        i += 1;
    }
    proof {
        assert(claimed_deposits@.skip(n as int) =~= Seq::<AssetAmount>::empty());
        match reconcile_deposits(claimed_deposits@.skip(n as int), received_coins@) {
            Ok((p, rest)) => {
                assert(pulls@ + p =~= pulls@);
            },
            Err(_) => {},
        }
    }
    if received_coins.len() > 0 {
        return Err(ZapError::ExtraFunds(received_coins.clone()));
    }
    Ok(pulls)
}

} // verus!
