//! The library's error taxonomy: input validation, arithmetic, protocol
//! (continuation) faults, and the economic minimum-output abort.

use vstd::prelude::*;

use crate::asset::{AssetAmount, AssetKind, AssetSet};

verus! {

#[derive(Debug, Clone, PartialEq, Eq)]
pub enum ZapError {
    /// The target pair is not of the constant-product variant; carries the
    /// pair type's label.
    UnsupportedPairType(String),
    /// A claimed deposit is not one of the pool's two constituent assets.
    DepositNotInPool(AssetKind),
    /// After discarding zero-amount entries, the number of claimed deposits
    /// is not one or two; carries the count found.
    WrongDepositNumber(usize),
    /// A claimed directly-transferable deposit does not match the attached
    /// funds: `received` is the attached amount of that denomination, or
    /// `None` when none was attached.
    DepositMismatch { expected: AssetAmount, received: Option<u128> },
    /// Attached funds remain that no claimed deposit accounts for.
    ExtraFunds(AssetSet),
    /// An asset to remove is not present in the set.
    AssetNotFound(AssetKind),
    /// An amount exceeded the ledger's 128-bit width.
    Overflow,
    /// An amount would have gone below zero.
    Underflow,
    /// The computed offer amount is negative.
    NegativeAmount,
    /// A division's divisor was zero.
    DivisionByZero,
    /// No event carrying the given action was found in a callback's log.
    MissingEvent(String),
    /// The expected event lacks the given attribute.
    MissingAttribute(String),
    /// An event attribute that should be a decimal amount is not one that
    /// fits the ledger's width; carries the offending text.
    InvalidAmount(String),
    /// A callback arrived with an identifier this layer never issued.
    InvalidReplyId(u64),
    /// A callback arrived while no operation is in flight.
    NoCheckpoint,
    /// The minted shares fell short of the caller's minimum.
    Slippage { minimum: u128, minted: u128 },
}

} // verus!
