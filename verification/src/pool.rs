//! The external pool as this library sees it: its pair metadata and a
//! point-in-time snapshot of its depths and outstanding shares.

use vstd::prelude::*;
use vstd::string::StringExecFns;

use crate::asset::{kind_eq, AssetAmount, AssetKind};
use crate::error::ZapError;

verus! {

/// The pricing curve a pair runs. Only the constant-product variant is
/// supported here.
#[derive(Debug, PartialEq, Eq)]
pub enum PairType {
    Xyk,
    Stable,
    Custom(String),
}

impl Clone for PairType {
    fn clone(&self) -> (r: Self)
        ensures
            r == *self,
    {
        match self {
            PairType::Xyk => PairType::Xyk,
            PairType::Stable => PairType::Stable,
            PairType::Custom(s) => PairType::Custom(s.clone()),
        }
    }
}

/// The label a pair type goes by in error messages.
pub open spec fn pair_type_label(t: PairType) -> Seq<char> {
    match t {
        PairType::Xyk => "xyk"@,
        PairType::Stable => "stable"@,
        PairType::Custom(s) => s@,
    }
}

impl PairType {
    /// The type's label as a string.
    pub fn label(&self) -> (r: String)
        ensures
            r@ == pair_type_label(*self),
    {
        match self {
            PairType::Xyk => String::from_str("xyk"),
            PairType::Stable => String::from_str("stable"),
            PairType::Custom(s) => s.clone(),
        }
    }
}

/// A pair's immutable metadata: its curve type, the kinds of its two
/// constituent assets, and the contract of its liquidity-share token.
#[derive(Debug, PartialEq, Eq)]
pub struct PairMeta {
    pub pair_type: PairType,
    pub asset_a: AssetKind,
    pub asset_b: AssetKind,
    pub liquidity_token: String,
}

impl Clone for PairMeta {
    fn clone(&self) -> (r: Self)
        ensures
            r == *self,
    {
        PairMeta {
            pair_type: self.pair_type.clone(),
            asset_a: self.asset_a.clone(),
            asset_b: self.asset_b.clone(),
            liquidity_token: self.liquidity_token.clone(),
        }
    }
}

/// A snapshot of the pool: the depths of its two assets and the total
/// outstanding quantity of its liquidity-share token.
#[derive(Debug, PartialEq, Eq)]
pub struct PoolState {
    pub asset_a: AssetAmount,
    pub asset_b: AssetAmount,
    pub total_share: u128,
}

impl Clone for PoolState {
    fn clone(&self) -> (r: Self)
        ensures
            r == *self,
    {
        PoolState {
            asset_a: self.asset_a.clone(),
            asset_b: self.asset_b.clone(),
            total_share: self.total_share,
        }
    }
}

impl PoolState {
    /// The two pool assets are of different kinds.
    pub open spec fn distinct_kinds(&self) -> bool {
        !kind_eq(self.asset_a.kind, self.asset_b.kind)
    }

    /// Whether `k` is one of the pool's two constituent asset kinds.
    pub open spec fn contains_kind_spec(&self, k: AssetKind) -> bool {
        kind_eq(k, self.asset_a.kind) || kind_eq(k, self.asset_b.kind)
    }

    /// Whether `*k` is one of the pool's two constituent asset kinds.
    pub fn contains_kind(&self, k: &AssetKind) -> (r: bool)
        ensures
            r == self.contains_kind_spec(*k),
    {
        k.matches(&self.asset_a.kind) || k.matches(&self.asset_b.kind)
    }
}

/// Accept only the constant-product pair type; any other is rejected with
/// its label.
pub fn assert_pair_type(pair_type: &PairType) -> (r: Result<(), ZapError>)
    ensures
        match r {
            Ok(()) => *pair_type is Xyk,
            Err(e) => {
                &&& !(*pair_type is Xyk)
                &&& e matches ZapError::UnsupportedPairType(label) && label@ == pair_type_label(
                    *pair_type,
                )
            },
        },
{
    match pair_type {
        PairType::Xyk => Ok(()),
        pt => Err(ZapError::UnsupportedPairType(pt.label())),
    }
}

} // verus!
