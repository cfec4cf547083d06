//! Optimal one-sided entry into a two-asset constant-product liquidity pool.
//!
//! Given a deposit of one or both pool assets, the library computes the swap
//! that balances the deposit against the pool's depths so that providing
//! liquidity afterwards mints the most shares, and it drives the multi-step
//! swap / provide-liquidity sequence as a state machine whose checkpoint is
//! persisted between the host's asynchronous callbacks.

use vstd::prelude::*;

pub mod asset;
pub mod bigint;
pub mod deposit;
pub mod error;
pub mod events;
pub mod math;
pub mod pool;
pub mod quote;
pub mod select;
pub mod zap;

verus! {

/// Commission rate of the constant-product pool, in basis points (0.30%).
pub const COMMISSION_RATE_BPS: u64 = 30;

} // verus!
