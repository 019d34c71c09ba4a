//! Shared primitive types of the engine.
//!
//! Token contracts, holders and pair instances are identified by opaque
//! numeric account identifiers; the identifier `0` is the null (burn)
//! sentinel. Token amounts and liquidity shares are unsigned 128-bit
//! integers, the native balance width of the host chain.

use vstd::prelude::*;

verus! {

/// An account identifier: a token contract, a holder, or a pair instance.
pub type AccountId = u128;

/// A token amount or an amount of liquidity shares.
pub type Balance = u128;

/// The null account: owns nothing, can never receive funds, and serves as
/// the burn sentinel for permanently locked liquidity shares.
pub const ZERO_ACCOUNT: AccountId = 0;

} // verus!
