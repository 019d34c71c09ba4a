//! A verified constant-product automated-market-maker engine.
//!
//! Three components make up the core: `Pair` holds the reserves of two
//! tokens, mints and burns liquidity shares, and enforces the
//! constant-product invariant across swaps; `Factory` is the registry that
//! maps an unordered token pair to exactly one pair instance; `Router`
//! computes multi-hop swap and liquidity amounts over the registry and
//! drives the pairs, enforcing deadline and slippage bounds.
//!
//! The engine is pure state: the host that embeds it performs the actual
//! token-ledger transfers and hands the observed balances, the caller and
//! the current time in as arguments. Every state transition and every
//! arithmetic formula is specified in the contracts and proved.

pub mod factory;
pub mod math;
pub mod pair;
pub mod pausable;
pub mod router;
pub mod types;
