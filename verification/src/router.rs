//! The orchestration layer: computes multi-hop swap and liquidity
//! amounts over the factory's registry and the live pair reserves, and
//! drives the pairs, enforcing the caller's deadline and slippage bounds.
//!
//! The router holds no domain state of its own. Methods that need the
//! registry and the pairs take them as arguments: the registry entry at
//! index `i` corresponds to `pairs[i]`, whose account identifier is
//! `i + 1` (see `pairs_track`); the host keeps the two in step.

use vstd::prelude::*;

verus! {

use crate::factory::{canonical_order, Factory};
use crate::pair::{Pair, PairEvent, PendingSwap, FEE_DENOMINATOR, FEE_NUMERATOR};
use crate::types::{AccountId, Balance, ZERO_ACCOUNT};

/// Errors of the router.
#[derive(Debug, Clone, Copy, PartialEq, Eq, Structural)]
pub enum Error {
    /// The deadline passed before the call ran.
    Expired,
    /// The final output falls short of the caller's minimum.
    InsufficientOutputAmount,
    /// The first token's amount falls short of the caller's minimum.
    InsufficientAAmount,
    /// The second token's amount falls short of the caller's minimum.
    InsufficientBAmount,
    /// The required input exceeds the caller's maximum.
    ExcessiveInputAmount,
    /// The path holds fewer than two tokens.
    InvalidPath,
    /// The two token identifiers are the same.
    IdenticalAddresses,
    /// A token or account identifier is the null sentinel.
    ZeroAddress,
    /// A zero amount was quoted.
    ZeroAmount,
    /// A reserve needed for a quote is empty.
    InsufficientLiquidity,
    /// No pair is registered for a hop of the path.
    PairNotFound,
    /// A pair refused a hop of the swap, or the hops cannot run as one
    /// atomic call.
    SwapFailed,
    /// A call into a pair or a token ledger failed.
    CallFailed,
    /// Checked arithmetic overflowed.
    ArithmeticError,
}

/// Event: a multi-hop swap ran, with the amount vector it moved.
#[derive(Debug, Clone, PartialEq, Eq)]
pub struct SwapExecuted {
    pub sender: AccountId,
    pub path: Vec<AccountId>,
    pub amounts: Vec<Balance>,
}

/// Event: liquidity was added through the router.
#[derive(Debug, Clone, Copy, PartialEq, Eq, Structural)]
pub struct LiquidityAdded {
    pub provider: AccountId,
    pub token_a: AccountId,
    pub token_b: AccountId,
    pub amount_a: Balance,
    pub amount_b: Balance,
    pub liquidity: Balance,
}

/// Event: liquidity was removed through the router.
#[derive(Debug, Clone, Copy, PartialEq, Eq, Structural)]
pub struct LiquidityRemoved {
    pub provider: AccountId,
    pub token_a: AccountId,
    pub token_b: AccountId,
    pub amount_a: Balance,
    pub amount_b: Balance,
}

/// A router event, in emission order.
#[derive(Debug, Clone, PartialEq, Eq)]
pub enum RouterEvent {
    SwapExecuted(SwapExecuted),
    LiquidityAdded(LiquidityAdded),
    LiquidityRemoved(LiquidityRemoved),
}

/// The pairs vector mirrors the registry: entry `i` of both describe the
/// same pair, whose account identifier is `i + 1`, and every pair is
/// well-formed.
pub open spec fn pairs_track(factory: Factory, pairs: Seq<Pair>) -> bool {
    &&& pairs.len() == factory.all_pairs@.len()
    &&& forall|i: int| 0 <= i < pairs.len() ==> {
        &&& (#[trigger] pairs[i]).token0 == factory.all_pairs@[i].token0
        &&& pairs[i].token1 == factory.all_pairs@[i].token1
        &&& pairs[i].pair_account == factory.all_pairs@[i].pair
        &&& pairs[i].wf()
    }
}

/// What `quote` returns: `amount_a * reserve_b / reserve_a`, the amount
/// of the second token matching `amount_a` at the current price ratio.
pub open spec fn spec_quote(amount_a: Balance, reserve_a: Balance, reserve_b: Balance) -> Result<
    Balance,
    Error,
> {
    if amount_a == 0 {
        Err(Error::ZeroAmount)
    } else if reserve_a == 0 || reserve_b == 0 {
        Err(Error::InsufficientLiquidity)
    } else if amount_a * reserve_b > u128::MAX {
        Err(Error::ArithmeticError)
    } else {
        Ok((amount_a * reserve_b / reserve_a as int) as Balance)
    }
}

/// What the router's output quote returns: the pair formula
/// `floor(amount_in * 997 * reserve_out / (reserve_in * 1000 + amount_in * 997))`
/// under the router's error names.
pub open spec fn spec_amount_out(
    amount_in: Balance,
    reserve_in: Balance,
    reserve_out: Balance,
) -> Result<Balance, Error> {
    if amount_in == 0 {
        Err(Error::ZeroAmount)
    } else if reserve_in == 0 || reserve_out == 0 {
        Err(Error::InsufficientLiquidity)
    } else if amount_in * 997 > u128::MAX {
        Err(Error::ArithmeticError)
    } else if amount_in * 997 * reserve_out > u128::MAX {
        Err(Error::ArithmeticError)
    } else if reserve_in * 1000 + amount_in * 997 > u128::MAX {
        Err(Error::ArithmeticError)
    } else {
        Ok((amount_in * 997 * reserve_out / (reserve_in * 1000 + amount_in * 997)) as Balance)
    }
}

/// What the router's input quote returns:
/// `floor(reserve_in * amount_out * 1000 / ((reserve_out - amount_out) * 997)) + 1`.
pub open spec fn spec_amount_in(
    amount_out: Balance,
    reserve_in: Balance,
    reserve_out: Balance,
) -> Result<Balance, Error> {
    if amount_out == 0 {
        Err(Error::ZeroAmount)
    } else if reserve_in == 0 || reserve_out == 0 {
        Err(Error::InsufficientLiquidity)
    } else if amount_out >= reserve_out {
        Err(Error::InsufficientLiquidity)
    } else if reserve_in * amount_out > u128::MAX {
        Err(Error::ArithmeticError)
    } else if reserve_in * amount_out * 1000 > u128::MAX {
        Err(Error::ArithmeticError)
    } else if (reserve_out - amount_out) * 997 > u128::MAX {
        Err(Error::ArithmeticError)
    } else {
        Ok(
            (reserve_in * amount_out * 1000 / ((reserve_out - amount_out) * 997) + 1) as Balance,
        )
    }
}

/// The reserves a hop from `token_a` to `token_b` sees, oriented so the
/// first component is the reserve of `token_a`.
pub open spec fn spec_reserves(
    factory: Factory,
    pairs: Seq<Pair>,
    token_a: AccountId,
    token_b: AccountId,
) -> Result<(Balance, Balance), Error> {
    if token_a == token_b {
        Err(Error::IdenticalAddresses)
    } else if token_a == ZERO_ACCOUNT || token_b == ZERO_ACCOUNT {
        Err(Error::ZeroAddress)
    } else {
        match factory.spec_get_pair_address(token_a, token_b) {
            None => Err(Error::PairNotFound),
            Some(pair_id) => {
                let pair = pairs[pair_id as int - 1];
                if token_a == canonical_order(token_a, token_b).0 {
                    Ok((pair.reserve0, pair.reserve1))
                } else {
                    Ok((pair.reserve1, pair.reserve0))
                }
            },
        }
    }
}

/// The stateless orchestration service.
pub struct Router {
    /// The registry's account identifier, kept as configuration.
    pub factory: AccountId,
    /// The wrapped native token's account identifier.
    pub wbzc: AccountId,
    /// Emitted events, in order.
    pub events: Vec<RouterEvent>,
}

impl Router {
    /// A fresh router bound to a factory and a wrapped native token.
    pub fn new(factory: AccountId, wbzc: AccountId) -> (r: Router)
        ensures
            r.factory == factory,
            r.wbzc == wbzc,
            r.events@ =~= Seq::<RouterEvent>::empty(),
    {
        Router { factory, wbzc, events: Vec::new() }
    }

    /// The configured factory identifier.
    pub fn factory(&self) -> (r: AccountId)
        ensures
            r == self.factory,
    {
        self.factory
    }

    /// The configured wrapped-native-token identifier.
    pub fn wbzc(&self) -> (r: AccountId)
        ensures
            r == self.wbzc,
    {
        self.wbzc
    }

    /// How much of the second token matches `amount_a` of the first at
    /// the current price ratio; fails on a zero amount or empty reserve.
    pub fn quote(&self, amount_a: Balance, reserve_a: Balance, reserve_b: Balance) -> (r: Result<
        Balance,
        Error,
    >)
        ensures
            r == spec_quote(amount_a, reserve_a, reserve_b),
    {
        if amount_a == 0 {
            return Err(Error::ZeroAmount);
        }
        if reserve_a == 0 || reserve_b == 0 {
            return Err(Error::InsufficientLiquidity);
        }
        let scaled = match amount_a.checked_mul(reserve_b) {
            Some(v) => v,
            None => {
                return Err(Error::ArithmeticError);
            },
        };
        Ok(scaled / reserve_a)
    }

    /// Output quote for an exact input, after the 0.3% fee.
    pub fn get_amount_out(
        &self,
        amount_in: Balance,
        reserve_in: Balance,
        reserve_out: Balance,
    ) -> (r: Result<Balance, Error>)
        ensures
            r == spec_amount_out(amount_in, reserve_in, reserve_out),
    {
        if amount_in == 0 {
            return Err(Error::ZeroAmount);
        }
        if reserve_in == 0 || reserve_out == 0 {
            return Err(Error::InsufficientLiquidity);
        }
        let amount_in_with_fee = match amount_in.checked_mul(997) {
            Some(v) => v,
            None => {
                return Err(Error::ArithmeticError);
            },
        };
        let numerator = match amount_in_with_fee.checked_mul(reserve_out) {
            Some(v) => v,
            None => {
                return Err(Error::ArithmeticError);
            },
        };
        let scaled_reserve = match reserve_in.checked_mul(1000) {
            Some(v) => v,
            None => {
                return Err(Error::ArithmeticError);
            },
        };
        let denominator = match scaled_reserve.checked_add(amount_in_with_fee) {
            Some(v) => v,
            None => {
                return Err(Error::ArithmeticError);
            },
        };
        Ok(numerator / denominator)
    }

    /// Input quote for an exact output, rounded up.
    pub fn get_amount_in(
        &self,
        amount_out: Balance,
        reserve_in: Balance,
        reserve_out: Balance,
    ) -> (r: Result<Balance, Error>)
        ensures
            r == spec_amount_in(amount_out, reserve_in, reserve_out),
    {
        if amount_out == 0 {
            return Err(Error::ZeroAmount);
        }
        if reserve_in == 0 || reserve_out == 0 {
            return Err(Error::InsufficientLiquidity);
        }
        if amount_out >= reserve_out {
            return Err(Error::InsufficientLiquidity);
        }
        let scaled = match reserve_in.checked_mul(amount_out) {
            Some(v) => v,
            None => {
                return Err(Error::ArithmeticError);
            },
        };
        let numerator = match scaled.checked_mul(1000) {
            Some(v) => v,
            None => {
                return Err(Error::ArithmeticError);
            },
        };
        let denominator = match (reserve_out - amount_out).checked_mul(997) {
            Some(v) => v,
            None => {
                return Err(Error::ArithmeticError);
            },
        };
        let quotient = numerator / denominator;
        proof {
            vstd::arithmetic::div_mod::lemma_div_is_ordered_by_denominator(
                numerator as int,
                2,
                denominator as int,
            );
            vstd::arithmetic::div_mod::lemma_fundamental_div_mod(numerator as int, 2);
            vstd::arithmetic::div_mod::lemma_mod_bound(numerator as int, 2);
        }
        Ok(quotient + 1)
    }

    /// The reserves a hop from `token_a` to `token_b` sees, read from
    /// the pair the registry binds to the two tokens and oriented so the
    /// first component belongs to `token_a`.
    fn pair_reserves(
        &self,
        token_a: AccountId,
        token_b: AccountId,
        factory: &Factory,
        pairs: &Vec<Pair>,
    ) -> (r: Result<(Balance, Balance), Error>)
        requires
            factory.wf(),
            pairs_track(*factory, pairs@),
        ensures
            r == spec_reserves(*factory, pairs@, token_a, token_b),
    {
        if token_a == token_b {
            return Err(Error::IdenticalAddresses);
        }
        if token_a == ZERO_ACCOUNT || token_b == ZERO_ACCOUNT {
            return Err(Error::ZeroAddress);
        }
        let pair_id = match factory.get_pair_address(token_a, token_b) {
            Some(p) => p,
            None => {
                return Err(Error::PairNotFound);
            },
        };
        proof {
            crate::factory::lemma_first_match_is_entry(
                factory.all_pairs@,
                canonical_order(token_a, token_b).0,
                canonical_order(token_a, token_b).1,
            );
            assert(1 <= pair_id as int <= pairs@.len());
        }
        let index = (pair_id - 1) as usize;
        let pair = &pairs[index];
        if token_a < token_b {
            Ok((pair.reserve0, pair.reserve1))
        } else {
            Ok((pair.reserve1, pair.reserve0))
        }
    }

    /// The matched deposit amounts for adding liquidity: the desired
    /// amounts on a fresh pool, else the optimal counterpart at the
    /// current price ratio, held against the caller's minimums.
    fn calculate_liquidity_amounts(
        &self,
        token_a: AccountId,
        token_b: AccountId,
        amount_a_desired: Balance,
        amount_b_desired: Balance,
        amount_a_min: Balance,
        amount_b_min: Balance,
        factory: &Factory,
        pairs: &Vec<Pair>,
    ) -> (r: Result<(Balance, Balance), Error>)
        requires
            factory.wf(),
            pairs_track(*factory, pairs@),
        ensures
            r == spec_calc_liquidity(
                *factory,
                pairs@,
                token_a,
                token_b,
                amount_a_desired,
                amount_b_desired,
                amount_a_min,
                amount_b_min,
            ),
    {
        let reserves = match self.pair_reserves(token_a, token_b, factory, pairs) {
            Ok(v) => v,
            Err(_) => {
                return Ok((amount_a_desired, amount_b_desired));
            },
        };
        if reserves.0 == 0 && reserves.1 == 0 {
            return Ok((amount_a_desired, amount_b_desired));
        }
        let b_optimal = match self.quote(amount_a_desired, reserves.0, reserves.1) {
            Ok(v) => v,
            Err(e) => {
                return Err(e);
            },
        };
        if b_optimal <= amount_b_desired {
            if b_optimal < amount_b_min {
                Err(Error::InsufficientBAmount)
            } else {
                Ok((amount_a_desired, b_optimal))
            }
        } else {
            let a_optimal = match self.quote(amount_b_desired, reserves.1, reserves.0) {
                Ok(v) => v,
                Err(e) => {
                    return Err(e);
                },
            };
            if a_optimal > amount_a_desired {
                Err(Error::InsufficientAAmount)
            } else if a_optimal < amount_a_min {
                Err(Error::InsufficientAAmount)
            } else {
                Ok((a_optimal, amount_b_desired))
            }
        }
    }

    /// Adds liquidity to the pair of two tokens: matches the deposit to
    /// the current price ratio, then mints shares to `to` against the
    /// grown balances. The host must have moved the matched amounts
    /// into the pair; a failing call leaves every pair untouched.
    pub fn add_liquidity(
        &mut self,
        caller: AccountId,
        token_a: AccountId,
        token_b: AccountId,
        amount_a_desired: Balance,
        amount_b_desired: Balance,
        amount_a_min: Balance,
        amount_b_min: Balance,
        to: AccountId,
        deadline: u64,
        now: u64,
        factory: &Factory,
        pairs: &mut Vec<Pair>,
    ) -> (r: Result<(Balance, Balance, Balance), Error>)
        requires
            factory.wf(),
            pairs_track(*factory, old(pairs)@),
        ensures
            pairs_track(*factory, final(pairs)@),
            final(self).factory == old(self).factory,
            final(self).wbzc == old(self).wbzc,
            match spec_add_liquidity_outcome(
                *factory,
                old(pairs)@,
                token_a,
                token_b,
                amount_a_desired,
                amount_b_desired,
                amount_a_min,
                amount_b_min,
                to,
                deadline,
                now,
            ) {
                Ok((amount_a, amount_b, liq)) => {
                    let idx = factory.spec_get_pair_address(token_a, token_b).unwrap() as int - 1;
                    let pre = old(pairs)@[idx];
                    let amount0 = if token_a == canonical_order(token_a, token_b).0 {
                        amount_a
                    } else {
                        amount_b
                    };
                    let amount1 = if token_a == canonical_order(token_a, token_b).0 {
                        amount_b
                    } else {
                        amount_a
                    };
                    &&& r == Ok::<(Balance, Balance, Balance), Error>((amount_a, amount_b, liq))
                    &&& final(pairs)@ == old(pairs)@.update(idx, final(pairs)@[idx])
                    &&& pre.spec_mint_applied(
                        final(pairs)@[idx],
                        caller,
                        to,
                        (pre.reserve0 + amount0) as Balance,
                        (pre.reserve1 + amount1) as Balance,
                        now,
                        liq,
                    )
                    &&& final(self).events@ == old(self).events@.push(
                        RouterEvent::LiquidityAdded(
                            LiquidityAdded {
                                provider: caller,
                                token_a,
                                token_b,
                                amount_a,
                                amount_b,
                                liquidity: liq,
                            },
                        ),
                    )
                },
                Err(e) => r == Err::<(Balance, Balance, Balance), Error>(e) && final(pairs)@
                    == old(pairs)@ && final(self).events@ == old(self).events@,
            },
    {
        if now > deadline {
            return Err(Error::Expired);
        }
        let amounts = match self.calculate_liquidity_amounts(
            token_a,
            token_b,
            amount_a_desired,
            amount_b_desired,
            amount_a_min,
            amount_b_min,
            factory,
            pairs,
        ) {
            Ok(v) => v,
            Err(e) => {
                return Err(e);
            },
        };
        let amount_a = amounts.0;
        let amount_b = amounts.1;
        let pair_id = match factory.get_pair_address(token_a, token_b) {
            Some(p) => p,
            None => {
                return Err(Error::PairNotFound);
            },
        };
        proof {
            crate::factory::lemma_first_match_is_entry(
                factory.all_pairs@,
                canonical_order(token_a, token_b).0,
                canonical_order(token_a, token_b).1,
            );
            assert(1 <= pair_id as int <= pairs@.len());
        }
        let index = (pair_id - 1) as usize;
        let (amount0, amount1) = if token_a < token_b {
            (amount_a, amount_b)
        } else {
            (amount_b, amount_a)
        };
        let balance0 = match pairs[index].reserve0.checked_add(amount0) {
            Some(v) => v,
            None => {
                return Err(Error::CallFailed);
            },
        };
        let balance1 = match pairs[index].reserve1.checked_add(amount1) {
            Some(v) => v,
            None => {
                return Err(Error::CallFailed);
            },
        };
        let pair_ref = &mut pairs[index];
        let minted = pair_ref.mint(caller, to, balance0, balance1, now);
        match minted {
            Ok(liq) => {
                self.events.push(
                    RouterEvent::LiquidityAdded(
                        LiquidityAdded {
                            provider: caller,
                            token_a,
                            token_b,
                            amount_a,
                            amount_b,
                            liquidity: liq,
                        },
                    ),
                );
                proof {
                    assert(pairs@ =~= old(pairs)@.update(index as int, pairs@[index as int]));
                }
                Ok((amount_a, amount_b, liq))
            },
            Err(_) => {
                proof {
                    assert(pairs@ =~= old(pairs)@);
                }
                Err(Error::CallFailed)
            },
        }
    }

    /// Removes liquidity from the pair of two tokens: moves the
    /// caller's shares into the pair's own account, burns them there,
    /// and holds the paid-out amounts against the caller's minimums.
    /// The returned amounts are what the host must transfer to `to`; a
    /// failing call leaves every pair untouched.
    pub fn remove_liquidity(
        &mut self,
        caller: AccountId,
        token_a: AccountId,
        token_b: AccountId,
        liquidity: Balance,
        amount_a_min: Balance,
        amount_b_min: Balance,
        to: AccountId,
        deadline: u64,
        now: u64,
        factory: &Factory,
        pairs: &mut Vec<Pair>,
    ) -> (r: Result<(Balance, Balance), Error>)
        requires
            factory.wf(),
            pairs_track(*factory, old(pairs)@),
        ensures
            pairs_track(*factory, final(pairs)@),
            final(self).factory == old(self).factory,
            final(self).wbzc == old(self).wbzc,
            match spec_remove_liquidity_outcome(
                *factory,
                old(pairs)@,
                caller,
                token_a,
                token_b,
                liquidity,
                amount_a_min,
                amount_b_min,
                to,
                deadline,
                now,
            ) {
                Ok((amount_a, amount_b)) => {
                    let idx = factory.spec_get_pair_address(token_a, token_b).unwrap() as int - 1;
                    &&& r == Ok::<(Balance, Balance), Error>((amount_a, amount_b))
                    &&& final(pairs)@ == old(pairs)@.update(idx, final(pairs)@[idx])
                    &&& spec_remove_applied(
                        old(pairs)@[idx],
                        final(pairs)@[idx],
                        caller,
                        to,
                        liquidity,
                        now,
                    )
                    &&& final(self).events@ == old(self).events@.push(
                        RouterEvent::LiquidityRemoved(
                            LiquidityRemoved {
                                provider: caller,
                                token_a,
                                token_b,
                                amount_a,
                                amount_b,
                            },
                        ),
                    )
                },
                Err(e) => r == Err::<(Balance, Balance), Error>(e) && final(pairs)@ == old(
                    pairs,
                )@ && final(self).events@ == old(self).events@,
            },
    {
        if now > deadline {
            return Err(Error::Expired);
        }
        let pair_id = match factory.get_pair_address(token_a, token_b) {
            Some(p) => p,
            None => {
                return Err(Error::PairNotFound);
            },
        };
        proof {
            crate::factory::lemma_first_match_is_entry(
                factory.all_pairs@,
                canonical_order(token_a, token_b).0,
                canonical_order(token_a, token_b).1,
            );
            assert(1 <= pair_id as int <= pairs@.len());
        }
        let index = (pair_id - 1) as usize;
        if pairs[index].is_locked() {
            return Err(Error::CallFailed);
        }
        if to == ZERO_ACCOUNT {
            return Err(Error::CallFailed);
        }
        let pair_account = pairs[index].pair_account;
        let caller_balance = pairs[index].balance_of(caller);
        if caller_balance < liquidity {
            return Err(Error::CallFailed);
        }
        let pair_balance = pairs[index].balance_of(pair_account);
        let held: Balance;
        if caller == pair_account {
            held = pair_balance;
        } else {
            held = match pair_balance.checked_add(liquidity) {
                Some(v) => v,
                None => {
                    return Err(Error::CallFailed);
                },
            };
        }
        if held == 0 {
            return Err(Error::CallFailed);
        }
        let reserve0 = pairs[index].reserve0;
        let reserve1 = pairs[index].reserve1;
        let supply = pairs[index].total_supply;
        let scaled0 = match held.checked_mul(reserve0) {
            Some(v) => v,
            None => {
                return Err(Error::CallFailed);
            },
        };
        if supply == 0 {
            return Err(Error::CallFailed);
        }
        let scaled1 = match held.checked_mul(reserve1) {
            Some(v) => v,
            None => {
                return Err(Error::CallFailed);
            },
        };
        let amount0 = scaled0 / supply;
        let amount1 = scaled1 / supply;
        if amount0 == 0 || amount1 == 0 {
            return Err(Error::CallFailed);
        }
        if held > supply {
            return Err(Error::CallFailed);
        }
        let (amount_a, amount_b) = if token_a < token_b {
            (amount0, amount1)
        } else {
            (amount1, amount0)
        };
        if amount_a < amount_a_min {
            return Err(Error::InsufficientAAmount);
        }
        if amount_b < amount_b_min {
            return Err(Error::InsufficientBAmount);
        }
        let pair_ref = &mut pairs[index];
        let moved = pair_ref.transfer(caller, pair_account, liquidity);
        proof {
            assert(moved is Ok);
            assert(pair_ref.spec_balance_of(pair_account) == held);
        }
        let burned = pair_ref.burn(caller, to, now);
        proof {
            assert(burned == Ok::<(Balance, Balance), crate::pair::Error>((amount0, amount1)));
            assert(pairs@ =~= old(pairs)@.update(index as int, pairs@[index as int]));
        }
        self.events.push(
            RouterEvent::LiquidityRemoved(
                LiquidityRemoved { provider: caller, token_a, token_b, amount_a, amount_b },
            ),
        );
        Ok((amount_a, amount_b))
    }

    /// Swaps an exact amount of the first path token for as much of the
    /// last as the pools give, failing if the result falls short of
    /// `amount_out_min`; intermediate outputs route straight into the
    /// next pair. The whole run is atomic: a failing call leaves every
    /// pair untouched.
    pub fn swap_exact_tokens_for_tokens(
        &mut self,
        caller: AccountId,
        amount_in: Balance,
        amount_out_min: Balance,
        path: &Vec<AccountId>,
        to: AccountId,
        deadline: u64,
        now: u64,
        factory: &Factory,
        pairs: &mut Vec<Pair>,
    ) -> (r: Result<Vec<Balance>, Error>)
        requires
            factory.wf(),
            pairs_track(*factory, old(pairs)@),
        ensures
            pairs_track(*factory, final(pairs)@),
            final(self).factory == old(self).factory,
            final(self).wbzc == old(self).wbzc,
            match spec_swap_exact_in_outcome(
                *factory,
                old(pairs)@,
                caller,
                amount_in,
                amount_out_min,
                path@,
                to,
                deadline,
                now,
            ) {
                Ok(s) => {
                    &&& r matches Ok(v) && v@ == s
                    &&& spec_swap_applied(
                        *factory,
                        old(pairs)@,
                        final(pairs)@,
                        s,
                        path@,
                        caller,
                        to,
                        now,
                    )
                    &&& final(self).events@ == old(self).events@.push(
                        final(self).events@.last(),
                    )
                    &&& final(self).events@.last() matches RouterEvent::SwapExecuted(se)
                        && se.sender == caller && se.path@ == path@ && se.amounts@ == s
                },
                Err(e) => r == Err::<Vec<Balance>, Error>(e) && final(pairs)@ == old(pairs)@
                    && final(self).events@ == old(self).events@,
            },
    {
        if now > deadline {
            return Err(Error::Expired);
        }
        let amounts = match self.get_amounts_out(amount_in, path, factory, pairs) {
            Ok(v) => v,
            Err(e) => {
                return Err(e);
            },
        };
        proof {
            lemma_amounts_out_prefix_ok(
                *factory,
                pairs@,
                amount_in,
                path@,
                path@.len() - 1,
            );
        }
        if amounts[amounts.len() - 1] < amount_out_min {
            return Err(Error::InsufficientOutputAmount);
        }
        if !Self::check_swap_plan(caller, &amounts, path, to, factory, pairs) {
            return Err(Error::SwapFailed);
        }
        execute_swap_hops(caller, &amounts, path, to, now, factory, pairs);
        let recorded_path = path.clone();
        let recorded_amounts = amounts.clone();
        proof {
            assert(recorded_path@ =~= path@);
            assert(recorded_amounts@ =~= amounts@);
        }
        self.events.push(
            RouterEvent::SwapExecuted(
                SwapExecuted { sender: caller, path: recorded_path, amounts: recorded_amounts },
            ),
        );
        Ok(amounts)
    }

    /// Swaps as little of the first path token as the pools demand for
    /// an exact amount of the last, failing if the required input
    /// exceeds `amount_in_max`. The whole run is atomic: a failing call
    /// leaves every pair untouched.
    pub fn swap_tokens_for_exact_tokens(
        &mut self,
        caller: AccountId,
        amount_out: Balance,
        amount_in_max: Balance,
        path: &Vec<AccountId>,
        to: AccountId,
        deadline: u64,
        now: u64,
        factory: &Factory,
        pairs: &mut Vec<Pair>,
    ) -> (r: Result<Vec<Balance>, Error>)
        requires
            factory.wf(),
            pairs_track(*factory, old(pairs)@),
        ensures
            pairs_track(*factory, final(pairs)@),
            final(self).factory == old(self).factory,
            final(self).wbzc == old(self).wbzc,
            match spec_swap_exact_out_outcome(
                *factory,
                old(pairs)@,
                caller,
                amount_out,
                amount_in_max,
                path@,
                to,
                deadline,
                now,
            ) {
                Ok(s) => {
                    &&& r matches Ok(v) && v@ == s
                    &&& spec_swap_applied(
                        *factory,
                        old(pairs)@,
                        final(pairs)@,
                        s,
                        path@,
                        caller,
                        to,
                        now,
                    )
                    &&& final(self).events@ == old(self).events@.push(
                        final(self).events@.last(),
                    )
                    &&& final(self).events@.last() matches RouterEvent::SwapExecuted(se)
                        && se.sender == caller && se.path@ == path@ && se.amounts@ == s
                },
                Err(e) => r == Err::<Vec<Balance>, Error>(e) && final(pairs)@ == old(pairs)@
                    && final(self).events@ == old(self).events@,
            },
    {
        if now > deadline {
            return Err(Error::Expired);
        }
        let amounts = match self.get_amounts_in(amount_out, path, factory, pairs) {
            Ok(v) => v,
            Err(e) => {
                return Err(e);
            },
        };
        proof {
            lemma_amounts_in_suffix_ok(
                *factory,
                pairs@,
                amount_out,
                path@,
                path@.len() - 1,
            );
        }
        if amounts[0] > amount_in_max {
            return Err(Error::ExcessiveInputAmount);
        }
        if !Self::check_swap_plan(caller, &amounts, path, to, factory, pairs) {
            return Err(Error::SwapFailed);
        }
        execute_swap_hops(caller, &amounts, path, to, now, factory, pairs);
        let recorded_path = path.clone();
        let recorded_amounts = amounts.clone();
        proof {
            assert(recorded_path@ =~= path@);
            assert(recorded_amounts@ =~= amounts@);
        }
        self.events.push(
            RouterEvent::SwapExecuted(
                SwapExecuted { sender: caller, path: recorded_path, amounts: recorded_amounts },
            ),
        );
        Ok(amounts)
    }

    /// Decides executably whether a multi-hop plan can run atomically:
    /// every hop must have its own distinct, existing pair, and every
    /// hop must go through on it.
    fn check_swap_plan(
        caller: AccountId,
        amounts: &Vec<Balance>,
        path: &Vec<AccountId>,
        to: AccountId,
        factory: &Factory,
        pairs: &Vec<Pair>,
    ) -> (r: bool)
        requires
            factory.wf(),
            pairs_track(*factory, pairs@),
            2 <= path@.len(),
            amounts@.len() == path@.len(),
            forall|i: int|
                0 <= i < path@.len() - 1 ==> (#[trigger] spec_reserves(
                    *factory,
                    pairs@,
                    path@[i],
                    path@[i + 1],
                )) is Ok,
        ensures
            r == spec_swap_plan_ok(*factory, pairs@, amounts@, path@, caller, to),
    {
        let ghost n_hops = path@.len() - 1;
        let mut i: usize = 0;
        while i < path.len() - 1
            invariant
                factory.wf(),
                pairs_track(*factory, pairs@),
                n_hops == path@.len() - 1,
                2 <= path@.len(),
                amounts@.len() == path@.len(),
                i <= n_hops,
                forall|ii: int|
                    0 <= ii < n_hops ==> (#[trigger] spec_reserves(
                        *factory,
                        pairs@,
                        path@[ii],
                        path@[ii + 1],
                    )) is Ok,
                forall|a: int, b: int|
                    0 <= a < b < i ==> #[trigger] spec_hop_index(*factory, path@, a)
                        != #[trigger] spec_hop_index(*factory, path@, b),
                forall|ii: int|
                    0 <= ii < i ==> 0 <= #[trigger] spec_hop_index(*factory, path@, ii)
                        < pairs@.len(),
                forall|ii: int|
                    0 <= ii < i ==> spec_hop_ok(
                        pairs@[#[trigger] spec_hop_index(*factory, path@, ii)],
                        amounts@[ii],
                        amounts@[ii + 1],
                        spec_input_is_token0(path@, ii),
                        caller,
                        spec_hop_recipient(*factory, path@, to, ii),
                    ),
            decreases n_hops - i,
        {
            proof {
                assert(spec_reserves(*factory, pairs@, path@[i as int], path@[i as int + 1])
                    is Ok);
                crate::factory::lemma_first_match_is_entry(
                    factory.all_pairs@,
                    canonical_order(path@[i as int], path@[i as int + 1]).0,
                    canonical_order(path@[i as int], path@[i as int + 1]).1,
                );
            }
            let pair_id = factory.get_pair_address(path[i], path[i + 1]).unwrap();
            let index = (pair_id - 1) as usize;
            let mut j: usize = 0;
            while j < i
                invariant
                    factory.wf(),
                    n_hops == path@.len() - 1,
                    j <= i < n_hops,
                    forall|ii: int|
                        0 <= ii < n_hops ==> (#[trigger] spec_reserves(
                            *factory,
                            pairs@,
                            path@[ii],
                            path@[ii + 1],
                        )) is Ok,
                    pair_id == factory.spec_get_pair_address(
                        path@[i as int],
                        path@[i as int + 1],
                    ).unwrap(),
                    index as int == spec_hop_index(*factory, path@, i as int),
                    forall|jj: int|
                        0 <= jj < j ==> spec_hop_index(*factory, path@, jj) != spec_hop_index(
                            *factory,
                            path@,
                            i as int,
                        ),
                decreases i - j,
            {
                proof {
                    assert(spec_reserves(*factory, pairs@, path@[j as int], path@[j as int + 1])
                        is Ok);
                }
                let other_id = factory.get_pair_address(path[j], path[j + 1]).unwrap();
                if other_id == pair_id {
                    proof {
                        assert(spec_hop_index(*factory, path@, j as int) == spec_hop_index(
                            *factory,
                            path@,
                            i as int,
                        ));
                        assert(!spec_swap_plan_ok(*factory, pairs@, amounts@, path@, caller, to));
                    }
                    return false;
                }
                j = j + 1;
            }
            let recipient: AccountId;
            if i + 2 < path.len() {
                proof {
                    let next = i as int + 1;
                    assert(spec_reserves(*factory, pairs@, path@[next], path@[next + 1]) is Ok);
                }
                recipient = factory.get_pair_address(path[i + 1], path[i + 2]).unwrap();
            } else {
                recipient = to;
            }
            let input_is0 = path[i] < path[i + 1];
            if !check_hop(&pairs[index], amounts[i], amounts[i + 1], input_is0, caller, recipient)
                {
                proof {
                    assert(index as int == spec_hop_index(*factory, path@, i as int));
                    assert(recipient == spec_hop_recipient(*factory, path@, to, i as int));
                    assert(!spec_hop_ok(
                        pairs@[spec_hop_index(*factory, path@, i as int)],
                        amounts@[i as int],
                        amounts@[i as int + 1],
                        spec_input_is_token0(path@, i as int),
                        caller,
                        spec_hop_recipient(*factory, path@, to, i as int),
                    ));
                    assert(!spec_swap_plan_ok(*factory, pairs@, amounts@, path@, caller, to));
                }
                return false;
            }
            proof {
                assert(index as int == spec_hop_index(*factory, path@, i as int));
                assert(0 <= spec_hop_index(*factory, path@, i as int) < pairs@.len());
                assert(recipient == spec_hop_recipient(*factory, path@, to, i as int));
                assert(spec_hop_ok(
                    pairs@[spec_hop_index(*factory, path@, i as int)],
                    amounts@[i as int],
                    amounts@[i as int + 1],
                    spec_input_is_token0(path@, i as int),
                    caller,
                    spec_hop_recipient(*factory, path@, to, i as int),
                ));
            }
            i = i + 1;
        }
        true
    }

    /// The amount vector of a multi-hop swap for an exact input: entry 0
    /// is `amount_in`, and each following entry is the output quote of
    /// the previous one against that hop's live reserves.
    pub fn get_amounts_out(
        &self,
        amount_in: Balance,
        path: &Vec<AccountId>,
        factory: &Factory,
        pairs: &Vec<Pair>,
    ) -> (r: Result<Vec<Balance>, Error>)
        requires
            factory.wf(),
            pairs_track(*factory, pairs@),
        ensures
            match spec_amounts_out(*factory, pairs@, amount_in, path@) {
                Ok(s) => r matches Ok(v) && v@ == s,
                Err(e) => r == Err::<Vec<Balance>, Error>(e),
            },
    {
        if path.len() < 2 {
            return Err(Error::InvalidPath);
        }
        let ghost n_hops = path@.len() - 1;
        let mut amounts: Vec<Balance> = Vec::new();
        amounts.push(amount_in);
        proof {
            assert(amounts@ =~= seq![amount_in]);
        }
        let mut i: usize = 0;
        while i < path.len() - 1
            invariant
                factory.wf(),
                pairs_track(*factory, pairs@),
                n_hops == path@.len() - 1,
                1 <= path@.len(),
                i <= n_hops,
                amounts@.len() == i + 1,
                spec_amounts_out_prefix(*factory, pairs@, amount_in, path@, i as int) == Ok::<
                    Seq<Balance>,
                    Error,
                >(amounts@),
            decreases n_hops - i,
        {
            let reserves = match self.pair_reserves(path[i], path[i + 1], factory, pairs) {
                Ok(v) => v,
                Err(e) => {
                    proof {
                        lemma_amounts_out_prefix_err(
                            *factory,
                            pairs@,
                            amount_in,
                            path@,
                            i + 1,
                            n_hops,
                        );
                    }
                    return Err(e);
                },
            };
            let next = match self.get_amount_out(amounts[i], reserves.0, reserves.1) {
                Ok(v) => v,
                Err(e) => {
                    proof {
                        lemma_amounts_out_prefix_err(
                            *factory,
                            pairs@,
                            amount_in,
                            path@,
                            i + 1,
                            n_hops,
                        );
                    }
                    return Err(e);
                },
            };
            amounts.push(next);
            i = i + 1;
        }
        Ok(amounts)
    }

    /// The amount vector of a multi-hop swap for an exact output: the
    /// last entry is `amount_out`, and each earlier entry is the input
    /// quote of the next one against that hop's live reserves.
    pub fn get_amounts_in(
        &self,
        amount_out: Balance,
        path: &Vec<AccountId>,
        factory: &Factory,
        pairs: &Vec<Pair>,
    ) -> (r: Result<Vec<Balance>, Error>)
        requires
            factory.wf(),
            pairs_track(*factory, pairs@),
        ensures
            match spec_amounts_in(*factory, pairs@, amount_out, path@) {
                Ok(s) => r matches Ok(v) && v@ == s,
                Err(e) => r == Err::<Vec<Balance>, Error>(e),
            },
    {
        if path.len() < 2 {
            return Err(Error::InvalidPath);
        }
        let ghost n_hops = path@.len() - 1;
        let mut amounts: Vec<Balance> = Vec::new();
        amounts.push(amount_out);
        proof {
            assert(amounts@ =~= seq![amount_out]);
        }
        let mut k: usize = 0;
        while k < path.len() - 1
            invariant
                factory.wf(),
                pairs_track(*factory, pairs@),
                n_hops == path@.len() - 1,
                1 <= path@.len(),
                k <= n_hops,
                amounts@.len() == k + 1,
                spec_amounts_in_suffix(*factory, pairs@, amount_out, path@, k as int) == Ok::<
                    Seq<Balance>,
                    Error,
                >(amounts@),
            decreases n_hops - k,
        {
            let hop_in = path.len() - 2 - k;
            let reserves = match self.pair_reserves(
                path[hop_in],
                path[hop_in + 1],
                factory,
                pairs,
            ) {
                Ok(v) => v,
                Err(e) => {
                    proof {
                        lemma_amounts_in_suffix_err(
                            *factory,
                            pairs@,
                            amount_out,
                            path@,
                            k + 1,
                            n_hops,
                        );
                    }
                    return Err(e);
                },
            };
            let first = amounts[0];
            let needed = match self.get_amount_in(first, reserves.0, reserves.1) {
                Ok(v) => v,
                Err(e) => {
                    proof {
                        lemma_amounts_in_suffix_err(
                            *factory,
                            pairs@,
                            amount_out,
                            path@,
                            k + 1,
                            n_hops,
                        );
                    }
                    return Err(e);
                },
            };
            amounts.insert(0, needed);
            k = k + 1;
        }
        Ok(amounts)
    }
}

/// The amount vector of the first `hops` hops of a path, walking
/// forward from an exact input.
pub open spec fn spec_amounts_out_prefix(
    factory: Factory,
    pairs: Seq<Pair>,
    amount_in: Balance,
    path: Seq<AccountId>,
    hops: int,
) -> Result<Seq<Balance>, Error>
    decreases hops,
{
    if hops <= 0 {
        Ok(seq![amount_in])
    } else {
        match spec_amounts_out_prefix(factory, pairs, amount_in, path, hops - 1) {
            Err(e) => Err(e),
            Ok(s) => match spec_reserves(factory, pairs, path[hops - 1], path[hops]) {
                Err(e) => Err(e),
                Ok(rr) => match spec_amount_out(s.last(), rr.0, rr.1) {
                    Err(e) => Err(e),
                    Ok(v) => Ok(s.push(v)),
                },
            },
        }
    }
}

/// What `get_amounts_out` returns: `[amount_in]` extended by one output
/// quote per hop, against each hop's live reserves.
pub open spec fn spec_amounts_out(
    factory: Factory,
    pairs: Seq<Pair>,
    amount_in: Balance,
    path: Seq<AccountId>,
) -> Result<Seq<Balance>, Error> {
    if path.len() < 2 {
        Err(Error::InvalidPath)
    } else {
        spec_amounts_out_prefix(factory, pairs, amount_in, path, path.len() - 1)
    }
}

/// A failed prefix stays failed however far the walk continues.
proof fn lemma_amounts_out_prefix_err(
    factory: Factory,
    pairs: Seq<Pair>,
    amount_in: Balance,
    path: Seq<AccountId>,
    hops1: int,
    hops2: int,
)
    requires
        0 <= hops1 <= hops2,
        spec_amounts_out_prefix(factory, pairs, amount_in, path, hops1) is Err,
    ensures
        spec_amounts_out_prefix(factory, pairs, amount_in, path, hops2)
            == spec_amounts_out_prefix(factory, pairs, amount_in, path, hops1),
    decreases hops2,
{
    if hops2 > hops1 {
        lemma_amounts_out_prefix_err(factory, pairs, amount_in, path, hops1, hops2 - 1);
    }
}

/// A successful prefix pins every entry: the vector starts at the
/// input, has one entry per hop plus one, and each consecutive entry is
/// the output quote of the previous one against that hop's reserves.
pub proof fn lemma_amounts_out_prefix_ok(
    factory: Factory,
    pairs: Seq<Pair>,
    amount_in: Balance,
    path: Seq<AccountId>,
    hops: int,
)
    requires
        0 <= hops,
        spec_amounts_out_prefix(factory, pairs, amount_in, path, hops) is Ok,
    ensures
        spec_amounts_out_prefix(factory, pairs, amount_in, path, hops).unwrap().len() == hops + 1,
        spec_amounts_out_prefix(factory, pairs, amount_in, path, hops).unwrap()[0] == amount_in,
        forall|i: int|
            0 <= i < hops ==> (#[trigger] spec_reserves(factory, pairs, path[i], path[i + 1]))
                is Ok,
        forall|i: int|
            0 <= i < hops ==> spec_amount_out(
                spec_amounts_out_prefix(factory, pairs, amount_in, path, hops).unwrap()[i],
                (#[trigger] spec_reserves(factory, pairs, path[i], path[i + 1])).unwrap().0,
                spec_reserves(factory, pairs, path[i], path[i + 1]).unwrap().1,
            ) == Ok::<Balance, Error>(
                spec_amounts_out_prefix(factory, pairs, amount_in, path, hops).unwrap()[i + 1],
            ),
    decreases hops,
{
    if hops > 0 {
        lemma_amounts_out_prefix_ok(factory, pairs, amount_in, path, hops - 1);
        let shorter = spec_amounts_out_prefix(factory, pairs, amount_in, path, hops - 1).unwrap();
        let full = spec_amounts_out_prefix(factory, pairs, amount_in, path, hops).unwrap();
        assert(full == shorter.push(full[hops]));
        assert(forall|i: int| 0 <= i < hops ==> full[i] == shorter[i]);
    }
}

/// The amount vector of the last `hops` hops of a path, walking
/// backward from an exact output.
pub open spec fn spec_amounts_in_suffix(
    factory: Factory,
    pairs: Seq<Pair>,
    amount_out: Balance,
    path: Seq<AccountId>,
    hops: int,
) -> Result<Seq<Balance>, Error>
    decreases hops,
{
    if hops <= 0 {
        Ok(seq![amount_out])
    } else {
        match spec_amounts_in_suffix(factory, pairs, amount_out, path, hops - 1) {
            Err(e) => Err(e),
            Ok(s) => match spec_reserves(
                factory,
                pairs,
                path[path.len() - 1 - hops],
                path[path.len() - hops],
            ) {
                Err(e) => Err(e),
                Ok(rr) => match spec_amount_in(s[0], rr.0, rr.1) {
                    Err(e) => Err(e),
                    Ok(v) => Ok(s.insert(0, v)),
                },
            },
        }
    }
}

/// What `get_amounts_in` returns: `[amount_out]` extended backward by
/// one input quote per hop, against each hop's live reserves.
pub open spec fn spec_amounts_in(
    factory: Factory,
    pairs: Seq<Pair>,
    amount_out: Balance,
    path: Seq<AccountId>,
) -> Result<Seq<Balance>, Error> {
    if path.len() < 2 {
        Err(Error::InvalidPath)
    } else {
        spec_amounts_in_suffix(factory, pairs, amount_out, path, path.len() - 1)
    }
}

/// A failed suffix stays failed however far the walk continues.
proof fn lemma_amounts_in_suffix_err(
    factory: Factory,
    pairs: Seq<Pair>,
    amount_out: Balance,
    path: Seq<AccountId>,
    hops1: int,
    hops2: int,
)
    requires
        0 <= hops1 <= hops2,
        spec_amounts_in_suffix(factory, pairs, amount_out, path, hops1) is Err,
    ensures
        spec_amounts_in_suffix(factory, pairs, amount_out, path, hops2)
            == spec_amounts_in_suffix(factory, pairs, amount_out, path, hops1),
    decreases hops2,
{
    if hops2 > hops1 {
        lemma_amounts_in_suffix_err(factory, pairs, amount_out, path, hops1, hops2 - 1);
    }
}

/// A successful suffix pins every entry: the vector ends at the output,
/// has one entry per hop plus one, and each entry is the input quote of
/// the next one against that hop's reserves.
pub proof fn lemma_amounts_in_suffix_ok(
    factory: Factory,
    pairs: Seq<Pair>,
    amount_out: Balance,
    path: Seq<AccountId>,
    hops: int,
)
    requires
        0 <= hops < path.len(),
        spec_amounts_in_suffix(factory, pairs, amount_out, path, hops) is Ok,
    ensures
        spec_amounts_in_suffix(factory, pairs, amount_out, path, hops).unwrap().len() == hops + 1,
        spec_amounts_in_suffix(factory, pairs, amount_out, path, hops).unwrap()[hops]
            == amount_out,
        forall|i: int|
            path.len() - 1 - hops <= i < path.len() - 1 ==> (#[trigger] spec_reserves(
                factory,
                pairs,
                path[i],
                path[i + 1],
            )) is Ok,
        forall|i: int|
            path.len() - 1 - hops <= i < path.len() - 1 ==> spec_amount_in(
                spec_amounts_in_suffix(factory, pairs, amount_out, path, hops).unwrap()[i - (
                path.len() - 1 - hops) + 1],
                (#[trigger] spec_reserves(factory, pairs, path[i], path[i + 1])).unwrap().0,
                spec_reserves(factory, pairs, path[i], path[i + 1]).unwrap().1,
            ) == Ok::<Balance, Error>(
                spec_amounts_in_suffix(factory, pairs, amount_out, path, hops).unwrap()[i - (
                path.len() - 1 - hops)],
            ),
    decreases hops,
{
    if hops > 0 {
        lemma_amounts_in_suffix_ok(factory, pairs, amount_out, path, hops - 1);
        let shorter = spec_amounts_in_suffix(factory, pairs, amount_out, path, hops - 1).unwrap();
        let full = spec_amounts_in_suffix(factory, pairs, amount_out, path, hops).unwrap();
        assert(full == shorter.insert(0, full[0]));
        assert(forall|i: int| 0 <= i < shorter.len() ==> full[i + 1] == shorter[i]);
    }
}

/// What `_calculate`-style liquidity matching returns: with no pair or
/// no reserves the desired amounts pass through; otherwise the optimal
/// counterpart of one desired amount is taken, bounded by the desired
/// cap and checked against the caller's minimum.
pub open spec fn spec_calc_liquidity(
    factory: Factory,
    pairs: Seq<Pair>,
    token_a: AccountId,
    token_b: AccountId,
    amount_a_desired: Balance,
    amount_b_desired: Balance,
    amount_a_min: Balance,
    amount_b_min: Balance,
) -> Result<(Balance, Balance), Error> {
    match spec_reserves(factory, pairs, token_a, token_b) {
        Err(_) => Ok((amount_a_desired, amount_b_desired)),
        Ok(rr) => if rr.0 == 0 && rr.1 == 0 {
            Ok((amount_a_desired, amount_b_desired))
        } else {
            match spec_quote(amount_a_desired, rr.0, rr.1) {
                Err(e) => Err(e),
                Ok(b_optimal) => if b_optimal <= amount_b_desired {
                    if b_optimal < amount_b_min {
                        Err(Error::InsufficientBAmount)
                    } else {
                        Ok((amount_a_desired, b_optimal))
                    }
                } else {
                    match spec_quote(amount_b_desired, rr.1, rr.0) {
                        Err(e) => Err(e),
                        Ok(a_optimal) => if a_optimal > amount_a_desired {
                            Err(Error::InsufficientAAmount)
                        } else if a_optimal < amount_a_min {
                            Err(Error::InsufficientAAmount)
                        } else {
                            Ok((a_optimal, amount_b_desired))
                        },
                    }
                },
            }
        },
    }
}

/// What adding liquidity returns: after the deadline check and the
/// amount matching, the pair bound to the two tokens mints against the
/// balances grown by the matched amounts; a pair-level failure surfaces
/// as `CallFailed`.
pub open spec fn spec_add_liquidity_outcome(
    factory: Factory,
    pairs: Seq<Pair>,
    token_a: AccountId,
    token_b: AccountId,
    amount_a_desired: Balance,
    amount_b_desired: Balance,
    amount_a_min: Balance,
    amount_b_min: Balance,
    to: AccountId,
    deadline: u64,
    now: u64,
) -> Result<(Balance, Balance, Balance), Error> {
    if now > deadline {
        Err(Error::Expired)
    } else {
        match spec_calc_liquidity(
            factory,
            pairs,
            token_a,
            token_b,
            amount_a_desired,
            amount_b_desired,
            amount_a_min,
            amount_b_min,
        ) {
            Err(e) => Err(e),
            Ok((amount_a, amount_b)) => match factory.spec_get_pair_address(token_a, token_b) {
                None => Err(Error::PairNotFound),
                Some(pair_id) => {
                    let pair = pairs[pair_id as int - 1];
                    let amount0 = if token_a == canonical_order(token_a, token_b).0 {
                        amount_a
                    } else {
                        amount_b
                    };
                    let amount1 = if token_a == canonical_order(token_a, token_b).0 {
                        amount_b
                    } else {
                        amount_a
                    };
                    if pair.reserve0 + amount0 > u128::MAX || pair.reserve1 + amount1
                        > u128::MAX {
                        Err(Error::CallFailed)
                    } else {
                        match pair.spec_mint_outcome(
                            to,
                            (pair.reserve0 + amount0) as Balance,
                            (pair.reserve1 + amount1) as Balance,
                        ) {
                            Err(_) => Err(Error::CallFailed),
                            Ok(liq) => Ok((amount_a, amount_b, liq)),
                        }
                    }
                },
            },
        }
    }
}

/// What removing liquidity returns: the caller's shares move into the
/// pair's own account and are burned for proportional amounts, which
/// are then held against the caller's minimums. A share-transfer or
/// burn failure surfaces as `CallFailed`.
pub open spec fn spec_remove_liquidity_outcome(
    factory: Factory,
    pairs: Seq<Pair>,
    caller: AccountId,
    token_a: AccountId,
    token_b: AccountId,
    liquidity: Balance,
    amount_a_min: Balance,
    amount_b_min: Balance,
    to: AccountId,
    deadline: u64,
    now: u64,
) -> Result<(Balance, Balance), Error> {
    if now > deadline {
        Err(Error::Expired)
    } else {
        match factory.spec_get_pair_address(token_a, token_b) {
            None => Err(Error::PairNotFound),
            Some(pair_id) => {
                let pair = pairs[pair_id as int - 1];
                let held = if caller == pair.pair_account {
                    pair.spec_balance_of(pair.pair_account) as int
                } else {
                    pair.spec_balance_of(pair.pair_account) + liquidity
                };
                if pair.spec_locked() {
                    Err(Error::CallFailed)
                } else if to == ZERO_ACCOUNT {
                    Err(Error::CallFailed)
                } else if pair.spec_balance_of(caller) < liquidity {
                    Err(Error::CallFailed)
                } else if caller != pair.pair_account && pair.spec_balance_of(pair.pair_account)
                    + liquidity > u128::MAX {
                    Err(Error::CallFailed)
                } else if held == 0 {
                    Err(Error::CallFailed)
                } else if held * pair.reserve0 > u128::MAX {
                    Err(Error::CallFailed)
                } else if pair.total_supply == 0 {
                    Err(Error::CallFailed)
                } else if held * pair.reserve1 > u128::MAX {
                    Err(Error::CallFailed)
                } else {
                    let amount0 = held * pair.reserve0 / pair.total_supply as int;
                    let amount1 = held * pair.reserve1 / pair.total_supply as int;
                    if amount0 == 0 || amount1 == 0 {
                        Err(Error::CallFailed)
                    } else if held > pair.total_supply {
                        Err(Error::CallFailed)
                    } else {
                        let amount_a = if token_a == canonical_order(token_a, token_b).0 {
                            amount0
                        } else {
                            amount1
                        };
                        let amount_b = if token_a == canonical_order(token_a, token_b).0 {
                            amount1
                        } else {
                            amount0
                        };
                        if amount_a < amount_a_min {
                            Err(Error::InsufficientAAmount)
                        } else if amount_b < amount_b_min {
                            Err(Error::InsufficientBAmount)
                        } else {
                            Ok((amount_a as Balance, amount_b as Balance))
                        }
                    }
                }
            },
        }
    }
}

/// The pair state after a successful removal through the router: the
/// caller's shares moved to the pair's account and were burned there,
/// the reserves dropped by the paid-out amounts, and the pair recorded
/// `Transfer`, `Sync` and `Burn`.
pub open spec fn spec_remove_applied(
    pre: Pair,
    post: Pair,
    caller: AccountId,
    to: AccountId,
    liquidity: Balance,
    now: u64,
) -> bool {
    let held = if caller == pre.pair_account {
        pre.spec_balance_of(pre.pair_account) as int
    } else {
        pre.spec_balance_of(pre.pair_account) + liquidity
    };
    let amount0 = held * pre.reserve0 / pre.total_supply as int;
    let amount1 = held * pre.reserve1 / pre.total_supply as int;
    &&& post.balances@ == pre.spec_balances_after_transfer(
        caller,
        pre.pair_account,
        liquidity,
    ).insert(pre.pair_account, 0)
    &&& post.total_supply == pre.total_supply - held
    &&& post.reserve0 == pre.reserve0 - amount0
    &&& post.reserve1 == pre.reserve1 - amount1
    &&& post.block_timestamp_last == now
    &&& post.price0_cumulative_last as int == pre.spec_price0_next(now)
    &&& post.price1_cumulative_last as int == pre.spec_price1_next(now)
    &&& post.events@ == pre.events@.push(
        PairEvent::Transfer(
            crate::pair::Transfer { from: Some(caller), to: Some(pre.pair_account), value: liquidity },
        ),
    ).push(
        PairEvent::Sync(
            crate::pair::Sync {
                reserve0: (pre.reserve0 - amount0) as Balance,
                reserve1: (pre.reserve1 - amount1) as Balance,
            },
        ),
    ).push(
        PairEvent::Burn(
            crate::pair::Burn {
                sender: caller,
                amount0: amount0 as Balance,
                amount1: amount1 as Balance,
                to,
                liquidity: held as Balance,
            },
        ),
    )
    &&& post.allowances@ == pre.allowances@
    &&& !post.spec_locked()
    &&& pre.same_config(post)
}

/// Whether a hop's input token is the pair's `token0`.
pub open spec fn spec_input_is_token0(path: Seq<AccountId>, i: int) -> bool {
    path[i] < path[i + 1]
}

/// The index into the pairs vector of the pair serving hop `i`.
pub open spec fn spec_hop_index(factory: Factory, path: Seq<AccountId>, i: int) -> int {
    factory.spec_get_pair_address(path[i], path[i + 1]).unwrap() as int - 1
}

/// Where hop `i` routes its output: straight into the next hop's pair,
/// or to the final recipient on the last hop.
pub open spec fn spec_hop_recipient(
    factory: Factory,
    path: Seq<AccountId>,
    to: AccountId,
    i: int,
) -> AccountId {
    if i < path.len() - 2 {
        factory.spec_get_pair_address(path[i + 1], path[i + 2]).unwrap()
    } else {
        to
    }
}

/// Whether a single hop would go through on `pair`: the swap request is
/// accepted, the grown input-side balance fits, and settling against
/// the post-transfer balances passes the fee-adjusted invariant check.
pub open spec fn spec_hop_ok(
    pair: Pair,
    amount_in: Balance,
    amount_out: Balance,
    input_is0: bool,
    sender: AccountId,
    recipient: AccountId,
) -> bool {
    let amount0_out: Balance = if input_is0 {
        0
    } else {
        amount_out
    };
    let amount1_out: Balance = if input_is0 {
        amount_out
    } else {
        0
    };
    let reserve_in = if input_is0 {
        pair.reserve0
    } else {
        pair.reserve1
    };
    &&& pair.spec_swap_outcome(amount0_out, amount1_out, recipient) is Ok
    &&& reserve_in + amount_in <= u128::MAX
    &&& {
        let balance0: Balance = if input_is0 {
            (pair.reserve0 + amount_in) as Balance
        } else {
            (pair.reserve0 - amount_out) as Balance
        };
        let balance1: Balance = if input_is0 {
            (pair.reserve1 - amount_out) as Balance
        } else {
            (pair.reserve1 + amount_in) as Balance
        };
        let mid = Pair {
            pending_swap: Some(
                PendingSwap { sender, amount0_out, amount1_out, to: recipient },
            ),
            ..pair
        };
        mid.spec_settle_outcome(balance0, balance1) is Ok
    }
}

/// The pair state after one hop went through: the pending swap was
/// taken and settled against the post-transfer balances, and the
/// product of the reserves did not fall.
pub open spec fn spec_hop_applied(
    pre: Pair,
    post: Pair,
    amount_in: Balance,
    amount_out: Balance,
    input_is0: bool,
    sender: AccountId,
    recipient: AccountId,
    now: u64,
) -> bool {
    let amount0_out: Balance = if input_is0 {
        0
    } else {
        amount_out
    };
    let amount1_out: Balance = if input_is0 {
        amount_out
    } else {
        0
    };
    let balance0: Balance = if input_is0 {
        (pre.reserve0 + amount_in) as Balance
    } else {
        (pre.reserve0 - amount_out) as Balance
    };
    let balance1: Balance = if input_is0 {
        (pre.reserve1 - amount_out) as Balance
    } else {
        (pre.reserve1 + amount_in) as Balance
    };
    let mid = Pair {
        pending_swap: Some(PendingSwap { sender, amount0_out, amount1_out, to: recipient }),
        ..pre
    };
    &&& mid.spec_settle_applied(post, balance0, balance1, now)
    &&& post.reserve0 as int * post.reserve1 as int >= pre.reserve0 as int * pre.reserve1 as int
}

/// Whether `j` is the index of some hop's pair.
pub open spec fn spec_is_hop_pair(factory: Factory, path: Seq<AccountId>, j: int) -> bool {
    exists|i: int| 0 <= i < path.len() - 1 && spec_hop_index(factory, path, i) == j
}

/// Whether the whole multi-hop plan can run as one atomic call: every
/// hop has its own distinct pair and every hop goes through on it.
pub open spec fn spec_swap_plan_ok(
    factory: Factory,
    pairs: Seq<Pair>,
    amounts: Seq<Balance>,
    path: Seq<AccountId>,
    sender: AccountId,
    to: AccountId,
) -> bool {
    &&& amounts.len() == path.len()
    &&& forall|i: int|
        0 <= i < path.len() - 1 ==> (#[trigger] spec_reserves(factory, pairs, path[i], path[i + 1]))
            is Ok
    &&& forall|i: int, j: int|
        0 <= i < j < path.len() - 1 ==> #[trigger] spec_hop_index(factory, path, i)
            != #[trigger] spec_hop_index(factory, path, j)
    &&& forall|i: int|
        0 <= i < path.len() - 1 ==> 0 <= #[trigger] spec_hop_index(factory, path, i)
            < pairs.len()
    &&& forall|i: int|
        0 <= i < path.len() - 1 ==> spec_hop_ok(
            pairs[#[trigger] spec_hop_index(factory, path, i)],
            amounts[i],
            amounts[i + 1],
            spec_input_is_token0(path, i),
            sender,
            spec_hop_recipient(factory, path, to, i),
        )
}

/// The pairs vector after a multi-hop swap: every hop's pair took its
/// hop, every other pair is untouched.
pub open spec fn spec_swap_applied(
    factory: Factory,
    pre: Seq<Pair>,
    post: Seq<Pair>,
    amounts: Seq<Balance>,
    path: Seq<AccountId>,
    sender: AccountId,
    to: AccountId,
    now: u64,
) -> bool {
    &&& post.len() == pre.len()
    &&& forall|j: int|
        0 <= j < pre.len() && !spec_is_hop_pair(factory, path, j) ==> #[trigger] post[j] == pre[j]
    &&& forall|i: int|
        0 <= i < path.len() - 1 ==> spec_hop_applied(
            pre[#[trigger] spec_hop_index(factory, path, i)],
            post[spec_hop_index(factory, path, i)],
            amounts[i],
            amounts[i + 1],
            spec_input_is_token0(path, i),
            sender,
            spec_hop_recipient(factory, path, to, i),
            now,
        )
}

/// Whether one hop would go through on `pair`, decided executably.
fn check_hop(
    pair: &Pair,
    amount_in: Balance,
    amount_out: Balance,
    input_is0: bool,
    sender: AccountId,
    recipient: AccountId,
) -> (r: bool)
    ensures
        r == spec_hop_ok(*pair, amount_in, amount_out, input_is0, sender, recipient),
{
    if pair.is_locked() {
        return false;
    }
    if amount_out == 0 {
        return false;
    }
    if recipient == ZERO_ACCOUNT {
        return false;
    }
    let (reserve_in, reserve_out) = if input_is0 {
        (pair.reserve0, pair.reserve1)
    } else {
        (pair.reserve1, pair.reserve0)
    };
    if reserve_in == 0 || amount_out >= reserve_out {
        return false;
    }
    let balance_in = match reserve_in.checked_add(amount_in) {
        Some(v) => v,
        None => {
            return false;
        },
    };
    if amount_in == 0 {
        return false;
    }
    let balance0 = if input_is0 {
        balance_in
    } else {
        reserve_out - amount_out
    };
    let balance1 = if input_is0 {
        reserve_out - amount_out
    } else {
        balance_in
    };
    let in0: Balance = if input_is0 {
        amount_in
    } else {
        0
    };
    let in1: Balance = if input_is0 {
        0
    } else {
        amount_in
    };
    let scaled0 = match balance0.checked_mul(FEE_DENOMINATOR) {
        Some(v) => v,
        None => {
            return false;
        },
    };
    let fee0 = match in0.checked_mul(FEE_NUMERATOR) {
        Some(v) => v,
        None => {
            return false;
        },
    };
    let scaled1 = match balance1.checked_mul(FEE_DENOMINATOR) {
        Some(v) => v,
        None => {
            return false;
        },
    };
    let fee1 = match in1.checked_mul(FEE_NUMERATOR) {
        Some(v) => v,
        None => {
            return false;
        },
    };
    let adjusted0 = scaled0 - fee0;
    let adjusted1 = scaled1 - fee1;
    let k_new = match adjusted0.checked_mul(adjusted1) {
        Some(v) => v,
        None => {
            return false;
        },
    };
    let k_reserves = match pair.reserve0.checked_mul(pair.reserve1) {
        Some(v) => v,
        None => {
            return false;
        },
    };
    let k_old = match k_reserves.checked_mul(FEE_DENOMINATOR * FEE_DENOMINATOR) {
        Some(v) => v,
        None => {
            return false;
        },
    };
    k_new >= k_old
}

/// Runs every hop of a validated plan, in order: each hop's pair takes
/// the swap, the host-side transfer is reflected as the grown and
/// shrunk balances, and the hop settles. The plan guarantees no hop can
/// fail, so the whole run is atomic.
fn execute_swap_hops(
    caller: AccountId,
    amounts: &Vec<Balance>,
    path: &Vec<AccountId>,
    to: AccountId,
    now: u64,
    factory: &Factory,
    pairs: &mut Vec<Pair>,
)
    requires
        factory.wf(),
        pairs_track(*factory, old(pairs)@),
        2 <= path@.len(),
        spec_swap_plan_ok(*factory, old(pairs)@, amounts@, path@, caller, to),
    ensures
        pairs_track(*factory, final(pairs)@),
        spec_swap_applied(*factory, old(pairs)@, final(pairs)@, amounts@, path@, caller, to, now),
{
    let ghost start_pairs = old(pairs)@;
    let ghost n_hops = path@.len() - 1;
    let mut i: usize = 0;
    while i < path.len() - 1
        invariant
            factory.wf(),
            pairs_track(*factory, start_pairs),
            pairs_track(*factory, pairs@),
            spec_swap_plan_ok(*factory, start_pairs, amounts@, path@, caller, to),
            n_hops == path@.len() - 1,
            2 <= path@.len(),
            amounts@.len() == path@.len(),
            i <= n_hops,
            pairs@.len() == start_pairs.len(),
            forall|ii: int|
                i <= ii < n_hops ==> pairs@[#[trigger] spec_hop_index(*factory, path@, ii)]
                    == start_pairs[spec_hop_index(*factory, path@, ii)],
            forall|ii: int|
                0 <= ii < i ==> spec_hop_applied(
                    start_pairs[#[trigger] spec_hop_index(*factory, path@, ii)],
                    pairs@[spec_hop_index(*factory, path@, ii)],
                    amounts@[ii],
                    amounts@[ii + 1],
                    spec_input_is_token0(path@, ii),
                    caller,
                    spec_hop_recipient(*factory, path@, to, ii),
                    now,
                ),
            forall|j: int|
                0 <= j < start_pairs.len() && !spec_is_hop_pair(*factory, path@, j)
                    ==> #[trigger] pairs@[j] == start_pairs[j],
        decreases n_hops - i,
    {
        proof {
            assert(spec_reserves(*factory, start_pairs, path@[i as int], path@[i as int + 1]) is Ok);
            crate::factory::lemma_first_match_is_entry(
                factory.all_pairs@,
                canonical_order(path@[i as int], path@[i as int + 1]).0,
                canonical_order(path@[i as int], path@[i as int + 1]).1,
            );
        }
        let pair_id = factory.get_pair_address(path[i], path[i + 1]).unwrap();
        let index = (pair_id - 1) as usize;
        let recipient: AccountId;
        if i + 2 < path.len() {
            proof {
                let next = i as int + 1;
                assert(spec_reserves(*factory, start_pairs, path@[next], path@[next + 1]) is Ok);
            }
            recipient = factory.get_pair_address(path[i + 1], path[i + 2]).unwrap();
        } else {
            recipient = to;
        }
        let input_is0 = path[i] < path[i + 1];
        let amount_in = amounts[i];
        let amount_out = amounts[i + 1];
        let (amount0_out, amount1_out) = if input_is0 {
            (0, amount_out)
        } else {
            (amount_out, 0)
        };
        proof {
            assert(index as int == spec_hop_index(*factory, path@, i as int));
            assert(recipient == spec_hop_recipient(*factory, path@, to, i as int));
            assert(spec_hop_ok(
                start_pairs[spec_hop_index(*factory, path@, i as int)],
                amounts@[i as int],
                amounts@[i as int + 1],
                spec_input_is_token0(path@, i as int),
                caller,
                spec_hop_recipient(*factory, path@, to, i as int),
            ));
            assert(spec_hop_ok(
                start_pairs[index as int],
                amount_in,
                amount_out,
                input_is0,
                caller,
                recipient,
            ));
            assert(pairs@[index as int] == start_pairs[index as int]);
        }
        let reserve0 = pairs[index].reserve0;
        let reserve1 = pairs[index].reserve1;
        let balance0 = if input_is0 {
            reserve0 + amount_in
        } else {
            reserve0 - amount_out
        };
        let balance1 = if input_is0 {
            reserve1 - amount_out
        } else {
            reserve1 + amount_in
        };
        let ghost before_hop = pairs@;
        let pair_ref = &mut pairs[index];
        let begun = pair_ref.swap(caller, amount0_out, amount1_out, recipient);
        proof {
            assert(begun is Ok);
        }
        let settled = pair_ref.settle_swap(balance0, balance1, now);
        proof {
            assert(settled is Ok);
        }
        proof {
            assert(pairs@ == before_hop.update(index as int, pairs@[index as int]));
            assert(spec_hop_applied(
                start_pairs[index as int],
                pairs@[index as int],
                amount_in,
                amount_out,
                input_is0,
                caller,
                recipient,
                now,
            ));
            assert(spec_hop_applied(
                start_pairs[#[trigger] spec_hop_index(*factory, path@, i as int)],
                pairs@[spec_hop_index(*factory, path@, i as int)],
                amounts@[i as int],
                amounts@[i as int + 1],
                spec_input_is_token0(path@, i as int),
                caller,
                spec_hop_recipient(*factory, path@, to, i as int),
                now,
            ));
            assert(spec_is_hop_pair(*factory, path@, index as int));
        }
        i = i + 1;
    }
}

/// What swapping an exact input returns: the quoted amount vector,
/// held against the caller's minimum output, runnable as one atomic
/// call.
pub open spec fn spec_swap_exact_in_outcome(
    factory: Factory,
    pairs: Seq<Pair>,
    caller: AccountId,
    amount_in: Balance,
    amount_out_min: Balance,
    path: Seq<AccountId>,
    to: AccountId,
    deadline: u64,
    now: u64,
) -> Result<Seq<Balance>, Error> {
    if now > deadline {
        Err(Error::Expired)
    } else {
        match spec_amounts_out(factory, pairs, amount_in, path) {
            Err(e) => Err(e),
            Ok(s) => if s.last() < amount_out_min {
                Err(Error::InsufficientOutputAmount)
            } else if !spec_swap_plan_ok(factory, pairs, s, path, caller, to) {
                Err(Error::SwapFailed)
            } else {
                Ok(s)
            },
        }
    }
}

/// What swapping for an exact output returns: the quoted amount
/// vector, held against the caller's maximum input, runnable as one
/// atomic call.
pub open spec fn spec_swap_exact_out_outcome(
    factory: Factory,
    pairs: Seq<Pair>,
    caller: AccountId,
    amount_out: Balance,
    amount_in_max: Balance,
    path: Seq<AccountId>,
    to: AccountId,
    deadline: u64,
    now: u64,
) -> Result<Seq<Balance>, Error> {
    if now > deadline {
        Err(Error::Expired)
    } else {
        match spec_amounts_in(factory, pairs, amount_out, path) {
            Err(e) => Err(e),
            Ok(s) => if s[0] > amount_in_max {
                Err(Error::ExcessiveInputAmount)
            } else if !spec_swap_plan_ok(factory, pairs, s, path, caller, to) {
                Err(Error::SwapFailed)
            } else {
                Ok(s)
            },
        }
    }
}

} // verus!
