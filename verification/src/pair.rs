//! The constant-product trading pair: reserves of two tokens, a ledger of
//! liquidity shares, swaps with a 0.3% fee, and the invariant that the
//! fee-adjusted product of the reserves never decreases across a swap.
//!
//! The pair is a pure state machine. The host performs the actual token
//! transfers and passes the observed balances of the pair's two token
//! accounts in; a swap therefore runs in two steps, mirroring the
//! optimistic-transfer design: `swap` validates the request, takes the
//! reentrancy lock and tells the host what to pay out, and `settle_swap`
//! receives the post-transfer balances, infers the amounts paid in,
//! checks the invariant and releases the lock. Any state-mutating call
//! made while the lock is held fails with `Locked`.

use vstd::prelude::*;

verus! {

use std::collections::HashMap;
use crate::math::{floor_sqrt, lemma_floor_sqrt_unique, lemma_mul_div_le, sat_add, sat_mul, saturating_mul, sqrt};
use crate::types::{AccountId, Balance, ZERO_ACCOUNT};

broadcast use vstd::std_specs::hash::group_hash_axioms;

/// Liquidity shares locked to the null account forever at the first
/// provision, deterring manipulation of the share price floor.
pub const MINIMUM_LIQUIDITY: Balance = 1000;

/// Numerator of the 0.3% trading fee the pool retains.
pub const FEE_NUMERATOR: u128 = 3;

/// Denominator of the trading fee: the pool keeps 3 of every 1000 units
/// paid in.
pub const FEE_DENOMINATOR: u128 = 1000;

/// Errors of the pair.
#[derive(Debug, Clone, Copy, PartialEq, Eq, Structural)]
pub enum Error {
    /// The computed liquidity to mint is zero or below the floor.
    InsufficientLiquidityMinted,
    /// Held shares are zero, or a burn pays out nothing on a side.
    InsufficientLiquidityBurned,
    /// Both requested swap outputs are zero.
    InsufficientOutputAmount,
    /// A reserve is empty, or a requested output would drain one.
    InsufficientLiquidity,
    /// The recipient is the null account.
    InvalidTo,
    /// No input was paid in before settling a swap.
    InsufficientInputAmount,
    /// The fee-adjusted constant product decreased.
    KValueDecreased,
    /// Checked arithmetic overflowed.
    Overflow,
    /// The two token identifiers are the same.
    IdenticalAddresses,
    /// A null account was given where a real one is required.
    ZeroAddress,
    /// The sender's share balance is too small.
    InsufficientBalance,
    /// The delegate's approved allowance is too small.
    InsufficientAllowance,
    /// The reentrancy lock is held by an unfinished swap.
    Locked,
    /// A token-ledger transfer failed.
    TransferFailed,
}

/// Event: liquidity was provided and shares minted.
#[derive(Debug, Clone, Copy, PartialEq, Eq, Structural)]
pub struct Mint {
    pub sender: AccountId,
    pub amount0: Balance,
    pub amount1: Balance,
    pub liquidity: Balance,
}

/// Event: liquidity was removed and shares burned.
#[derive(Debug, Clone, Copy, PartialEq, Eq, Structural)]
pub struct Burn {
    pub sender: AccountId,
    pub amount0: Balance,
    pub amount1: Balance,
    pub to: AccountId,
    pub liquidity: Balance,
}

/// Event: a swap settled.
#[derive(Debug, Clone, Copy, PartialEq, Eq, Structural)]
pub struct Swap {
    pub sender: AccountId,
    pub amount0_in: Balance,
    pub amount1_in: Balance,
    pub amount0_out: Balance,
    pub amount1_out: Balance,
    pub to: AccountId,
}

/// Event: the reserves were synchronized to the observed balances.
#[derive(Debug, Clone, Copy, PartialEq, Eq, Structural)]
pub struct Sync {
    pub reserve0: Balance,
    pub reserve1: Balance,
}

/// Event: liquidity shares moved between accounts.
#[derive(Debug, Clone, Copy, PartialEq, Eq, Structural)]
pub struct Transfer {
    pub from: Option<AccountId>,
    pub to: Option<AccountId>,
    pub value: Balance,
}

/// Event: a share allowance was set.
#[derive(Debug, Clone, Copy, PartialEq, Eq, Structural)]
pub struct Approval {
    pub owner: AccountId,
    pub spender: AccountId,
    pub value: Balance,
}

/// A pair event, in emission order.
#[derive(Debug, Clone, Copy, PartialEq, Eq, Structural)]
pub enum PairEvent {
    Mint(Mint),
    Burn(Burn),
    Swap(Swap),
    Sync(Sync),
    Transfer(Transfer),
    Approval(Approval),
}

/// A swap that has passed validation and holds the reentrancy lock while
/// the host pays the requested outputs out.
#[derive(Debug, Clone, Copy, PartialEq, Eq, Structural)]
pub struct PendingSwap {
    pub sender: AccountId,
    pub amount0_out: Balance,
    pub amount1_out: Balance,
    pub to: AccountId,
}

/// The balance of `a` in a share ledger: absent accounts hold zero.
pub open spec fn bal_of(m: Map<AccountId, Balance>, a: AccountId) -> Balance {
    if m.contains_key(a) {
        m[a]
    } else {
        0
    }
}

/// The trading pair.
pub struct Pair {
    /// The factory that created this pair.
    pub factory: AccountId,
    /// This pair's own account: shares sent here are the ones a burn
    /// consumes.
    pub pair_account: AccountId,
    /// The token with the smaller identifier.
    pub token0: AccountId,
    /// The token with the larger identifier.
    pub token1: AccountId,
    /// Last-known balance of `token0`.
    pub reserve0: Balance,
    /// Last-known balance of `token1`.
    pub reserve1: Balance,
    /// Total supply of liquidity shares.
    pub total_supply: Balance,
    /// Share balances by account.
    pub balances: HashMap<AccountId, Balance>,
    /// Share allowances: owner, then delegate.
    pub allowances: HashMap<AccountId, HashMap<AccountId, Balance>>,
    /// Timestamp of the last reserve update, for the price oracle.
    pub block_timestamp_last: u64,
    /// Cumulative price of `token0` in `token1`, clamped at the top.
    pub price0_cumulative_last: u128,
    /// Cumulative price of `token1` in `token0`, clamped at the top.
    pub price1_cumulative_last: u128,
    /// Product of the reserves recorded at creation; a fee-accounting
    /// hook, written only by the constructor.
    pub k_last: u128,
    /// The swap holding the reentrancy lock, if one is in flight.
    pub pending_swap: Option<PendingSwap>,
    /// Emitted events, in order.
    pub events: Vec<PairEvent>,
}

impl Pair {
    /// Whether the reentrancy lock is held.
    pub open spec fn spec_locked(self) -> bool {
        self.pending_swap is Some
    }

    /// Well-formedness: a pending swap was validated against the current
    /// reserves, which do not move while the lock is held.
    pub open spec fn wf(self) -> bool {
        match self.pending_swap {
            Some(p) => {
                &&& p.amount0_out < self.reserve0
                &&& p.amount1_out < self.reserve1
                &&& !(p.amount0_out == 0 && p.amount1_out == 0)
                &&& p.to != ZERO_ACCOUNT
            },
            None => true,
        }
    }

    /// The share balance of `account`.
    pub open spec fn spec_balance_of(self, account: AccountId) -> Balance {
        bal_of(self.balances@, account)
    }

    /// The allowance `owner` has granted `spender`.
    pub open spec fn spec_allowance(self, owner: AccountId, spender: AccountId) -> Balance {
        if self.allowances@.contains_key(owner) {
            bal_of(self.allowances@[owner]@, spender)
        } else {
            0
        }
    }

    /// The pair's configuration and oracle bookkeeping, unchanged.
    pub open spec fn same_config(self, other: Pair) -> bool {
        &&& self.factory == other.factory
        &&& self.pair_account == other.pair_account
        &&& self.token0 == other.token0
        &&& self.token1 == other.token1
        &&& self.k_last == other.k_last
    }

    /// The reserves, the oracle accumulators and the lock, unchanged.
    pub open spec fn same_reserves(self, other: Pair) -> bool {
        &&& self.reserve0 == other.reserve0
        &&& self.reserve1 == other.reserve1
        &&& self.block_timestamp_last == other.block_timestamp_last
        &&& self.price0_cumulative_last == other.price0_cumulative_last
        &&& self.price1_cumulative_last == other.price1_cumulative_last
        &&& self.pending_swap == other.pending_swap
    }

    /// The share ledger (balances, allowances, supply), unchanged.
    pub open spec fn same_ledger(self, other: Pair) -> bool {
        &&& self.balances@ == other.balances@
        &&& self.allowances@ == other.allowances@
        &&& self.total_supply == other.total_supply
    }

    /// A fresh pair bound to two tokens, with empty reserves, no shares
    /// and the lock released.
    pub fn new(factory: AccountId, pair_account: AccountId, token0: AccountId, token1: AccountId)
        -> (r: Pair)
        ensures
            r.wf(),
            !r.spec_locked(),
            r.factory == factory,
            r.pair_account == pair_account,
            r.token0 == token0,
            r.token1 == token1,
            r.reserve0 == 0,
            r.reserve1 == 0,
            r.total_supply == 0,
            r.balances@ =~= Map::<AccountId, Balance>::empty(),
            r.allowances@ =~= Map::<AccountId, HashMap<AccountId, Balance>>::empty(),
            r.block_timestamp_last == 0,
            r.price0_cumulative_last == 0,
            r.price1_cumulative_last == 0,
            r.k_last == 0,
            r.events@ =~= Seq::<PairEvent>::empty(),
    {
        Pair {
            factory,
            pair_account,
            token0,
            token1,
            reserve0: 0,
            reserve1: 0,
            total_supply: 0,
            balances: HashMap::new(),
            allowances: HashMap::new(),
            block_timestamp_last: 0,
            price0_cumulative_last: 0,
            price1_cumulative_last: 0,
            k_last: 0,
            pending_swap: None,
            events: Vec::new(),
        }
    }

    /// The share balance of `account`.
    pub fn balance_of(&self, account: AccountId) -> (r: Balance)
        ensures
            r == self.spec_balance_of(account),
    {
        match self.balances.get(&account) {
            Some(v) => *v,
            None => 0,
        }
    }

    /// The total supply of liquidity shares.
    pub fn total_supply(&self) -> (r: Balance)
        ensures
            r == self.total_supply,
    {
        self.total_supply
    }

    /// The allowance `owner` has granted `spender`.
    pub fn allowance(&self, owner: AccountId, spender: AccountId) -> (r: Balance)
        ensures
            r == self.spec_allowance(owner, spender),
    {
        match self.allowances.get(&owner) {
            Some(inner) => match inner.get(&spender) {
                Some(v) => *v,
                None => 0,
            },
            None => 0,
        }
    }

    /// The two token identifiers.
    pub fn get_tokens(&self) -> (r: (AccountId, AccountId))
        ensures
            r == (self.token0, self.token1),
    {
        (self.token0, self.token1)
    }

    /// The reserves and the timestamp of their last update.
    pub fn get_reserves(&self) -> (r: (Balance, Balance, u64))
        ensures
            r == (self.reserve0, self.reserve1, self.block_timestamp_last),
    {
        (self.reserve0, self.reserve1, self.block_timestamp_last)
    }

    /// Whether the reentrancy lock is held by an unfinished swap.
    pub fn is_locked(&self) -> (r: bool)
        ensures
            r == self.spec_locked(),
    {
        self.pending_swap.is_some()
    }

    /// What a share transfer returns, and whether it changes anything.
    pub open spec fn spec_transfer_outcome(self, from: AccountId, to: AccountId, value: Balance)
        -> Result<(), Error> {
        if to == ZERO_ACCOUNT {
            Err(Error::ZeroAddress)
        } else if self.spec_balance_of(from) < value {
            Err(Error::InsufficientBalance)
        } else if from != to && self.spec_balance_of(to) + value > u128::MAX {
            Err(Error::Overflow)
        } else {
            Ok(())
        }
    }

    /// The share ledger after a successful transfer.
    pub open spec fn spec_balances_after_transfer(
        self,
        from: AccountId,
        to: AccountId,
        value: Balance,
    ) -> Map<AccountId, Balance> {
        if from == to {
            self.balances@.insert(from, (self.spec_balance_of(from) - value) as Balance).insert(
                to,
                self.spec_balance_of(from) as Balance,
            )
        } else {
            self.balances@.insert(from, (self.spec_balance_of(from) - value) as Balance).insert(
                to,
                (self.spec_balance_of(to) + value) as Balance,
            )
        }
    }

    /// Moves `value` shares from `from` to `to`; both the direct entry
    /// point and the delegated one come through here.
    fn do_transfer(&mut self, from: AccountId, to: AccountId, value: Balance) -> (r: Result<
        (),
        Error,
    >)
        ensures
            match old(self).spec_transfer_outcome(from, to, value) {
                Ok(()) => {
                    &&& r == Ok::<(), Error>(())
                    &&& final(self).balances@ == old(self).spec_balances_after_transfer(
                        from,
                        to,
                        value,
                    )
                    &&& final(self).events@ == old(self).events@.push(
                        PairEvent::Transfer(
                            Transfer { from: Some(from), to: Some(to), value },
                        ),
                    )
                },
                Err(e) => r == Err::<(), Error>(e) && *final(self) == *old(self),
            },
            final(self).allowances@ == old(self).allowances@,
            final(self).total_supply == old(self).total_supply,
            old(self).same_config(*final(self)),
            old(self).same_reserves(*final(self)),
    {
        if to == ZERO_ACCOUNT {
            return Err(Error::ZeroAddress);
        }
        let from_balance = self.balance_of(from);
        if from_balance < value {
            return Err(Error::InsufficientBalance);
        }
        let to_balance = self.balance_of(to);
        if from != to && to_balance.checked_add(value).is_none() {
            return Err(Error::Overflow);
        }
        self.balances.insert(from, from_balance - value);
        let credited = self.balance_of(to);
        // For a self-transfer the credit reads the freshly debited value,
        // so the net effect is no change.
        self.balances.insert(to, credited + value);
        self.events.push(PairEvent::Transfer(Transfer { from: Some(from), to: Some(to), value }));
        Ok(())
    }

    /// Moves `value` of the caller's shares to `to`.
    pub fn transfer(&mut self, caller: AccountId, to: AccountId, value: Balance) -> (r: Result<
        (),
        Error,
    >)
        ensures
            match old(self).spec_transfer_outcome(caller, to, value) {
                Ok(()) => {
                    &&& r == Ok::<(), Error>(())
                    &&& final(self).balances@ == old(self).spec_balances_after_transfer(
                        caller,
                        to,
                        value,
                    )
                    &&& final(self).events@ == old(self).events@.push(
                        PairEvent::Transfer(
                            Transfer { from: Some(caller), to: Some(to), value },
                        ),
                    )
                },
                Err(e) => r == Err::<(), Error>(e) && *final(self) == *old(self),
            },
            final(self).allowances@ == old(self).allowances@,
            final(self).total_supply == old(self).total_supply,
            old(self).same_config(*final(self)),
            old(self).same_reserves(*final(self)),
    {
        self.do_transfer(caller, to, value)
    }

    /// Grants `spender` the right to move up to `value` of the caller's
    /// shares; always succeeds and overwrites any earlier allowance.
    pub fn approve(&mut self, caller: AccountId, spender: AccountId, value: Balance) -> (r: Result<
        (),
        Error,
    >)
        ensures
            r == Ok::<(), Error>(()),
            final(self).spec_allowance(caller, spender) == value,
            forall|o: AccountId, s: AccountId|
                !(o == caller && s == spender) ==> #[trigger] final(self).spec_allowance(o, s)
                    == old(self).spec_allowance(o, s),
            final(self).balances@ == old(self).balances@,
            final(self).total_supply == old(self).total_supply,
            final(self).events@ == old(self).events@.push(
                PairEvent::Approval(Approval { owner: caller, spender, value }),
            ),
            old(self).same_config(*final(self)),
            old(self).same_reserves(*final(self)),
    {
        let mut inner = match self.allowances.remove(&caller) {
            Some(m) => m,
            None => HashMap::new(),
        };
        inner.insert(spender, value);
        self.allowances.insert(caller, inner);
        self.events.push(PairEvent::Approval(Approval { owner: caller, spender, value }));
        Ok(())
    }

    /// What a delegated transfer returns: the delegate's allowance is
    /// checked first, then the transfer itself.
    pub open spec fn spec_transfer_from_outcome(
        self,
        caller: AccountId,
        from: AccountId,
        to: AccountId,
        value: Balance,
    ) -> Result<(), Error> {
        if self.spec_allowance(from, caller) < value {
            Err(Error::InsufficientAllowance)
        } else {
            self.spec_transfer_outcome(from, to, value)
        }
    }

    /// Moves `value` shares from `from` to `to` on the strength of the
    /// allowance `from` granted the caller, and burns that much of it.
    pub fn transfer_from(
        &mut self,
        caller: AccountId,
        from: AccountId,
        to: AccountId,
        value: Balance,
    ) -> (r: Result<(), Error>)
        ensures
            match old(self).spec_transfer_from_outcome(caller, from, to, value) {
                Ok(()) => {
                    &&& r == Ok::<(), Error>(())
                    &&& final(self).balances@ == old(self).spec_balances_after_transfer(
                        from,
                        to,
                        value,
                    )
                    &&& final(self).spec_allowance(from, caller) == old(self).spec_allowance(
                        from,
                        caller,
                    ) - value
                    &&& forall|o: AccountId, s: AccountId|
                        !(o == from && s == caller) ==> #[trigger] final(self).spec_allowance(o, s)
                            == old(self).spec_allowance(o, s)
                    &&& final(self).events@ == old(self).events@.push(
                        PairEvent::Transfer(
                            Transfer { from: Some(from), to: Some(to), value },
                        ),
                    )
                },
                Err(e) => r == Err::<(), Error>(e) && final(self).balances@ == old(self).balances@
                    && final(self).allowances@ == old(self).allowances@ && final(self).events@
                    == old(self).events@,
            },
            final(self).total_supply == old(self).total_supply,
            old(self).same_config(*final(self)),
            old(self).same_reserves(*final(self)),
    {
        let allowance = self.allowance(from, caller);
        if allowance < value {
            return Err(Error::InsufficientAllowance);
        }
        // Check the transfer before touching the allowance, so a failing
        // call leaves no trace.
        if to == ZERO_ACCOUNT {
            return Err(Error::ZeroAddress);
        }
        let from_balance = self.balance_of(from);
        if from_balance < value {
            return Err(Error::InsufficientBalance);
        }
        if from != to {
            let to_balance = self.balance_of(to);
            if to_balance.checked_add(value).is_none() {
                return Err(Error::Overflow);
            }
        }
        let mut inner = match self.allowances.remove(&from) {
            Some(m) => m,
            None => HashMap::new(),
        };
        inner.insert(caller, allowance - value);
        self.allowances.insert(from, inner);
        let transfer_result = self.do_transfer(from, to, value);
        proof {
            assert(transfer_result is Ok);
        }
        Ok(())
    }

    /// Seconds elapsed since the last reserve update; clock regressions
    /// clamp to zero.
    pub open spec fn spec_elapsed(self, now: u64) -> int {
        if now >= self.block_timestamp_last {
            now - self.block_timestamp_last
        } else {
            0
        }
    }

    /// The `token0` price accumulator after an update at `now`: grows by
    /// `reserve1 * elapsed / reserve0` while both reserves are live,
    /// clamped at the top of the `u128` range.
    pub open spec fn spec_price0_next(self, now: u64) -> int {
        if self.spec_elapsed(now) > 0 && self.reserve0 > 0 && self.reserve1 > 0 {
            sat_add(
                self.price0_cumulative_last as int,
                sat_mul(self.reserve1 as int, self.spec_elapsed(now)) / self.reserve0 as int,
            )
        } else {
            self.price0_cumulative_last as int
        }
    }

    /// The `token1` price accumulator after an update at `now`.
    pub open spec fn spec_price1_next(self, now: u64) -> int {
        if self.spec_elapsed(now) > 0 && self.reserve0 > 0 && self.reserve1 > 0 {
            sat_add(
                self.price1_cumulative_last as int,
                sat_mul(self.reserve0 as int, self.spec_elapsed(now)) / self.reserve1 as int,
            )
        } else {
            self.price1_cumulative_last as int
        }
    }

    /// Advances the price accumulators over the elapsed time, then sets
    /// the reserves to the observed balances and records a `Sync` event.
    fn update_reserves(&mut self, balance0: Balance, balance1: Balance, now: u64)
        ensures
            final(self).reserve0 == balance0,
            final(self).reserve1 == balance1,
            final(self).block_timestamp_last == now,
            final(self).price0_cumulative_last as int == old(self).spec_price0_next(now),
            final(self).price1_cumulative_last as int == old(self).spec_price1_next(now),
            final(self).events@ == old(self).events@.push(
                PairEvent::Sync(Sync { reserve0: balance0, reserve1: balance1 }),
            ),
            final(self).pending_swap == old(self).pending_swap,
            old(self).same_ledger(*final(self)),
            old(self).same_config(*final(self)),
    {
        let elapsed: u64 = if now >= self.block_timestamp_last {
            now - self.block_timestamp_last
        } else {
            0
        };
        if elapsed > 0 && self.reserve0 > 0 && self.reserve1 > 0 {
            let grow0 = saturating_mul(self.reserve1, elapsed as u128) / self.reserve0;
            let grow1 = saturating_mul(self.reserve0, elapsed as u128) / self.reserve1;
            self.price0_cumulative_last = self.price0_cumulative_last.saturating_add(grow0);
            self.price1_cumulative_last = self.price1_cumulative_last.saturating_add(grow1);
        }
        self.reserve0 = balance0;
        self.reserve1 = balance1;
        self.block_timestamp_last = now;
        self.events.push(PairEvent::Sync(Sync { reserve0: balance0, reserve1: balance1 }));
    }

    /// Reconciles the reserves with the observed balances without
    /// minting or burning; callable by anyone while no swap is pending.
    pub fn sync(&mut self, balance0: Balance, balance1: Balance, now: u64) -> (r: Result<
        (),
        Error,
    >)
        requires
            old(self).wf(),
        ensures
            final(self).wf(),
            old(self).spec_locked() ==> r == Err::<(), Error>(Error::Locked) && *final(self)
                == *old(self),
            !old(self).spec_locked() ==> {
                &&& r == Ok::<(), Error>(())
                &&& !final(self).spec_locked()
                &&& final(self).reserve0 == balance0
                &&& final(self).reserve1 == balance1
                &&& final(self).block_timestamp_last == now
                &&& final(self).price0_cumulative_last as int == old(self).spec_price0_next(now)
                &&& final(self).price1_cumulative_last as int == old(self).spec_price1_next(now)
                &&& final(self).events@ == old(self).events@.push(
                    PairEvent::Sync(Sync { reserve0: balance0, reserve1: balance1 }),
                )
                &&& old(self).same_ledger(*final(self))
                &&& old(self).same_config(*final(self))
            },
    {
        if self.is_locked() {
            return Err(Error::Locked);
        }
        self.update_reserves(balance0, balance1, now);
        Ok(())
    }

    /// The amount of `token0` paid in before a liquidity provision: the
    /// observed balance less the last-known reserve.
    pub open spec fn spec_mint_amount0(self, balance0: Balance) -> int {
        if balance0 >= self.reserve0 {
            balance0 - self.reserve0
        } else {
            0
        }
    }

    /// The amount of `token1` paid in before a liquidity provision.
    pub open spec fn spec_mint_amount1(self, balance1: Balance) -> int {
        if balance1 >= self.reserve1 {
            balance1 - self.reserve1
        } else {
            0
        }
    }

    /// The liquidity a provision mints. On the first provision it is
    /// `floor(sqrt(amount0 * amount1)) - MINIMUM_LIQUIDITY`, and the
    /// square root must exceed the floor; afterwards it is the smaller
    /// of the two proportional computations, and must be nonzero.
    pub open spec fn spec_mint_liquidity(self, balance0: Balance, balance1: Balance) -> Result<
        Balance,
        Error,
    > {
        let a0 = self.spec_mint_amount0(balance0);
        let a1 = self.spec_mint_amount1(balance1);
        if self.total_supply == 0 {
            if a0 * a1 > u128::MAX {
                Err(Error::Overflow)
            } else if floor_sqrt(a0 * a1) <= MINIMUM_LIQUIDITY {
                Err(Error::InsufficientLiquidityMinted)
            } else {
                Ok((floor_sqrt(a0 * a1) - MINIMUM_LIQUIDITY) as Balance)
            }
        } else {
            if a0 * self.total_supply > u128::MAX {
                Err(Error::Overflow)
            } else if self.reserve0 == 0 {
                Err(Error::InsufficientLiquidity)
            } else if a1 * self.total_supply > u128::MAX {
                Err(Error::Overflow)
            } else if self.reserve1 == 0 {
                Err(Error::InsufficientLiquidity)
            } else {
                let l0 = a0 * self.total_supply / self.reserve0 as int;
                let l1 = a1 * self.total_supply / self.reserve1 as int;
                let liq = if l0 < l1 {
                    l0
                } else {
                    l1
                };
                if liq == 0 {
                    Err(Error::InsufficientLiquidityMinted)
                } else {
                    Ok(liq as Balance)
                }
            }
        }
    }

    /// The state after a successful liquidity provision: `post` is `self`
    /// with the shares minted, the reserves synchronized to the observed
    /// balances, the oracle advanced, and `Sync` then `Mint` recorded.
    pub open spec fn spec_mint_applied(
        self,
        post: Pair,
        caller: AccountId,
        to: AccountId,
        balance0: Balance,
        balance1: Balance,
        now: u64,
        liq: Balance,
    ) -> bool {
        &&& post.balances@ == if self.total_supply == 0 {
            self.balances@.insert(ZERO_ACCOUNT, MINIMUM_LIQUIDITY).insert(
                to,
                (self.spec_balance_of(to) + liq) as Balance,
            )
        } else {
            self.balances@.insert(to, (self.spec_balance_of(to) + liq) as Balance)
        }
        &&& post.total_supply == if self.total_supply == 0 {
            (MINIMUM_LIQUIDITY + liq) as Balance
        } else {
            (self.total_supply + liq) as Balance
        }
        &&& post.reserve0 == balance0
        &&& post.reserve1 == balance1
        &&& post.block_timestamp_last == now
        &&& post.price0_cumulative_last as int == self.spec_price0_next(now)
        &&& post.price1_cumulative_last as int == self.spec_price1_next(now)
        &&& post.events@ == self.events@.push(
            PairEvent::Sync(Sync { reserve0: balance0, reserve1: balance1 }),
        ).push(
            PairEvent::Mint(
                Mint {
                    sender: caller,
                    amount0: self.spec_mint_amount0(balance0) as Balance,
                    amount1: self.spec_mint_amount1(balance1) as Balance,
                    liquidity: liq,
                },
            ),
        )
        &&& post.allowances@ == self.allowances@
        &&& !post.spec_locked()
        &&& self.same_config(post)
    }

    /// What a liquidity provision returns for the given recipient and
    /// observed balances.
    pub open spec fn spec_mint_outcome(self, to: AccountId, balance0: Balance, balance1: Balance)
        -> Result<Balance, Error> {
        if self.spec_locked() {
            Err(Error::Locked)
        } else if to == ZERO_ACCOUNT {
            Err(Error::InvalidTo)
        } else {
            match self.spec_mint_liquidity(balance0, balance1) {
                Err(e) => Err(e),
                Ok(liq) => if self.spec_balance_of(to) + liq > u128::MAX {
                    Err(Error::Overflow)
                } else if self.total_supply != 0 && self.total_supply + liq > u128::MAX {
                    Err(Error::Overflow)
                } else {
                    Ok(liq)
                },
            }
        }
    }

    /// Mints liquidity shares to `to` for the amounts already paid in,
    /// observed as `balance0`/`balance1` against the last-known reserves;
    /// on the first provision, locks `MINIMUM_LIQUIDITY` shares to the
    /// null account forever. A failing call leaves the pair untouched.
    pub fn mint(
        &mut self,
        caller: AccountId,
        to: AccountId,
        balance0: Balance,
        balance1: Balance,
        now: u64,
    ) -> (r: Result<Balance, Error>)
        requires
            old(self).wf(),
        ensures
            final(self).wf(),
            match old(self).spec_mint_outcome(to, balance0, balance1) {
                Ok(liq) => r == Ok::<Balance, Error>(liq) && old(self).spec_mint_applied(
                    *final(self),
                    caller,
                    to,
                    balance0,
                    balance1,
                    now,
                    liq,
                ),
                Err(e) => r == Err::<Balance, Error>(e) && *final(self) == *old(self),
            },
    {
        if self.is_locked() {
            return Err(Error::Locked);
        }
        if to == ZERO_ACCOUNT {
            return Err(Error::InvalidTo);
        }
        let reserve0 = self.reserve0;
        let reserve1 = self.reserve1;
        let amount0 = if balance0 >= reserve0 {
            balance0 - reserve0
        } else {
            0
        };
        let amount1 = if balance1 >= reserve1 {
            balance1 - reserve1
        } else {
            0
        };
        if self.total_supply == 0 {
            let product = match amount0.checked_mul(amount1) {
                Some(p) => p,
                None => {
                    return Err(Error::Overflow);
                },
            };
            let initial = sqrt(product);
            proof {
                lemma_floor_sqrt_unique(product as int, initial as int);
            }
            if initial <= MINIMUM_LIQUIDITY {
                return Err(Error::InsufficientLiquidityMinted);
            }
            let liquidity = initial - MINIMUM_LIQUIDITY;
            let to_balance = self.balance_of(to);
            let new_to = match to_balance.checked_add(liquidity) {
                Some(v) => v,
                None => {
                    return Err(Error::Overflow);
                },
            };
            self.balances.insert(ZERO_ACCOUNT, MINIMUM_LIQUIDITY);
            self.balances.insert(to, new_to);
            self.total_supply = initial;
            self.update_reserves(balance0, balance1, now);
            self.events.push(
                PairEvent::Mint(Mint { sender: caller, amount0, amount1, liquidity }),
            );
            Ok(liquidity)
        } else {
            let supply = self.total_supply;
            let scaled0 = match amount0.checked_mul(supply) {
                Some(v) => v,
                None => {
                    return Err(Error::Overflow);
                },
            };
            let liquidity0 = match scaled0.checked_div(reserve0) {
                Some(v) => v,
                None => {
                    return Err(Error::InsufficientLiquidity);
                },
            };
            let scaled1 = match amount1.checked_mul(supply) {
                Some(v) => v,
                None => {
                    return Err(Error::Overflow);
                },
            };
            let liquidity1 = match scaled1.checked_div(reserve1) {
                Some(v) => v,
                None => {
                    return Err(Error::InsufficientLiquidity);
                },
            };
            let liquidity = if liquidity0 < liquidity1 {
                liquidity0
            } else {
                liquidity1
            };
            if liquidity == 0 {
                return Err(Error::InsufficientLiquidityMinted);
            }
            let to_balance = self.balance_of(to);
            let new_to = match to_balance.checked_add(liquidity) {
                Some(v) => v,
                None => {
                    return Err(Error::Overflow);
                },
            };
            let new_supply = match supply.checked_add(liquidity) {
                Some(v) => v,
                None => {
                    return Err(Error::Overflow);
                },
            };
            self.balances.insert(to, new_to);
            self.total_supply = new_supply;
            self.update_reserves(balance0, balance1, now);
            self.events.push(
                PairEvent::Mint(Mint { sender: caller, amount0, amount1, liquidity }),
            );
            Ok(liquidity)
        }
    }

    /// What a liquidity removal returns: the shares held at the pair's
    /// own account are burned for proportional amounts of both tokens.
    pub open spec fn spec_burn_outcome(self, to: AccountId) -> Result<(Balance, Balance), Error> {
        if self.spec_locked() {
            Err(Error::Locked)
        } else if to == ZERO_ACCOUNT {
            Err(Error::InvalidTo)
        } else {
            let liq = self.spec_balance_of(self.pair_account);
            if liq == 0 {
                Err(Error::InsufficientLiquidityBurned)
            } else if liq * self.reserve0 > u128::MAX {
                Err(Error::Overflow)
            } else if self.total_supply == 0 {
                Err(Error::InsufficientLiquidity)
            } else if liq * self.reserve1 > u128::MAX {
                Err(Error::Overflow)
            } else {
                let amount0 = liq * self.reserve0 / self.total_supply as int;
                let amount1 = liq * self.reserve1 / self.total_supply as int;
                if amount0 == 0 || amount1 == 0 {
                    Err(Error::InsufficientLiquidityBurned)
                } else if liq > self.total_supply {
                    Err(Error::Overflow)
                } else {
                    Ok((amount0 as Balance, amount1 as Balance))
                }
            }
        }
    }

    /// The state after a successful burn: the shares held at the pair's
    /// own account are gone, the supply shrank by that much, the reserves
    /// dropped by the paid-out amounts, and `Sync` then `Burn` are
    /// recorded.
    pub open spec fn spec_burn_applied(
        self,
        post: Pair,
        caller: AccountId,
        to: AccountId,
        now: u64,
        amount0: Balance,
        amount1: Balance,
    ) -> bool {
        &&& post.balances@ == self.balances@.insert(self.pair_account, 0)
        &&& post.total_supply == self.total_supply - self.spec_balance_of(self.pair_account)
        &&& post.reserve0 == self.reserve0 - amount0
        &&& post.reserve1 == self.reserve1 - amount1
        &&& post.block_timestamp_last == now
        &&& post.price0_cumulative_last as int == self.spec_price0_next(now)
        &&& post.price1_cumulative_last as int == self.spec_price1_next(now)
        &&& post.events@ == self.events@.push(
            PairEvent::Sync(
                Sync {
                    reserve0: (self.reserve0 - amount0) as Balance,
                    reserve1: (self.reserve1 - amount1) as Balance,
                },
            ),
        ).push(
            PairEvent::Burn(
                Burn {
                    sender: caller,
                    amount0,
                    amount1,
                    to,
                    liquidity: self.spec_balance_of(self.pair_account),
                },
            ),
        )
        &&& post.allowances@ == self.allowances@
        &&& !post.spec_locked()
        &&& self.same_config(post)
    }

    /// Burns the liquidity shares held at the pair's own account and
    /// pays out `amount_i = shares * reserve_i / total_supply` of each
    /// token, rounded down; the returned amounts are what the host must
    /// transfer to `to`. A failing call leaves the pair untouched.
    pub fn burn(&mut self, caller: AccountId, to: AccountId, now: u64) -> (r: Result<
        (Balance, Balance),
        Error,
    >)
        requires
            old(self).wf(),
        ensures
            final(self).wf(),
            match old(self).spec_burn_outcome(to) {
                Ok((amount0, amount1)) => {
                    &&& r == Ok::<(Balance, Balance), Error>((amount0, amount1))
                    &&& amount0 <= old(self).reserve0
                    &&& amount1 <= old(self).reserve1
                    &&& old(self).spec_burn_applied(*final(self), caller, to, now, amount0, amount1)
                },
                Err(e) => r == Err::<(Balance, Balance), Error>(e) && *final(self) == *old(self),
            },
    {
        if self.is_locked() {
            return Err(Error::Locked);
        }
        if to == ZERO_ACCOUNT {
            return Err(Error::InvalidTo);
        }
        let reserve0 = self.reserve0;
        let reserve1 = self.reserve1;
        let liquidity = self.balance_of(self.pair_account);
        if liquidity == 0 {
            return Err(Error::InsufficientLiquidityBurned);
        }
        let scaled0 = match liquidity.checked_mul(reserve0) {
            Some(v) => v,
            None => {
                return Err(Error::Overflow);
            },
        };
        let amount0 = match scaled0.checked_div(self.total_supply) {
            Some(v) => v,
            None => {
                return Err(Error::InsufficientLiquidity);
            },
        };
        let scaled1 = match liquidity.checked_mul(reserve1) {
            Some(v) => v,
            None => {
                return Err(Error::Overflow);
            },
        };
        let amount1 = match scaled1.checked_div(self.total_supply) {
            Some(v) => v,
            None => {
                return Err(Error::InsufficientLiquidity);
            },
        };
        if amount0 == 0 || amount1 == 0 {
            return Err(Error::InsufficientLiquidityBurned);
        }
        let new_supply = match self.total_supply.checked_sub(liquidity) {
            Some(v) => v,
            None => {
                return Err(Error::Overflow);
            },
        };
        proof {
            lemma_mul_div_le(liquidity as int, reserve0 as int, self.total_supply as int);
            lemma_mul_div_le(liquidity as int, reserve1 as int, self.total_supply as int);
        }
        let pair_account = self.pair_account;
        self.balances.insert(pair_account, liquidity - liquidity);
        self.total_supply = new_supply;
        self.update_reserves(reserve0 - amount0, reserve1 - amount1, now);
        self.events.push(
            PairEvent::Burn(Burn { sender: caller, amount0, amount1, to, liquidity }),
        );
        Ok((amount0, amount1))
    }

    /// Whether a swap request is accepted: some output is requested, the
    /// recipient is real, and neither output would drain its reserve.
    pub open spec fn spec_swap_outcome(
        self,
        amount0_out: Balance,
        amount1_out: Balance,
        to: AccountId,
    ) -> Result<(), Error> {
        if self.spec_locked() {
            Err(Error::Locked)
        } else if amount0_out == 0 && amount1_out == 0 {
            Err(Error::InsufficientOutputAmount)
        } else if to == ZERO_ACCOUNT {
            Err(Error::InvalidTo)
        } else if amount0_out >= self.reserve0 || amount1_out >= self.reserve1 {
            Err(Error::InsufficientLiquidity)
        } else {
            Ok(())
        }
    }

    /// Begins a swap: validates the requested outputs and takes the
    /// reentrancy lock. On success the host must optimistically transfer
    /// the requested outputs to the recipient and then call
    /// `settle_swap` with the observed balances; until then every other
    /// state-mutating call fails with `Locked`.
    pub fn swap(
        &mut self,
        caller: AccountId,
        amount0_out: Balance,
        amount1_out: Balance,
        to: AccountId,
    ) -> (r: Result<(), Error>)
        requires
            old(self).wf(),
        ensures
            final(self).wf(),
            match old(self).spec_swap_outcome(amount0_out, amount1_out, to) {
                Ok(()) => {
                    &&& r == Ok::<(), Error>(())
                    &&& final(self).pending_swap == Some(
                        PendingSwap { sender: caller, amount0_out, amount1_out, to },
                    )
                    &&& final(self).balances@ == old(self).balances@
                    &&& final(self).allowances@ == old(self).allowances@
                    &&& final(self).total_supply == old(self).total_supply
                    &&& final(self).reserve0 == old(self).reserve0
                    &&& final(self).reserve1 == old(self).reserve1
                    &&& final(self).block_timestamp_last == old(self).block_timestamp_last
                    &&& final(self).price0_cumulative_last == old(self).price0_cumulative_last
                    &&& final(self).price1_cumulative_last == old(self).price1_cumulative_last
                    &&& final(self).events@ == old(self).events@
                    &&& old(self).same_config(*final(self))
                },
                Err(e) => r == Err::<(), Error>(e) && *final(self) == *old(self),
            },
    {
        if self.is_locked() {
            return Err(Error::Locked);
        }
        if amount0_out == 0 && amount1_out == 0 {
            return Err(Error::InsufficientOutputAmount);
        }
        if to == ZERO_ACCOUNT {
            return Err(Error::InvalidTo);
        }
        if amount0_out >= self.reserve0 || amount1_out >= self.reserve1 {
            return Err(Error::InsufficientLiquidity);
        }
        self.pending_swap = Some(PendingSwap { sender: caller, amount0_out, amount1_out, to });
        Ok(())
    }

    /// The `token0` amount inferred as paid in, given the observed
    /// balance after the pending swap's outputs went out.
    pub open spec fn spec_settle_in0(self, balance0: Balance) -> int {
        let expected = self.reserve0 - self.pending_swap.unwrap().amount0_out;
        if balance0 > expected {
            balance0 - expected
        } else {
            0
        }
    }

    /// The `token1` amount inferred as paid in.
    pub open spec fn spec_settle_in1(self, balance1: Balance) -> int {
        let expected = self.reserve1 - self.pending_swap.unwrap().amount1_out;
        if balance1 > expected {
            balance1 - expected
        } else {
            0
        }
    }

    /// Whether settling the pending swap succeeds: some input was paid
    /// in, the checked arithmetic fits, and the fee-adjusted product of
    /// the balances does not fall below the product of the reserves.
    pub open spec fn spec_settle_outcome(self, balance0: Balance, balance1: Balance) -> Result<
        (),
        Error,
    > {
        let in0 = self.spec_settle_in0(balance0);
        let in1 = self.spec_settle_in1(balance1);
        if in0 == 0 && in1 == 0 {
            Err(Error::InsufficientInputAmount)
        } else if balance0 * FEE_DENOMINATOR > u128::MAX {
            Err(Error::Overflow)
        } else if in0 * FEE_NUMERATOR > u128::MAX {
            Err(Error::Overflow)
        } else if balance1 * FEE_DENOMINATOR > u128::MAX {
            Err(Error::Overflow)
        } else if in1 * FEE_NUMERATOR > u128::MAX {
            Err(Error::Overflow)
        } else {
            let adjusted0 = balance0 * FEE_DENOMINATOR - in0 * FEE_NUMERATOR;
            let adjusted1 = balance1 * FEE_DENOMINATOR - in1 * FEE_NUMERATOR;
            if adjusted0 * adjusted1 > u128::MAX {
                Err(Error::Overflow)
            } else if self.reserve0 * self.reserve1 > u128::MAX {
                Err(Error::Overflow)
            } else if self.reserve0 * self.reserve1 * (FEE_DENOMINATOR * FEE_DENOMINATOR)
                > u128::MAX {
                Err(Error::Overflow)
            } else if adjusted0 * adjusted1 < self.reserve0 * self.reserve1 * (FEE_DENOMINATOR
                * FEE_DENOMINATOR) {
                Err(Error::KValueDecreased)
            } else {
                Ok(())
            }
        }
    }

    /// The state after a successful settlement: the reserves moved to the
    /// observed balances, the oracle advanced, the lock is released, the
    /// share ledger is untouched, and `Sync` then `Swap` are recorded.
    pub open spec fn spec_settle_applied(
        self,
        post: Pair,
        balance0: Balance,
        balance1: Balance,
        now: u64,
    ) -> bool {
        &&& post.reserve0 == balance0
        &&& post.reserve1 == balance1
        &&& post.block_timestamp_last == now
        &&& post.price0_cumulative_last as int == self.spec_price0_next(now)
        &&& post.price1_cumulative_last as int == self.spec_price1_next(now)
        &&& post.events@ == self.events@.push(
            PairEvent::Sync(Sync { reserve0: balance0, reserve1: balance1 }),
        ).push(
            PairEvent::Swap(
                Swap {
                    sender: self.pending_swap.unwrap().sender,
                    amount0_in: self.spec_settle_in0(balance0) as Balance,
                    amount1_in: self.spec_settle_in1(balance1) as Balance,
                    amount0_out: self.pending_swap.unwrap().amount0_out,
                    amount1_out: self.pending_swap.unwrap().amount1_out,
                    to: self.pending_swap.unwrap().to,
                },
            ),
        )
        &&& !post.spec_locked()
        &&& self.same_ledger(post)
        &&& self.same_config(post)
    }

    /// Settles the pending swap against the observed post-transfer
    /// balances: infers the amounts paid in, charges the 0.3% fee in the
    /// invariant check, synchronizes the reserves and releases the lock.
    /// On failure the host must roll its transfers back; the pair itself
    /// returns to the exact state it had before `swap`, so a rejected
    /// swap leaves no trace. On success the product of the reserves
    /// never decreases.
    pub fn settle_swap(&mut self, balance0: Balance, balance1: Balance, now: u64) -> (r: Result<
        (),
        Error,
    >)
        requires
            old(self).wf(),
            old(self).spec_locked(),
        ensures
            final(self).wf(),
            !final(self).spec_locked(),
            match old(self).spec_settle_outcome(balance0, balance1) {
                Ok(()) => {
                    &&& r == Ok::<(), Error>(())
                    &&& old(self).spec_settle_applied(*final(self), balance0, balance1, now)
                    &&& final(self).reserve0 as int * final(self).reserve1 as int >= old(
                        self,
                    ).reserve0 as int * old(self).reserve1 as int
                },
                Err(e) => {
                    &&& r == Err::<(), Error>(e)
                    &&& final(self).reserve0 == old(self).reserve0
                    &&& final(self).reserve1 == old(self).reserve1
                    &&& final(self).block_timestamp_last == old(self).block_timestamp_last
                    &&& final(self).price0_cumulative_last == old(self).price0_cumulative_last
                    &&& final(self).price1_cumulative_last == old(self).price1_cumulative_last
                    &&& final(self).events@ == old(self).events@
                    &&& old(self).same_ledger(*final(self))
                    &&& old(self).same_config(*final(self))
                },
            },
    {
        let pending = self.pending_swap.unwrap();
        let reserve0 = self.reserve0;
        let reserve1 = self.reserve1;
        let expected0 = reserve0 - pending.amount0_out;
        let expected1 = reserve1 - pending.amount1_out;
        let amount0_in = if balance0 > expected0 {
            balance0 - expected0
        } else {
            0
        };
        let amount1_in = if balance1 > expected1 {
            balance1 - expected1
        } else {
            0
        };
        if amount0_in == 0 && amount1_in == 0 {
            self.pending_swap = None;
            return Err(Error::InsufficientInputAmount);
        }
        let scaled_balance0 = match balance0.checked_mul(FEE_DENOMINATOR) {
            Some(v) => v,
            None => {
                self.pending_swap = None;
                return Err(Error::Overflow);
            },
        };
        let fee0 = match amount0_in.checked_mul(FEE_NUMERATOR) {
            Some(v) => v,
            None => {
                self.pending_swap = None;
                return Err(Error::Overflow);
            },
        };
        let scaled_balance1 = match balance1.checked_mul(FEE_DENOMINATOR) {
            Some(v) => v,
            None => {
                self.pending_swap = None;
                return Err(Error::Overflow);
            },
        };
        let fee1 = match amount1_in.checked_mul(FEE_NUMERATOR) {
            Some(v) => v,
            None => {
                self.pending_swap = None;
                return Err(Error::Overflow);
            },
        };
        let adjusted0 = scaled_balance0 - fee0;
        let adjusted1 = scaled_balance1 - fee1;
        let k_new = match adjusted0.checked_mul(adjusted1) {
            Some(v) => v,
            None => {
                self.pending_swap = None;
                return Err(Error::Overflow);
            },
        };
        let k_reserves = match reserve0.checked_mul(reserve1) {
            Some(v) => v,
            None => {
                self.pending_swap = None;
                return Err(Error::Overflow);
            },
        };
        let k_old = match k_reserves.checked_mul(FEE_DENOMINATOR * FEE_DENOMINATOR) {
            Some(v) => v,
            None => {
                self.pending_swap = None;
                return Err(Error::Overflow);
            },
        };
        if k_new < k_old {
            self.pending_swap = None;
            return Err(Error::KValueDecreased);
        }
        proof {
            assert(adjusted0 as int * adjusted1 as int <= (FEE_DENOMINATOR as int * balance0
                as int) * (FEE_DENOMINATOR as int * balance1 as int)) by (nonlinear_arith)
                requires
                    0 <= adjusted0 as int <= FEE_DENOMINATOR as int * balance0 as int,
                    0 <= adjusted1 as int <= FEE_DENOMINATOR as int * balance1 as int;
            assert((FEE_DENOMINATOR as int * balance0 as int) * (FEE_DENOMINATOR as int * balance1
                as int) == (FEE_DENOMINATOR as int * FEE_DENOMINATOR as int) * (balance0 as int
                * balance1 as int)) by (nonlinear_arith);
            assert(k_old as int == (FEE_DENOMINATOR as int * FEE_DENOMINATOR as int) * (reserve0
                as int * reserve1 as int)) by (nonlinear_arith)
                requires
                    k_old as int == (reserve0 as int * reserve1 as int) * (FEE_DENOMINATOR as int
                        * FEE_DENOMINATOR as int);
            assert(balance0 as int * balance1 as int >= reserve0 as int * reserve1 as int);
        }
        self.update_reserves(balance0, balance1, now);
        self.events.push(
            PairEvent::Swap(
                Swap {
                    sender: pending.sender,
                    amount0_in,
                    amount1_in,
                    amount0_out: pending.amount0_out,
                    amount1_out: pending.amount1_out,
                    to: pending.to,
                },
            ),
        );
        self.pending_swap = None;
        Ok(())
    }

    /// What quoting an exact input returns:
    /// `floor(amount_in * 997 * reserve_out / (reserve_in * 1000 + amount_in * 997))`.
    pub open spec fn spec_get_amount_out(
        amount_in: Balance,
        reserve_in: Balance,
        reserve_out: Balance,
    ) -> Result<Balance, Error> {
        if amount_in == 0 {
            Err(Error::InsufficientInputAmount)
        } else if reserve_in == 0 || reserve_out == 0 {
            Err(Error::InsufficientLiquidity)
        } else if amount_in * (FEE_DENOMINATOR - FEE_NUMERATOR) > u128::MAX {
            Err(Error::Overflow)
        } else if amount_in * (FEE_DENOMINATOR - FEE_NUMERATOR) * reserve_out > u128::MAX {
            Err(Error::Overflow)
        } else if reserve_in * FEE_DENOMINATOR + amount_in * (FEE_DENOMINATOR - FEE_NUMERATOR)
            > u128::MAX {
            Err(Error::Overflow)
        } else {
            Ok(
                (amount_in * (FEE_DENOMINATOR - FEE_NUMERATOR) * reserve_out / (reserve_in
                    * FEE_DENOMINATOR + amount_in * (FEE_DENOMINATOR - FEE_NUMERATOR))) as Balance,
            )
        }
    }

    /// Output quote for an exact input: applies the 0.3% fee to the
    /// amount paid in, then prices it against the given reserves,
    /// rounding down.
    pub fn get_amount_out(
        &self,
        amount_in: Balance,
        reserve_in: Balance,
        reserve_out: Balance,
    ) -> (r: Result<Balance, Error>)
        ensures
            r == Self::spec_get_amount_out(amount_in, reserve_in, reserve_out),
    {
        if amount_in == 0 {
            return Err(Error::InsufficientInputAmount);
        }
        if reserve_in == 0 || reserve_out == 0 {
            return Err(Error::InsufficientLiquidity);
        }
        let amount_in_with_fee = match amount_in.checked_mul(FEE_DENOMINATOR - FEE_NUMERATOR) {
            Some(v) => v,
            None => {
                return Err(Error::Overflow);
            },
        };
        let numerator = match amount_in_with_fee.checked_mul(reserve_out) {
            Some(v) => v,
            None => {
                return Err(Error::Overflow);
            },
        };
        let scaled_reserve = match reserve_in.checked_mul(FEE_DENOMINATOR) {
            Some(v) => v,
            None => {
                return Err(Error::Overflow);
            },
        };
        let denominator = match scaled_reserve.checked_add(amount_in_with_fee) {
            Some(v) => v,
            None => {
                return Err(Error::Overflow);
            },
        };
        Ok(numerator / denominator)
    }

    /// What quoting an exact output returns:
    /// `floor(reserve_in * amount_out * 1000 / ((reserve_out - amount_out) * 997)) + 1`,
    /// rounded up so the pool never loses value to rounding.
    pub open spec fn spec_get_amount_in(
        amount_out: Balance,
        reserve_in: Balance,
        reserve_out: Balance,
    ) -> Result<Balance, Error> {
        if amount_out == 0 {
            Err(Error::InsufficientOutputAmount)
        } else if reserve_in == 0 || reserve_out == 0 || amount_out >= reserve_out {
            Err(Error::InsufficientLiquidity)
        } else if reserve_in * amount_out > u128::MAX {
            Err(Error::Overflow)
        } else if reserve_in * amount_out * FEE_DENOMINATOR > u128::MAX {
            Err(Error::Overflow)
        } else if (reserve_out - amount_out) * (FEE_DENOMINATOR - FEE_NUMERATOR) > u128::MAX {
            Err(Error::Overflow)
        } else {
            Ok(
                (reserve_in * amount_out * FEE_DENOMINATOR / ((reserve_out - amount_out) * (
                FEE_DENOMINATOR - FEE_NUMERATOR)) + 1) as Balance,
            )
        }
    }

    /// Input quote for an exact output: the inverse of `get_amount_out`,
    /// rounded up.
    pub fn get_amount_in(
        &self,
        amount_out: Balance,
        reserve_in: Balance,
        reserve_out: Balance,
    ) -> (r: Result<Balance, Error>)
        ensures
            r == Self::spec_get_amount_in(amount_out, reserve_in, reserve_out),
    {
        if amount_out == 0 {
            return Err(Error::InsufficientOutputAmount);
        }
        if reserve_in == 0 || reserve_out == 0 || amount_out >= reserve_out {
            return Err(Error::InsufficientLiquidity);
        }
        let scaled = match reserve_in.checked_mul(amount_out) {
            Some(v) => v,
            None => {
                return Err(Error::Overflow);
            },
        };
        let numerator = match scaled.checked_mul(FEE_DENOMINATOR) {
            Some(v) => v,
            None => {
                return Err(Error::Overflow);
            },
        };
        let denominator = match (reserve_out - amount_out).checked_mul(
            FEE_DENOMINATOR - FEE_NUMERATOR,
        ) {
            Some(v) => v,
            None => {
                return Err(Error::Overflow);
            },
        };
        let quotient = numerator / denominator;
        proof {
            vstd::arithmetic::div_mod::lemma_div_is_ordered_by_denominator(
                numerator as int,
                2,
                denominator as int,
            );
            vstd::arithmetic::div_mod::lemma_fundamental_div_mod(numerator as int, 2);
            vstd::arithmetic::div_mod::lemma_mod_bound(numerator as int, 2);
        }
        Ok(quotient + 1)
    }
}

/// Law: round-trip quoting never undershoots. The rounded-up input that
/// `get_amount_in` quotes for a desired output is always enough: feeding
/// it back through `get_amount_out` yields at least that output.
pub proof fn lemma_quote_round_trip(
    amount_out: Balance,
    reserve_in: Balance,
    reserve_out: Balance,
    amount_in: Balance,
)
    requires
        Pair::spec_get_amount_in(amount_out, reserve_in, reserve_out) == Ok::<Balance, Error>(
            amount_in,
        ),
        Pair::spec_get_amount_out(amount_in, reserve_in, reserve_out) is Ok,
    ensures
        Pair::spec_get_amount_out(amount_in, reserve_in, reserve_out).unwrap() >= amount_out,
{
    let out = amount_out as int;
    let rin = reserve_in as int;
    let rout = reserve_out as int;
    let den_in = (rout - out) * 997;
    let num_in = rin * out * 1000;
    assert(den_in >= 997) by (nonlinear_arith)
        requires
            den_in == (rout - out) * 997,
            rout - out >= 1;
    let q = num_in / den_in;
    vstd::arithmetic::div_mod::lemma_fundamental_div_mod(num_in, den_in);
    vstd::arithmetic::div_mod::lemma_mod_bound(num_in, den_in);
    vstd::arithmetic::div_mod::lemma_div_is_ordered_by_denominator(num_in, 2, den_in);
    vstd::arithmetic::div_mod::lemma_fundamental_div_mod(num_in, 2);
    vstd::arithmetic::div_mod::lemma_mod_bound(num_in, 2);
    assert(amount_in as int == q + 1);
    let ain = q + 1;
    assert(num_in < den_in * ain) by (nonlinear_arith)
        requires
            num_in == den_in * q + num_in % den_in,
            num_in % den_in < den_in,
            ain == q + 1;
    let num_out = ain * 997 * rout;
    let den_out = rin * 1000 + ain * 997;
    assert(num_out > out * den_out) by (nonlinear_arith)
        requires
            num_in < den_in * ain,
            den_in == (rout - out) * 997,
            num_in == rin * out * 1000,
            num_out == ain * 997 * rout,
            den_out == rin * 1000 + ain * 997;
    assert(den_out * out <= num_out) by (nonlinear_arith)
        requires num_out > out * den_out;
    vstd::arithmetic::div_mod::lemma_div_is_ordered(den_out * out, num_out, den_out);
    vstd::arithmetic::div_mod::lemma_div_multiples_vanish(out, den_out);
}

/// One settled swap: `pre` held the lock, accepted the observed
/// balances, and became `post`.
pub open spec fn swap_settles_to(
    pre: Pair,
    post: Pair,
    balance0: Balance,
    balance1: Balance,
    now: u64,
) -> bool {
    &&& pre.wf()
    &&& pre.spec_locked()
    &&& pre.spec_settle_outcome(balance0, balance1) is Ok
    &&& pre.spec_settle_applied(post, balance0, balance1, now)
}

/// Law: one settled swap never shrinks the product of the reserves.
/// The fee-adjusted invariant check admits only balances whose scaled
/// product covers the scaled product of the old reserves.
pub proof fn lemma_settle_product_monotone(
    pre: Pair,
    post: Pair,
    balance0: Balance,
    balance1: Balance,
    now: u64,
)
    requires
        swap_settles_to(pre, post, balance0, balance1, now),
    ensures
        post.reserve0 as int * post.reserve1 as int >= pre.reserve0 as int * pre.reserve1 as int,
{
    let in0 = pre.spec_settle_in0(balance0);
    let in1 = pre.spec_settle_in1(balance1);
    let adjusted0 = balance0 * FEE_DENOMINATOR - in0 * FEE_NUMERATOR;
    let adjusted1 = balance1 * FEE_DENOMINATOR - in1 * FEE_NUMERATOR;
    assert(adjusted0 * adjusted1 <= (1000 * balance0) * (1000 * balance1)) by (nonlinear_arith)
        requires
            0 <= adjusted0 <= 1000 * balance0,
            0 <= adjusted1 <= 1000 * balance1;
    assert((1000 * balance0) * (1000 * balance1) == 1000000 * (balance0 * balance1))
        by (nonlinear_arith);
    assert(pre.reserve0 * pre.reserve1 * (FEE_DENOMINATOR * FEE_DENOMINATOR) == 1000000 * (
    pre.reserve0 * pre.reserve1)) by (nonlinear_arith);
    assert(balance0 as int * balance1 as int >= pre.reserve0 as int * pre.reserve1 as int);
}

/// Law: across any sequence of settled swaps, the product of the
/// reserves after the last is at least the product before the first.
pub proof fn lemma_swap_sequence_monotone(
    states: Seq<Pair>,
    balances0: Seq<Balance>,
    balances1: Seq<Balance>,
    times: Seq<u64>,
)
    requires
        1 <= states.len(),
        balances0.len() == states.len() - 1,
        balances1.len() == states.len() - 1,
        times.len() == states.len() - 1,
        forall|i: int|
            0 <= i < states.len() - 1 ==> swap_settles_to(
                #[trigger] states[i],
                states[i + 1],
                balances0[i],
                balances1[i],
                times[i],
            ),
    ensures
        states.last().reserve0 as int * states.last().reserve1 as int >= states[0].reserve0 as int
            * states[0].reserve1 as int,
    decreases states.len(),
{
    if states.len() > 1 {
        let n = states.len() - 1;
        lemma_settle_product_monotone(
            states[n - 1],
            states[n],
            balances0[n - 1],
            balances1[n - 1],
            times[n - 1],
        );
        lemma_swap_sequence_monotone(
            states.drop_last(),
            balances0.drop_last(),
            balances1.drop_last(),
            times.drop_last(),
        );
        assert(states.drop_last().last() == states[n - 1]);
    }
}

/// Law: the price accumulators never decrease. An update adds a
/// non-negative, clamped price-times-time increment or leaves the
/// accumulator alone.
pub proof fn lemma_price_accumulators_monotone(pair: Pair, now: u64)
    ensures
        pair.spec_price0_next(now) >= pair.price0_cumulative_last,
        pair.spec_price1_next(now) >= pair.price1_cumulative_last,
{
    if pair.spec_elapsed(now) > 0 && pair.reserve0 > 0 && pair.reserve1 > 0 {
        vstd::arithmetic::div_mod::lemma_div_pos_is_pos(
            sat_mul(pair.reserve1 as int, pair.spec_elapsed(now)),
            pair.reserve0 as int,
        );
        vstd::arithmetic::div_mod::lemma_div_pos_is_pos(
            sat_mul(pair.reserve0 as int, pair.spec_elapsed(now)),
            pair.reserve1 as int,
        );
    }
}

} // verus!
