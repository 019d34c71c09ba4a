use dex_core::math::sqrt;
use dex_core::pair::{Error, Pair, MINIMUM_LIQUIDITY};

const FACTORY: u128 = 99;
const PAIR_ACCOUNT: u128 = 1;
const TOKEN0: u128 = 2;
const TOKEN1: u128 = 3;
const ALICE: u128 = 10;
const BOB: u128 = 11;

fn fresh_pair() -> Pair {
    Pair::new(FACTORY, PAIR_ACCOUNT, TOKEN0, TOKEN1)
}

/// A pair with reserves (2000, 2000) and 2000 shares: 1000 locked to the
/// null account, 1000 held by ALICE.
fn funded_pair() -> Pair {
    let mut pair = fresh_pair();
    let minted = pair.mint(ALICE, ALICE, 2000, 2000, 0).unwrap();
    assert_eq!(minted, 1000);
    pair
}

#[test]
fn pair_new_works() {
    let pair = fresh_pair();
    let (t0, t1) = pair.get_tokens();
    assert_eq!(t0, TOKEN0);
    assert_eq!(t1, TOKEN1);
    assert_eq!(pair.total_supply(), 0);
    let (r0, r1, ts) = pair.get_reserves();
    assert_eq!((r0, r1, ts), (0, 0, 0));
    assert!(!pair.is_locked());
}

#[test]
fn sqrt_works() {
    assert_eq!(sqrt(0), 0);
    assert_eq!(sqrt(1), 1);
    assert_eq!(sqrt(4), 2);
    assert_eq!(sqrt(9), 3);
    assert_eq!(sqrt(16), 4);
    assert_eq!(sqrt(100), 10);
    assert_eq!(sqrt(1000000), 1000);
}

#[test]
fn sqrt_is_exact_floor_on_non_squares() {
    assert_eq!(sqrt(2), 1);
    assert_eq!(sqrt(3), 1);
    assert_eq!(sqrt(5), 2);
    assert_eq!(sqrt(8), 2);
    assert_eq!(sqrt(99), 9);
    assert_eq!(sqrt(10001), 100);
    assert_eq!(sqrt(u128::MAX), 18446744073709551615);
}

#[test]
fn pair_get_amount_out_works() {
    let pair = fresh_pair();
    // (100 * 997 * 1000) / (1000 * 1000 + 100 * 997) = 99700000 / 1099700
    let amount_out = pair.get_amount_out(100, 1000, 1000).unwrap();
    assert_eq!(amount_out, 90);
}

#[test]
fn pair_get_amount_in_works() {
    let pair = fresh_pair();
    let amount_in = pair.get_amount_in(90, 1000, 1000).unwrap();
    assert!(amount_in > 90);
    assert!(amount_in <= 100);
}

#[test]
fn quote_round_trip_never_undershoots() {
    let pair = fresh_pair();
    // The rounded-up input always buys back at least the desired output.
    let amount_in = pair.get_amount_in(90, 1000, 1000).unwrap();
    assert!((99..=101).contains(&amount_in));
    let back = pair.get_amount_out(amount_in, 1000, 1000).unwrap();
    assert!(back >= 90);
    for want in [1u128, 7, 123, 499] {
        let need = pair.get_amount_in(want, 1000, 2000).unwrap();
        let got = pair.get_amount_out(need, 1000, 2000).unwrap();
        assert!(got >= want);
    }
}

#[test]
fn quote_errors_on_empty_reserves() {
    let pair = fresh_pair();
    assert_eq!(pair.get_amount_out(0, 1000, 1000), Err(Error::InsufficientInputAmount));
    assert_eq!(pair.get_amount_out(10, 0, 1000), Err(Error::InsufficientLiquidity));
    assert_eq!(pair.get_amount_out(10, 1000, 0), Err(Error::InsufficientLiquidity));
    assert_eq!(pair.get_amount_in(0, 1000, 1000), Err(Error::InsufficientOutputAmount));
    assert_eq!(pair.get_amount_in(10, 0, 1000), Err(Error::InsufficientLiquidity));
    assert_eq!(pair.get_amount_in(1000, 1000, 1000), Err(Error::InsufficientLiquidity));
}

#[test]
fn first_mint_locks_minimum_liquidity() {
    let mut pair = fresh_pair();
    // sqrt(2000 * 2000) = 2000; 1000 shares lock, 1000 go to the provider.
    let minted = pair.mint(ALICE, ALICE, 2000, 2000, 0).unwrap();
    assert_eq!(minted, 1000);
    assert_eq!(pair.balance_of(0), MINIMUM_LIQUIDITY);
    assert_eq!(pair.balance_of(ALICE), 1000);
    assert_eq!(pair.total_supply(), 2000);
    let (r0, r1, _) = pair.get_reserves();
    assert_eq!((r0, r1), (2000, 2000));
}

#[test]
fn first_mint_below_floor_fails() {
    let mut pair = fresh_pair();
    // sqrt(500 * 500) = 500 <= 1000: no shares can be minted.
    assert_eq!(pair.mint(ALICE, ALICE, 500, 500, 0), Err(Error::InsufficientLiquidityMinted));
    // Exactly the floor is still refused.
    assert_eq!(pair.mint(ALICE, ALICE, 1000, 1000, 0), Err(Error::InsufficientLiquidityMinted));
    assert_eq!(pair.total_supply(), 0);
}

#[test]
fn later_mint_takes_smaller_proportion() {
    let mut pair = funded_pair();
    // Skewed deposit: 1000 of token0, 500 of token1; the smaller
    // proportional computation (500 * 2000 / 2000 = 500) wins.
    let minted = pair.mint(BOB, BOB, 3000, 2500, 0).unwrap();
    assert_eq!(minted, 500);
    assert_eq!(pair.balance_of(BOB), 500);
    assert_eq!(pair.total_supply(), 2500);
}

#[test]
fn mint_rejects_null_recipient() {
    let mut pair = fresh_pair();
    assert_eq!(pair.mint(ALICE, 0, 2000, 2000, 0), Err(Error::InvalidTo));
}

#[test]
fn mint_overflow_is_checked() {
    let mut pair = fresh_pair();
    assert_eq!(pair.mint(ALICE, ALICE, u128::MAX, u128::MAX, 0), Err(Error::Overflow));
}

#[test]
fn proportional_burn_pays_both_sides() {
    let mut pair = fresh_pair();
    // total 2000 shares over reserves (1000, 4000).
    let minted = pair.mint(ALICE, ALICE, 1000, 4000, 0).unwrap();
    assert_eq!(minted, 1000);
    assert_eq!(pair.total_supply(), 2000);
    // Burning 500 shares returns (500*1000/2000, 500*4000/2000) = (250, 1000).
    pair.transfer(ALICE, PAIR_ACCOUNT, 500).unwrap();
    let (amount0, amount1) = pair.burn(ALICE, BOB, 0).unwrap();
    assert_eq!((amount0, amount1), (250, 1000));
    assert_eq!(pair.total_supply(), 1500);
    let (r0, r1, _) = pair.get_reserves();
    assert_eq!((r0, r1), (750, 3000));
}

#[test]
fn burn_without_shares_fails() {
    let mut pair = funded_pair();
    assert_eq!(pair.burn(ALICE, BOB, 0), Err(Error::InsufficientLiquidityBurned));
}

#[test]
fn burn_rejects_null_recipient() {
    let mut pair = funded_pair();
    pair.transfer(ALICE, PAIR_ACCOUNT, 100).unwrap();
    assert_eq!(pair.burn(ALICE, 0, 0), Err(Error::InvalidTo));
}

#[test]
fn swap_keeps_constant_product() {
    let mut pair = funded_pair();
    let (r0, r1, _) = pair.get_reserves();
    let k_before = r0 * r1;
    pair.swap(ALICE, 0, 90, BOB).unwrap();
    assert!(pair.is_locked());
    // The host pays 90 of token1 out and observes 100 of token0 paid in.
    pair.settle_swap(2100, 1910, 5).unwrap();
    assert!(!pair.is_locked());
    let (n0, n1, _) = pair.get_reserves();
    assert_eq!((n0, n1), (2100, 1910));
    assert!(n0 * n1 >= k_before);
}

#[test]
fn swap_product_grows_over_a_sequence() {
    let mut pair = funded_pair();
    let mut k_last = 2000u128 * 2000;
    let hops = [(100u128, 90u128), (250, 200), (60, 40)];
    for (pay_in, take_out) in hops {
        let (r0, r1, _) = pair.get_reserves();
        pair.swap(ALICE, 0, take_out, BOB).unwrap();
        pair.settle_swap(r0 + pay_in, r1 - take_out, 0).unwrap();
        let (n0, n1, _) = pair.get_reserves();
        assert!(n0 * n1 >= k_last);
        k_last = n0 * n1;
    }
}

#[test]
fn swap_rejects_underpaid_input() {
    let mut pair = funded_pair();
    pair.swap(ALICE, 0, 90, BOB).unwrap();
    // Only 10 paid in for 90 out: the fee-adjusted product falls.
    assert_eq!(pair.settle_swap(2010, 1910, 0), Err(Error::KValueDecreased));
    // The failed swap left no trace: reserves unchanged, lock released.
    let (r0, r1, _) = pair.get_reserves();
    assert_eq!((r0, r1), (2000, 2000));
    assert!(!pair.is_locked());
}

#[test]
fn swap_rejects_missing_input() {
    let mut pair = funded_pair();
    pair.swap(ALICE, 0, 90, BOB).unwrap();
    assert_eq!(pair.settle_swap(2000, 1910, 0), Err(Error::InsufficientInputAmount));
    assert!(!pair.is_locked());
}

#[test]
fn swap_validates_request() {
    let mut pair = funded_pair();
    assert_eq!(pair.swap(ALICE, 0, 0, BOB), Err(Error::InsufficientOutputAmount));
    assert_eq!(pair.swap(ALICE, 10, 0, 0), Err(Error::InvalidTo));
    assert_eq!(pair.swap(ALICE, 2000, 0, BOB), Err(Error::InsufficientLiquidity));
    assert_eq!(pair.swap(ALICE, 0, 2500, BOB), Err(Error::InsufficientLiquidity));
}

#[test]
fn reentrancy_is_rejected_while_swap_pending() {
    let mut pair = funded_pair();
    let before_balance = pair.balance_of(ALICE);
    pair.swap(ALICE, 0, 90, BOB).unwrap();
    // A callback during the outgoing transfer tries to reenter: every
    // state-mutating call fails with Locked.
    assert_eq!(pair.swap(BOB, 0, 10, BOB), Err(Error::Locked));
    assert_eq!(pair.mint(BOB, BOB, 3000, 3000, 0), Err(Error::Locked));
    assert_eq!(pair.burn(BOB, BOB, 0), Err(Error::Locked));
    assert_eq!(pair.sync(1, 1, 0), Err(Error::Locked));
    // The outer swap settles exactly as if the inner calls never happened.
    pair.settle_swap(2100, 1910, 0).unwrap();
    let (r0, r1, _) = pair.get_reserves();
    assert_eq!((r0, r1), (2100, 1910));
    assert_eq!(pair.balance_of(ALICE), before_balance);
    assert_eq!(pair.total_supply(), 2000);
}

#[test]
fn sync_reconciles_reserves_and_advances_oracle() {
    let mut pair = fresh_pair();
    pair.mint(ALICE, ALICE, 2000, 1000, 0).unwrap();
    // Ten seconds later: price0 accrues 1000*10/2000 = 5, price1 accrues
    // 2000*10/1000 = 20.
    pair.sync(2500, 1200, 10).unwrap();
    let (r0, r1, ts) = pair.get_reserves();
    assert_eq!((r0, r1, ts), (2500, 1200, 10));
    assert_eq!(pair.price0_cumulative_last, 5);
    assert_eq!(pair.price1_cumulative_last, 20);
}

#[test]
fn lp_transfer_works() {
    let mut pair = funded_pair();
    pair.transfer(ALICE, BOB, 400).unwrap();
    assert_eq!(pair.balance_of(ALICE), 600);
    assert_eq!(pair.balance_of(BOB), 400);
    assert_eq!(pair.total_supply(), 2000);
}

#[test]
fn lp_transfer_fails_insufficient_balance() {
    let mut pair = funded_pair();
    assert_eq!(pair.transfer(ALICE, BOB, 1001), Err(Error::InsufficientBalance));
    assert_eq!(pair.transfer(ALICE, 0, 10), Err(Error::ZeroAddress));
}

#[test]
fn lp_approve_and_transfer_from_work() {
    let mut pair = funded_pair();
    pair.approve(ALICE, BOB, 300).unwrap();
    assert_eq!(pair.allowance(ALICE, BOB), 300);
    pair.transfer_from(BOB, ALICE, BOB, 200).unwrap();
    assert_eq!(pair.balance_of(ALICE), 800);
    assert_eq!(pair.balance_of(BOB), 200);
    assert_eq!(pair.allowance(ALICE, BOB), 100);
    assert_eq!(
        pair.transfer_from(BOB, ALICE, BOB, 200),
        Err(Error::InsufficientAllowance)
    );
}

#[test]
fn settle_overflow_is_checked() {
    let mut pair = fresh_pair();
    // Reserves near 2^63 make the scaled constant product exceed u128.
    let big: u128 = 1 << 63;
    pair.mint(ALICE, ALICE, big, big, 0).unwrap();
    pair.swap(ALICE, 0, 1000, BOB).unwrap();
    assert_eq!(pair.settle_swap(big + 2000, big - 1000, 0), Err(Error::Overflow));
    assert!(!pair.is_locked());
    let (r0, r1, _) = pair.get_reserves();
    assert_eq!((r0, r1), (big, big));
}

#[test]
fn pair_quote_overflow_is_checked() {
    let pair = fresh_pair();
    assert_eq!(pair.get_amount_out(u128::MAX, 1, 1), Err(Error::Overflow));
    assert_eq!(pair.get_amount_in(1, u128::MAX, 2), Err(Error::Overflow));
}
