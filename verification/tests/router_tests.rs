use dex_core::factory::Factory;
use dex_core::pair::Pair;
use dex_core::router::{Error, Router, RouterEvent};

const SETTER: u128 = 1;
const CODE_HASH: u128 = 0x42;
const FACTORY_ID: u128 = 100;
const WBZC_ID: u128 = 101;
const TOKEN_A: u128 = 2;
const TOKEN_B: u128 = 3;
const TOKEN_C: u128 = 4;
const ALICE: u128 = 10;
const BOB: u128 = 77;

/// Creates a pair in the registry and a matching funded pair instance.
fn add_pair(
    factory: &mut Factory,
    pairs: &mut Vec<Pair>,
    token_x: u128,
    token_y: u128,
    balance0: u128,
    balance1: u128,
) {
    let pair_id = factory.create_pair(token_x, token_y).unwrap();
    let (token0, token1) = if token_x < token_y {
        (token_x, token_y)
    } else {
        (token_y, token_x)
    };
    let mut pair = Pair::new(FACTORY_ID, pair_id, token0, token1);
    if balance0 > 0 {
        pair.mint(ALICE, ALICE, balance0, balance1, 0).unwrap();
    }
    pairs.push(pair);
}

/// A two-hop market: A/B at (100000, 200000) and B/C at (50000, 80000).
fn setup() -> (Router, Factory, Vec<Pair>) {
    let mut factory = Factory::new(SETTER, CODE_HASH);
    let mut pairs: Vec<Pair> = Vec::new();
    add_pair(&mut factory, &mut pairs, TOKEN_A, TOKEN_B, 100000, 200000);
    add_pair(&mut factory, &mut pairs, TOKEN_B, TOKEN_C, 50000, 80000);
    (Router::new(FACTORY_ID, WBZC_ID), factory, pairs)
}

#[test]
fn router_new_works() {
    let router = Router::new(FACTORY_ID, WBZC_ID);
    assert_eq!(router.factory(), FACTORY_ID);
    assert_eq!(router.wbzc(), WBZC_ID);
}

#[test]
fn quote_works() {
    let router = Router::new(FACTORY_ID, WBZC_ID);
    // 500 * 2000 / 1000 = 1000.
    assert_eq!(router.quote(500, 1000, 2000), Ok(1000));
    assert_eq!(router.quote(0, 1000, 2000), Err(Error::ZeroAmount));
    assert_eq!(router.quote(500, 0, 2000), Err(Error::InsufficientLiquidity));
    assert_eq!(router.quote(500, 1000, 0), Err(Error::InsufficientLiquidity));
}

#[test]
fn router_get_amount_out_works() {
    let router = Router::new(FACTORY_ID, WBZC_ID);
    // (100 * 997 * 2000) / (1000 * 1000 + 100 * 997) = 181.35...
    let amount_out = router.get_amount_out(100, 1000, 2000).unwrap();
    assert!(amount_out > 180 && amount_out < 182);
}

#[test]
fn router_get_amount_in_works() {
    let router = Router::new(FACTORY_ID, WBZC_ID);
    let amount_in = router.get_amount_in(181, 1000, 2000).unwrap();
    assert!(amount_in > 99 && amount_in < 101);
}

#[test]
fn amounts_out_compose_hop_by_hop() {
    let (router, factory, pairs) = setup();
    let path = vec![TOKEN_A, TOKEN_B, TOKEN_C];
    let amounts = router.get_amounts_out(1000, &path, &factory, &pairs).unwrap();
    assert_eq!(amounts.len(), 3);
    assert_eq!(amounts[0], 1000);
    // The vector equals two manually chained single-hop quotes.
    let first = router.get_amount_out(1000, 100000, 200000).unwrap();
    let second = router.get_amount_out(first, 50000, 80000).unwrap();
    assert_eq!(amounts[1], first);
    assert_eq!(amounts[2], second);
    assert_eq!(first, 1974);
    assert_eq!(second, 3029);
}

#[test]
fn amounts_in_walks_the_path_backward() {
    let (router, factory, pairs) = setup();
    let path = vec![TOKEN_A, TOKEN_B, TOKEN_C];
    let amounts = router.get_amounts_in(3029, &path, &factory, &pairs).unwrap();
    assert_eq!(amounts.len(), 3);
    assert_eq!(amounts[2], 3029);
    let mid = router.get_amount_in(3029, 50000, 80000).unwrap();
    assert_eq!(amounts[1], mid);
    assert_eq!(amounts[0], router.get_amount_in(mid, 100000, 200000).unwrap());
}

#[test]
fn amounts_out_rejects_short_and_unknown_paths() {
    let (router, factory, pairs) = setup();
    assert_eq!(
        router.get_amounts_out(1000, &vec![TOKEN_A], &factory, &pairs),
        Err(Error::InvalidPath)
    );
    assert_eq!(
        router.get_amounts_out(1000, &vec![TOKEN_A, TOKEN_C], &factory, &pairs),
        Err(Error::PairNotFound)
    );
    assert_eq!(
        router.get_amounts_in(10, &vec![TOKEN_C], &factory, &pairs),
        Err(Error::InvalidPath)
    );
}

#[test]
fn swap_exact_in_moves_reserves() {
    let (mut router, factory, mut pairs) = setup();
    let path = vec![TOKEN_A, TOKEN_B];
    let amounts = router
        .swap_exact_tokens_for_tokens(ALICE, 1000, 1900, &path, BOB, 100, 50, &factory, &mut pairs)
        .unwrap();
    assert_eq!(amounts, vec![1000, 1974]);
    let (r0, r1, _) = pairs[0].get_reserves();
    assert_eq!((r0, r1), (101000, 198026));
    match &router.events[0] {
        RouterEvent::SwapExecuted(event) => {
            assert_eq!(event.sender, ALICE);
            assert_eq!(event.path, path);
            assert_eq!(event.amounts, amounts);
        },
        other => panic!("unexpected event {:?}", other),
    }
}

#[test]
fn swap_exact_in_routes_through_two_hops() {
    let (mut router, factory, mut pairs) = setup();
    let path = vec![TOKEN_A, TOKEN_B, TOKEN_C];
    let amounts = router
        .swap_exact_tokens_for_tokens(ALICE, 1000, 3000, &path, BOB, 100, 50, &factory, &mut pairs)
        .unwrap();
    assert_eq!(amounts, vec![1000, 1974, 3029]);
    let (r0, r1, _) = pairs[0].get_reserves();
    assert_eq!((r0, r1), (101000, 198026));
    let (s0, s1, _) = pairs[1].get_reserves();
    // The middle amount flowed into the second pair; the output left it.
    assert_eq!((s0, s1), (51974, 76971));
}

#[test]
fn swap_exact_in_enforces_deadline_and_slippage() {
    let (mut router, factory, mut pairs) = setup();
    let path = vec![TOKEN_A, TOKEN_B];
    assert_eq!(
        router.swap_exact_tokens_for_tokens(
            ALICE, 1000, 0, &path, BOB, 100, 101, &factory, &mut pairs
        ),
        Err(Error::Expired)
    );
    assert_eq!(
        router.swap_exact_tokens_for_tokens(
            ALICE, 1000, 2000, &path, BOB, 100, 50, &factory, &mut pairs
        ),
        Err(Error::InsufficientOutputAmount)
    );
    // Failed calls left the reserves alone.
    let (r0, r1, _) = pairs[0].get_reserves();
    assert_eq!((r0, r1), (100000, 200000));
}

#[test]
fn swap_exact_out_works() {
    let (mut router, factory, mut pairs) = setup();
    let path = vec![TOKEN_A, TOKEN_B];
    let amounts = router
        .swap_tokens_for_exact_tokens(ALICE, 500, 300, &path, BOB, 100, 50, &factory, &mut pairs)
        .unwrap();
    assert_eq!(amounts, vec![252, 500]);
    let (r0, r1, _) = pairs[0].get_reserves();
    assert_eq!((r0, r1), (100252, 199500));
}

#[test]
fn swap_exact_out_enforces_input_cap() {
    let (mut router, factory, mut pairs) = setup();
    let path = vec![TOKEN_A, TOKEN_B];
    assert_eq!(
        router.swap_tokens_for_exact_tokens(
            ALICE, 500, 200, &path, BOB, 100, 50, &factory, &mut pairs
        ),
        Err(Error::ExcessiveInputAmount)
    );
}

#[test]
fn swap_rejects_a_path_reusing_a_pair() {
    let (mut router, factory, mut pairs) = setup();
    // A -> B -> A would have to run the same pair twice in one call.
    let path = vec![TOKEN_A, TOKEN_B, TOKEN_A];
    assert_eq!(
        router.swap_exact_tokens_for_tokens(
            ALICE, 1000, 0, &path, BOB, 100, 50, &factory, &mut pairs
        ),
        Err(Error::SwapFailed)
    );
    let (r0, r1, _) = pairs[0].get_reserves();
    assert_eq!((r0, r1), (100000, 200000));
}

#[test]
fn add_liquidity_first_provision_uses_desired_amounts() {
    let mut factory = Factory::new(SETTER, CODE_HASH);
    let mut pairs: Vec<Pair> = Vec::new();
    add_pair(&mut factory, &mut pairs, TOKEN_A, TOKEN_B, 0, 0);
    let mut router = Router::new(FACTORY_ID, WBZC_ID);
    let result = router
        .add_liquidity(ALICE, TOKEN_A, TOKEN_B, 5000, 5000, 0, 0, ALICE, 10, 5, &factory, &mut pairs)
        .unwrap();
    // sqrt(5000 * 5000) - 1000 = 4000 shares.
    assert_eq!(result, (5000, 5000, 4000));
    let (r0, r1, _) = pairs[0].get_reserves();
    assert_eq!((r0, r1), (5000, 5000));
}

#[test]
fn add_liquidity_matches_the_price_ratio() {
    let mut factory = Factory::new(SETTER, CODE_HASH);
    let mut pairs: Vec<Pair> = Vec::new();
    add_pair(&mut factory, &mut pairs, TOKEN_A, TOKEN_B, 5000, 5000);
    let mut router = Router::new(FACTORY_ID, WBZC_ID);
    // Desired 2000 of B is capped to the 1000 matching A's 1000.
    let result = router
        .add_liquidity(ALICE, TOKEN_A, TOKEN_B, 1000, 2000, 0, 0, ALICE, 10, 5, &factory, &mut pairs)
        .unwrap();
    assert_eq!(result, (1000, 1000, 1000));
    let (r0, r1, _) = pairs[0].get_reserves();
    assert_eq!((r0, r1), (6000, 6000));
    // A minimum above the matched amount is slippage.
    assert_eq!(
        router.add_liquidity(
            ALICE, TOKEN_A, TOKEN_B, 1000, 2000, 0, 1500, ALICE, 10, 5, &factory, &mut pairs
        ),
        Err(Error::InsufficientBAmount)
    );
    assert_eq!(
        router.add_liquidity(
            ALICE, TOKEN_A, TOKEN_B, 1000, 500, 600, 0, ALICE, 10, 5, &factory, &mut pairs
        ),
        Err(Error::InsufficientAAmount)
    );
}

#[test]
fn add_liquidity_requires_a_pair_and_a_live_deadline() {
    let (mut router, factory, mut pairs) = setup();
    assert_eq!(
        router.add_liquidity(
            ALICE, TOKEN_A, TOKEN_C, 100, 100, 0, 0, ALICE, 10, 11, &factory, &mut pairs
        ),
        Err(Error::Expired)
    );
    assert_eq!(
        router.add_liquidity(
            ALICE, TOKEN_A, TOKEN_C, 100, 100, 0, 0, ALICE, 10, 5, &factory, &mut pairs
        ),
        Err(Error::PairNotFound)
    );
}

#[test]
fn remove_liquidity_pays_proportionally() {
    let mut factory = Factory::new(SETTER, CODE_HASH);
    let mut pairs: Vec<Pair> = Vec::new();
    add_pair(&mut factory, &mut pairs, TOKEN_A, TOKEN_B, 6000, 6000);
    let mut router = Router::new(FACTORY_ID, WBZC_ID);
    // The provider holds 5000 of the 6000 shares.
    let result = router
        .remove_liquidity(ALICE, TOKEN_A, TOKEN_B, 1000, 0, 0, ALICE, 10, 5, &factory, &mut pairs)
        .unwrap();
    assert_eq!(result, (1000, 1000));
    let (r0, r1, _) = pairs[0].get_reserves();
    assert_eq!((r0, r1), (5000, 5000));
    assert_eq!(pairs[0].total_supply(), 5000);
    // Slippage bounds are enforced on the paid-out amounts.
    assert_eq!(
        router.remove_liquidity(
            ALICE, TOKEN_A, TOKEN_B, 1000, 2000, 0, ALICE, 10, 5, &factory, &mut pairs
        ),
        Err(Error::InsufficientAAmount)
    );
    assert_eq!(
        router.remove_liquidity(
            ALICE, TOKEN_A, TOKEN_B, 1000, 0, 2000, ALICE, 10, 5, &factory, &mut pairs
        ),
        Err(Error::InsufficientBAmount)
    );
}

#[test]
fn quote_overflow_is_an_arithmetic_error() {
    let router = Router::new(FACTORY_ID, WBZC_ID);
    assert_eq!(router.quote(u128::MAX, 1, u128::MAX), Err(Error::ArithmeticError));
    assert_eq!(router.get_amount_out(u128::MAX, 1, 1), Err(Error::ArithmeticError));
    assert_eq!(router.get_amount_in(1, u128::MAX, 2), Err(Error::ArithmeticError));
}

#[test]
fn path_tokens_must_be_distinct_and_real() {
    let (router, factory, pairs) = setup();
    assert_eq!(
        router.get_amounts_out(1000, &vec![TOKEN_A, TOKEN_A], &factory, &pairs),
        Err(Error::IdenticalAddresses)
    );
    assert_eq!(
        router.get_amounts_out(1000, &vec![TOKEN_A, 0], &factory, &pairs),
        Err(Error::ZeroAddress)
    );
}

#[test]
fn remove_liquidity_without_shares_is_a_failed_call() {
    let (mut router, factory, mut pairs) = setup();
    // BOB holds no shares of the A/B pair.
    assert_eq!(
        router.remove_liquidity(BOB, TOKEN_A, TOKEN_B, 1000, 0, 0, BOB, 10, 5, &factory, &mut pairs),
        Err(Error::CallFailed)
    );
}
