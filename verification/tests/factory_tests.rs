use dex_core::factory::{Error, Factory};

const SETTER: u128 = 1;
const TOKEN_A: u128 = 7;
const TOKEN_B: u128 = 5;
const OTHER: u128 = 9;
const CODE_HASH: u128 = 0x42;

#[test]
fn factory_new_works() {
    let factory = Factory::new(SETTER, CODE_HASH);
    assert_eq!(factory.fee_to_setter(), SETTER);
    assert_eq!(factory.fee_to(), None);
    assert_eq!(factory.all_pairs_length(), 0);
}

#[test]
fn create_pair_works() {
    let mut factory = Factory::new(SETTER, CODE_HASH);
    let pair = factory.create_pair(TOKEN_A, TOKEN_B).unwrap();
    assert_eq!(factory.all_pairs_length(), 1);
    assert_eq!(factory.get_pair_address(TOKEN_A, TOKEN_B), Some(pair));
    assert_eq!(factory.get_pair_address(TOKEN_B, TOKEN_A), Some(pair));
    assert_eq!(factory.get_pair_by_index(0), Some(pair));
    assert_eq!(factory.get_pair_by_index(1), None);
}

#[test]
fn create_pair_fails_identical_addresses() {
    let mut factory = Factory::new(SETTER, CODE_HASH);
    assert_eq!(factory.create_pair(TOKEN_A, TOKEN_A), Err(Error::IdenticalAddresses));
}

#[test]
fn create_pair_fails_zero_address() {
    let mut factory = Factory::new(SETTER, CODE_HASH);
    assert_eq!(factory.create_pair(TOKEN_A, 0), Err(Error::ZeroAddress));
    assert_eq!(factory.create_pair(0, TOKEN_B), Err(Error::ZeroAddress));
}

#[test]
fn create_pair_fails_if_exists() {
    let mut factory = Factory::new(SETTER, CODE_HASH);
    factory.create_pair(TOKEN_A, TOKEN_B).unwrap();
    assert_eq!(factory.create_pair(TOKEN_A, TOKEN_B), Err(Error::PairExists));
    assert_eq!(factory.create_pair(TOKEN_B, TOKEN_A), Err(Error::PairExists));
}

#[test]
fn registry_is_symmetric_and_ids_follow_creation_order() {
    let mut factory = Factory::new(SETTER, CODE_HASH);
    let first = factory.create_pair(TOKEN_A, TOKEN_B).unwrap();
    let second = factory.create_pair(TOKEN_B, OTHER).unwrap();
    assert_eq!(first, 1);
    assert_eq!(second, 2);
    assert_eq!(factory.get_pair_address(TOKEN_A, TOKEN_B), factory.get_pair_address(TOKEN_B, TOKEN_A));
    assert_eq!(factory.get_pair_address(OTHER, TOKEN_B), Some(second));
    // A pair never created resolves to nothing, in either order.
    assert_eq!(factory.get_pair_address(TOKEN_A, OTHER), None);
    assert_eq!(factory.get_pair_address(OTHER, TOKEN_A), None);
    assert_eq!(factory.get_pair_address(TOKEN_A, TOKEN_A), None);
}

#[test]
fn set_fee_to_works() {
    let mut factory = Factory::new(SETTER, CODE_HASH);
    factory.set_fee_to(SETTER, Some(OTHER)).unwrap();
    assert_eq!(factory.fee_to(), Some(OTHER));
    factory.set_fee_to(SETTER, None).unwrap();
    assert_eq!(factory.fee_to(), None);
}

#[test]
fn set_fee_to_fails_not_authorized() {
    let mut factory = Factory::new(SETTER, CODE_HASH);
    assert_eq!(factory.set_fee_to(OTHER, Some(OTHER)), Err(Error::NotAuthorized));
}

#[test]
fn set_fee_to_setter_works() {
    let mut factory = Factory::new(SETTER, CODE_HASH);
    factory.set_fee_to_setter(SETTER, OTHER).unwrap();
    assert_eq!(factory.fee_to_setter(), OTHER);
    // The old setter lost the role.
    assert_eq!(factory.set_fee_to_setter(SETTER, SETTER), Err(Error::NotAuthorized));
}

#[test]
fn set_fee_to_setter_rejects_null() {
    let mut factory = Factory::new(SETTER, CODE_HASH);
    assert_eq!(factory.set_fee_to_setter(SETTER, 0), Err(Error::ZeroAddress));
}
