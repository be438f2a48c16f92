use anchor_amm::address::Address;
use anchor_amm::custody::{transfer, Authorizer, SigningCapability};
use anchor_amm::errors::AmmError;
use anchor_amm::state::{Config, TokenAccount};

fn key(tag: u8) -> Address {
    Address { bytes: [tag; 32] }
}

fn account(mint: u8, owner: u8, amount: u64) -> TokenAccount {
    TokenAccount { mint: key(mint), owner: key(owner), amount }
}

#[test]
fn addresses_are_equal_when_all_bytes_are() {
    assert_eq!(key(7), key(7));
    assert_ne!(key(7), key(8));
    let mut bytes = [7u8; 32];
    bytes[31] = 8;
    assert_ne!(key(7), Address { bytes });
    let mut first = [7u8; 32];
    first[0] = 0;
    assert_ne!(key(7), Address { bytes: first });
    bytes[31] = 7;
    assert_eq!(key(7), Address { bytes });
}

#[test]
fn transfer_moves_the_amount() {
    let mut from = account(1, 10, 500);
    let mut to = account(1, 20, 40);
    assert_eq!(transfer(&mut from, &mut to, &Authorizer::User(key(10)), 120), Ok(()));
    assert_eq!(from, account(1, 10, 380));
    assert_eq!(to, account(1, 20, 160));
}

#[test]
fn transfer_of_the_whole_balance() {
    let mut from = account(1, 10, 500);
    let mut to = account(1, 20, 0);
    assert_eq!(transfer(&mut from, &mut to, &Authorizer::User(key(10)), 500), Ok(()));
    assert_eq!(from.amount, 0);
    assert_eq!(to.amount, 500);
}

#[test]
fn transfer_of_nothing_changes_nothing() {
    let mut from = account(1, 10, 500);
    let mut to = account(1, 20, 40);
    assert_eq!(transfer(&mut from, &mut to, &Authorizer::User(key(10)), 0), Ok(()));
    assert_eq!(from, account(1, 10, 500));
    assert_eq!(to, account(1, 20, 40));
}

#[test]
fn transfer_under_the_pool_capability() {
    let mut vault = account(1, 30, 900);
    let mut to = account(1, 20, 1);
    let capability = SigningCapability::derive(key(30), 42, 254);
    assert_eq!(capability, SigningCapability { pool: key(30), seed: 42, bump: 254 });
    assert_eq!(transfer(&mut vault, &mut to, &Authorizer::Pool(capability), 900), Ok(()));
    assert_eq!(vault.amount, 0);
    assert_eq!(to.amount, 901);
}

#[test]
fn transfer_rejects_two_assets() {
    let mut from = account(1, 10, 500);
    let mut to = account(2, 20, 40);
    assert_eq!(
        transfer(&mut from, &mut to, &Authorizer::User(key(10)), 120),
        Err(AmmError::MintMismatch)
    );
    assert_eq!(from, account(1, 10, 500));
    assert_eq!(to, account(2, 20, 40));
}

#[test]
fn transfer_rejects_a_stranger() {
    let mut from = account(1, 10, 500);
    let mut to = account(1, 20, 40);
    assert_eq!(
        transfer(&mut from, &mut to, &Authorizer::User(key(20)), 120),
        Err(AmmError::Unauthorized)
    );
    let capability = SigningCapability::derive(key(11), 0, 255);
    assert_eq!(
        transfer(&mut from, &mut to, &Authorizer::Pool(capability), 120),
        Err(AmmError::Unauthorized)
    );
    assert_eq!(from, account(1, 10, 500));
    assert_eq!(to, account(1, 20, 40));
}

#[test]
fn transfer_rejects_more_than_the_balance() {
    let mut from = account(1, 10, 500);
    let mut to = account(1, 20, 40);
    assert_eq!(
        transfer(&mut from, &mut to, &Authorizer::User(key(10)), 501),
        Err(AmmError::InsufficientFunds)
    );
    assert_eq!(from, account(1, 10, 500));
    assert_eq!(to, account(1, 20, 40));
}

#[test]
fn transfer_rejects_a_full_destination() {
    let mut from = account(1, 10, 500);
    let mut to = account(1, 20, u64::MAX - 119);
    assert_eq!(
        transfer(&mut from, &mut to, &Authorizer::User(key(10)), 120),
        Err(AmmError::ArithmeticOverflow)
    );
    assert_eq!(from, account(1, 10, 500));
    assert_eq!(to, account(1, 20, u64::MAX - 119));
    assert_eq!(transfer(&mut from, &mut to, &Authorizer::User(key(10)), 119), Ok(()));
    assert_eq!(to.amount, u64::MAX);
}

#[test]
fn transfer_checks_the_asset_before_the_authority_before_the_balance() {
    let mut from = account(1, 10, 5);
    let mut to = account(2, 20, u64::MAX);
    assert_eq!(
        transfer(&mut from, &mut to, &Authorizer::User(key(99)), 6),
        Err(AmmError::MintMismatch)
    );
    let mut to = account(1, 20, u64::MAX);
    assert_eq!(
        transfer(&mut from, &mut to, &Authorizer::User(key(99)), 6),
        Err(AmmError::Unauthorized)
    );
    assert_eq!(
        transfer(&mut from, &mut to, &Authorizer::User(key(10)), 6),
        Err(AmmError::InsufficientFunds)
    );
    assert_eq!(
        transfer(&mut from, &mut to, &Authorizer::User(key(10)), 5),
        Err(AmmError::ArithmeticOverflow)
    );
}

#[test]
fn authorizer_acts_as_its_identity() {
    assert_eq!(Authorizer::User(key(3)).authority(), key(3));
    let capability = SigningCapability::derive(key(4), 9, 1);
    assert_eq!(Authorizer::Pool(capability).authority(), key(4));
}

#[test]
fn signer_seeds_are_tag_seed_and_bump() {
    let capability = SigningCapability::derive(key(4), 0x0102_0304_0506_0708, 253);
    let seeds = capability.signer_seeds();
    assert_eq!(seeds.len(), 3);
    assert_eq!(seeds[0], b"config".to_vec());
    assert_eq!(seeds[1], vec![8u8, 7, 6, 5, 4, 3, 2, 1]);
    assert_eq!(seeds[2], vec![253u8]);
}

#[test]
fn signer_seeds_of_the_smallest_and_largest_seed() {
    let low = SigningCapability::derive(key(4), 0, 0).signer_seeds();
    assert_eq!(low, vec![b"config".to_vec(), vec![0u8; 8], vec![0u8]]);
    let high = SigningCapability::derive(key(4), u64::MAX, 255).signer_seeds();
    assert_eq!(high, vec![b"config".to_vec(), vec![255u8; 8], vec![255u8]]);
    let one = SigningCapability::derive(key(4), 1, 7).signer_seeds();
    assert_eq!(one[1], vec![1u8, 0, 0, 0, 0, 0, 0, 0]);
}

#[test]
fn descriptor_takes_a_fee_below_the_whole() {
    let config = Config::new(5, key(1), key(2), 30, false, 254);
    assert_eq!(
        config,
        Some(Config {
            seed: 5,
            mint_x: key(1),
            mint_y: key(2),
            fee: 30,
            locked: false,
            config_bump: 254,
        })
    );
    assert!(Config::new(5, key(1), key(2), 0, true, 0).is_some());
    assert!(Config::new(5, key(1), key(2), 9_999, true, 0).is_some());
}

#[test]
fn descriptor_refuses_a_fee_of_the_whole_or_more() {
    assert_eq!(Config::new(5, key(1), key(2), 10_000, false, 254), None);
    assert_eq!(Config::new(5, key(1), key(2), u16::MAX, false, 254), None);
}
