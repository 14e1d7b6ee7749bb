use content_licensing::address::{access_tag_vec, asset_tag_vec, content_prefix, derive_address};
use content_licensing::ledger::{Asset, Ledger, LedgerError};

fn identity(b: u8) -> Vec<u8> {
    vec![b; 32]
}

fn derived_asset(owner: &Vec<u8>, price: u64, content_id: &[u8]) -> Asset {
    let tag = asset_tag_vec();
    let prefix = content_prefix(&content_id.to_vec());
    let (address, bump) = derive_address(&tag, owner, &prefix);
    Asset { owner: owner.clone(), price, content_id: content_id.to_vec(), address, bump }
}

#[test]
fn address_derivation_is_deterministic() {
    let tag = asset_tag_vec();
    let a = identity(1);
    let b = identity(2);
    let (addr1, bump1) = derive_address(&tag, &a, &b);
    let (addr2, bump2) = derive_address(&tag, &a, &b);
    assert_eq!(addr1, addr2);
    assert_eq!(bump1, bump2);
    assert_eq!(addr1.len(), 32);

    let (other, _) = derive_address(&tag, &b, &a);
    assert_ne!(addr1, other);
}

#[test]
fn address_derivation_matches_known_value() {
    let tag = asset_tag_vec();
    let owner = identity(1);
    let content = b"x".to_vec();
    let (addr, bump) = derive_address(&tag, &owner, &content);
    let expected: Vec<u8> = vec![
        47, 96, 15, 4, 228, 33, 145, 128, 110, 59, 192, 242, 136, 55, 109, 145, 65, 24, 235, 69,
        121, 114, 250, 9, 120, 160, 43, 74, 109, 227, 66, 7,
    ];
    assert_eq!(addr, expected);
    assert_eq!(bump, 163);
}

#[test]
fn content_id_prefix_is_32_bytes() {
    let long_id: Vec<u8> = (0u8..60).collect();
    let prefix = content_prefix(&long_id);
    assert_eq!(prefix, (0u8..32).collect::<Vec<u8>>());

    let short_id = b"x".to_vec();
    assert_eq!(content_prefix(&short_id), short_id);
}

#[test]
fn init_twice_yields_address_occupied() {
    let mut ledger = Ledger::new();
    let creator = identity(1);
    let content = b"arweave-tx".to_vec();

    assert!(ledger.init_asset(&creator, 50, &content).is_ok());
    let second = ledger.init_asset(&creator, 99, &content);
    assert_eq!(second.unwrap_err(), LedgerError::AddressOccupied);
}

#[test]
fn init_distinct_seeds_both_succeed() {
    let mut ledger = Ledger::new();
    let creator = identity(1);
    let other = identity(2);
    let content = b"same-content".to_vec();

    assert!(ledger.init_asset(&creator, 50, &content).is_ok());
    assert!(ledger.init_asset(&other, 50, &content).is_ok());
    assert!(ledger.init_asset(&creator, 50, &b"other-content".to_vec()).is_ok());
}

#[test]
fn grant_twice_yields_duplicate_grant() {
    let mut ledger = Ledger::new();
    let creator = identity(1);
    let user = identity(2);
    let asset = derived_asset(&creator, 10, b"clip");

    assert!(ledger.grant_access(&creator, &asset, &user).is_ok());
    let second = ledger.grant_access(&creator, &asset, &user);
    assert_eq!(second.unwrap_err(), LedgerError::DuplicateGrant);
}

#[test]
fn grant_requires_matching_owner() {
    let mut ledger = Ledger::new();
    let creator = identity(1);
    let impostor = identity(9);
    let user = identity(2);
    let asset = derived_asset(&creator, 10, b"clip");

    let refused = ledger.grant_access(&impostor, &asset, &user);
    assert_eq!(refused.unwrap_err(), LedgerError::OwnerMismatch);
}

#[test]
fn buy_with_wrong_creator_moves_nothing() {
    let mut ledger = Ledger::new();
    let creator = identity(1);
    let impostor = identity(9);
    let buyer = identity(2);
    let asset = derived_asset(&creator, 100, b"film");
    assert!(ledger.fund(&buyer, 500));

    let refused = ledger.buy_asset(&buyer, &impostor, &asset);
    assert_eq!(refused.unwrap_err(), LedgerError::OwnerMismatch);

    assert_eq!(ledger.balance(&buyer), 500);
    assert_eq!(ledger.balance(&creator), 0);
    assert_eq!(ledger.balance(&impostor), 0);
    let tag = access_tag_vec();
    let (grant_addr, _) = derive_address(&tag, &asset.address, &buyer);
    assert!(!ledger.contains_grant(&grant_addr));
}

#[test]
fn failed_transfer_leaves_no_grant() {
    let mut ledger = Ledger::new();
    let creator = identity(1);
    let buyer = identity(2);
    let asset = derived_asset(&creator, 100, b"film");
    assert!(ledger.fund(&buyer, 99));

    let refused = ledger.buy_asset(&buyer, &creator, &asset);
    assert_eq!(refused.unwrap_err(), LedgerError::TransferFailed);

    assert_eq!(ledger.balance(&buyer), 99);
    assert_eq!(ledger.balance(&creator), 0);
    let tag = access_tag_vec();
    let (grant_addr, _) = derive_address(&tag, &asset.address, &buyer);
    assert!(!ledger.contains_grant(&grant_addr));
}

#[test]
fn overflowing_credit_fails_whole_purchase() {
    let mut ledger = Ledger::new();
    let creator = identity(1);
    let buyer = identity(2);
    let asset = derived_asset(&creator, 100, b"film");
    assert!(ledger.fund(&buyer, 100));
    assert!(ledger.fund(&creator, u64::MAX - 10));

    let refused = ledger.buy_asset(&buyer, &creator, &asset);
    assert_eq!(refused.unwrap_err(), LedgerError::TransferFailed);
    assert_eq!(ledger.balance(&buyer), 100);
    assert_eq!(ledger.balance(&creator), u64::MAX - 10);
}

#[test]
fn fund_refuses_overflow() {
    let mut ledger = Ledger::new();
    let who = identity(3);
    assert!(ledger.fund(&who, u64::MAX));
    assert!(!ledger.fund(&who, 1));
    assert_eq!(ledger.balance(&who), u64::MAX);
}

#[test]
fn purchase_scenario() {
    let mut ledger = Ledger::new();
    let creator = identity(1);
    let buyer = identity(2);
    let content = b"x".to_vec();

    assert!(ledger.init_asset(&creator, 100, &content).is_ok());
    let asset_tag = asset_tag_vec();
    let (asset_addr, _) = derive_address(&asset_tag, &creator, &content_prefix(&content));
    let stored = ledger.get_asset(&asset_addr).unwrap();
    assert_eq!(stored.owner, creator);
    assert_eq!(stored.price, 100);
    assert_eq!(stored.content_id, content);
    assert_eq!(stored.address, asset_addr);

    let asset = derived_asset(&creator, 100, b"x");
    assert!(ledger.fund(&buyer, 150));
    assert!(ledger.buy_asset(&buyer, &creator, &asset).is_ok());

    assert_eq!(ledger.balance(&buyer), 50);
    assert_eq!(ledger.balance(&creator), 100);

    let access_tag = access_tag_vec();
    let (grant_addr, grant_bump) = derive_address(&access_tag, &asset_addr, &buyer);
    let grant = ledger.get_grant(&grant_addr).unwrap();
    assert_eq!(grant.asset, asset_addr);
    assert_eq!(grant.user, buyer);
    assert_eq!(grant.address, grant_addr);
    assert_eq!(grant.bump, grant_bump);

    let again = ledger.buy_asset(&buyer, &creator, &asset);
    assert_eq!(again.unwrap_err(), LedgerError::DuplicateGrant);
    assert_eq!(ledger.balance(&buyer), 50);
    assert_eq!(ledger.balance(&creator), 100);
}

#[test]
fn creator_may_buy_own_asset_without_moving_value() {
    let mut ledger = Ledger::new();
    let creator = identity(1);
    let asset = derived_asset(&creator, 100, b"own");
    assert!(ledger.fund(&creator, 100));

    assert!(ledger.buy_asset(&creator, &creator, &asset).is_ok());
    assert_eq!(ledger.balance(&creator), 100);
}
