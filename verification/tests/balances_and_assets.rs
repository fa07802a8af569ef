use xcavate::assets::{Assets, AssetsError};
use xcavate::common::{pair_key, Origin};
use xcavate::ledger::{Ledger, LedgerError};
use xcavate::nfts::{Nfts, NftsError};
use xcavate::whitelist::{self, Error as WlError};

#[test]
fn ledger_transfer_conserves_funds() {
    let mut l = Ledger::new(10);
    l.set_free_balance(1, 100);
    assert_eq!(l.transfer(1, 2, 40, true), Ok(()));
    assert_eq!(l.free_balance(1) + l.free_balance(2), 100);
    assert_eq!(l.transfer(1, 2, 55, true), Err(LedgerError::Expendability));
    assert_eq!(l.transfer(1, 2, 61, false), Err(LedgerError::InsufficientBalance));
    assert_eq!(l.transfer(1, 2, 60, false), Ok(()));
    assert_eq!(l.free_balance(2), 100);
}

#[test]
fn ledger_locks_restrict_transfers() {
    let mut l = Ledger::new(1);
    l.set_free_balance(1, 100);
    l.set_lock(1, 70);
    assert_eq!(l.check_transfer(1, 2, 31, false), Err(LedgerError::LiquidityRestrictions));
    assert_eq!(l.transfer(1, 2, 30, false), Ok(()));
    assert_eq!(l.reserve(1, 1), Err(LedgerError::LiquidityRestrictions));
}

#[test]
fn unreserve_undoes_reserve() {
    let mut l = Ledger::new(1);
    l.set_free_balance(1, 100);
    assert_eq!(l.reserve(1, 30), Ok(()));
    assert_eq!((l.free_balance(1), l.reserved_balance(1)), (70, 30));
    assert_eq!(l.unreserve(1, 30), 0);
    assert_eq!((l.free_balance(1), l.reserved_balance(1)), (100, 0));
    assert_eq!(l.reserve(1, 30), Ok(()));
    assert_eq!(l.slash_reserved(1, 50), 30);
    assert_eq!((l.free_balance(1), l.reserved_balance(1)), (70, 0));
}

#[test]
fn asset_transfer_conserves_supply() {
    let mut a = Assets::new();
    assert_eq!(a.mint(1, 1, 5), Err(AssetsError::Unknown));
    assert_eq!(a.create(1), Ok(()));
    assert_eq!(a.mint(1, 1, 100), Ok(()));
    assert_eq!(a.transfer(1, 1, 2, 30), Ok(()));
    assert_eq!(a.balance(1, 1) + a.balance(1, 2), 100);
    assert_eq!(a.total_supply(1), Some(100));
    assert_eq!(a.transfer(1, 1, 2, 71), Err(AssetsError::BalanceLow));
    assert_eq!(a.burn(1, 2, 30), Ok(()));
    assert_eq!(a.total_supply(1), Some(70));
}

#[test]
fn nft_ownership_moves() {
    let mut n = Nfts::new();
    let c = n.take_next_collection_id();
    assert_eq!(c, 0);
    assert_eq!(n.peek_next_collection_id(), 1);
    assert_eq!(n.create_collection(c, 9), Ok(()));
    assert_eq!(n.mint(c, 0, 5), Ok(()));
    assert_eq!(n.mint(c, 0, 6), Err(NftsError::AlreadyExists));
    assert_eq!(n.transfer(c, 0, 7), Ok(()));
    assert_eq!(n.owner(c, 0), Some(7));
    assert_eq!(n.burn(c, 0, 5), Err(NftsError::NoPermission));
    assert_eq!(n.burn(c, 0, 7), Ok(()));
    assert_eq!(n.owner(c, 0), None);
}

#[test]
fn whitelist_add_then_remove_restores() {
    let mut w = whitelist::Pallet::new(2);
    assert_eq!(w.add_to_whitelist(Origin::Root, 5), Ok(()));
    assert_eq!(w.add_to_whitelist(Origin::Root, 5), Err(WlError::AccountAlreadyWhitelisted));
    assert_eq!(w.add_to_whitelist(Origin::Signed(1), 6), Err(WlError::BadOrigin));
    assert_eq!(w.add_to_whitelist(Origin::Root, 6), Ok(()));
    assert_eq!(w.add_to_whitelist(Origin::Root, 7), Err(WlError::TooManyUsers));
    assert_eq!(w.remove_from_whitelist(Origin::Root, 6), Ok(()));
    assert_eq!(w.whitelisted_accounts(), vec![5]);
    assert!(w.is_whitelisted(5));
    assert!(!w.is_whitelisted(6));
    assert_eq!(w.remove_from_whitelist(Origin::Root, 6), Err(WlError::UserNotInWhitelist));
}

#[test]
fn pair_keys_are_distinct() {
    assert_ne!(pair_key(1, 2), pair_key(2, 1));
    assert_eq!(pair_key(0, 0), 0);
    assert_eq!(pair_key(1, 0), 1u128 << 64);
}
