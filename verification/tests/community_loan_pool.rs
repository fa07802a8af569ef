use xcavate::common::Origin;
use xcavate::community_loan_pool::{Error, Event, LoanPoolConfig, Pallet, Proposal};
use xcavate::ledger::Ledger;

const POOL: u64 = 5000;

fn pool() -> Pallet {
    Pallet::new(LoanPoolConfig {
        pallet_account: POOL,
        proposal_bond: 50_000,
        proposal_bond_minimum: 10,
        proposal_bond_maximum: Some(1_000),
    })
}

fn new_test_ext() -> (Pallet, Ledger) {
    let mut l = Ledger::new(1);
    l.set_free_balance(0, 10_000);
    l.set_free_balance(1, 10_000);
    l.set_free_balance(2, 5);
    l.set_free_balance(POOL, 1_000_000);
    (pool(), l)
}

#[test]
fn tests_propose_works() {
    let (mut p, mut l) = new_test_ext();
    assert_eq!(p.propose(&mut l, Origin::Signed(0), 100, 1), Ok(()));
    assert_eq!(*p.events().last().unwrap(), Event::Proposed { proposal_index: 1 });
}

#[test]
fn propose_doesnt_work_not_enough_userbalance() {
    let (mut p, mut l) = new_test_ext();
    assert_eq!(p.propose(&mut l, Origin::Signed(6), 100, 1), Err(Error::InsufficientProposersBalance));
}

#[test]
fn bond_is_a_share_within_limits() {
    let p = pool();
    assert_eq!(p.calculate_bond(100), 10);
    assert_eq!(p.calculate_bond(10_000), 500);
    assert_eq!(p.calculate_bond(333), 17);
    assert_eq!(p.calculate_bond(330), 16);
    assert_eq!(p.calculate_bond(100_000), 1_000);
    let unbounded = Pallet::new(LoanPoolConfig {
        pallet_account: POOL,
        proposal_bond: 1_000_000,
        proposal_bond_minimum: 0,
        proposal_bond_maximum: None,
    });
    assert_eq!(unbounded.calculate_bond(123_456), 123_456);
}

#[test]
fn propose_reserves_the_bond() {
    let (mut p, mut l) = new_test_ext();
    assert_eq!(p.propose(&mut l, Origin::Signed(1), 10_000, 7), Ok(()));
    assert_eq!(p.proposal_count(), 1);
    assert_eq!(p.proposals(1), Some(Proposal { proposer: 1, amount: 10_000, beneficiary: 7, bond: 500 }));
    assert_eq!(p.proposals(0), None);
    assert_eq!(l.free_balance(1), 9_500);
    assert_eq!(l.reserved_balance(1), 500);
    assert_eq!(p.propose(&mut l, Origin::Signed(1), 100, 7), Ok(()));
    assert_eq!(*p.events().last().unwrap(), Event::Proposed { proposal_index: 2 });
}

#[test]
fn loan_propose_refusals() {
    let (mut p, mut l) = new_test_ext();
    assert_eq!(p.propose(&mut l, Origin::Signed(2), 100, 7), Err(Error::InsufficientProposersBalance));
    assert_eq!(p.propose(&mut l, Origin::Root, 100, 7), Err(Error::BadOrigin));
    assert_eq!(p.proposal_count(), 0);
    assert_eq!(l.free_balance(2), 5);
}

#[test]
fn approval_pays_the_loan_and_returns_the_bond() {
    let (mut p, mut l) = new_test_ext();
    assert_eq!(p.propose(&mut l, Origin::Signed(1), 10_000, 7), Ok(()));
    assert_eq!(p.approve_proposal(&mut l, Origin::Signed(1), 1, 0, 100, 0, 8, 9), Err(Error::BadOrigin));
    assert_eq!(p.approve_proposal(&mut l, Origin::Root, 1, 0, 100, 0, 8, 9), Ok(()));
    assert_eq!(l.free_balance(1), 10_000);
    assert_eq!(l.reserved_balance(1), 0);
    assert_eq!(l.free_balance(8), 10_000);
    assert_eq!(l.free_balance(POOL), 990_000);
    assert_eq!(p.proposals(1), None);
    assert_eq!(p.approve_proposal(&mut l, Origin::Root, 1, 0, 100, 0, 8, 9), Err(Error::InvalidIndex));
}

#[test]
fn approval_needs_the_loan_pool_to_pay() {
    let (mut p, mut l) = new_test_ext();
    assert_eq!(p.propose(&mut l, Origin::Signed(1), 2_000_000, 7), Ok(()));
    assert_eq!(
        p.approve_proposal(&mut l, Origin::Root, 1, 0, 100, 0, 8, 9),
        Err(Error::InsufficientLoanPoolBalance)
    );
    assert_eq!(l.reserved_balance(1), 1_000);
    assert!(p.proposals(1).is_some());
}

#[test]
fn rejection_slashes_the_bond() {
    let (mut p, mut l) = new_test_ext();
    assert_eq!(p.propose(&mut l, Origin::Signed(1), 10_000, 7), Ok(()));
    assert_eq!(p.reject_proposal(&mut l, Origin::Root, 1), Ok(()));
    assert_eq!(l.free_balance(1), 9_500);
    assert_eq!(l.reserved_balance(1), 0);
    assert_eq!(p.proposals(1), None);
    assert_eq!(*p.events().last().unwrap(), Event::Rejected { proposal_index: 1 });
    assert_eq!(p.reject_proposal(&mut l, Origin::Root, 1), Err(Error::InvalidIndex));
}
