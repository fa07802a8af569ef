use xcavate::assets::Assets;
use xcavate::common::{AccountId, Origin};
use xcavate::ledger::{Ledger, LedgerError};
use xcavate::marketplace::{LegalProperty, Pallet as Market};
use xcavate::nfts::Nfts;
use xcavate::property_management::{lex_less, Error, Pallet};
use xcavate::whitelist;

const MARKET: AccountId = 1000;
const TREASURY: AccountId = 1001;
const COMMUNITY: AccountId = 1002;
const PM: AccountId = 2000;

struct Env {
    pm: Pallet,
    market: Market,
    assets: Assets,
    nfts: Nfts,
    wl: whitelist::Pallet,
    balances: Ledger,
}

fn new_test_ext() -> Env {
    let mut assets = Assets::new();
    assets.create(1).unwrap();
    assets.mint(1, 0, 20_000_000).unwrap();
    assets.mint(1, 1, 10_000_000).unwrap();
    assets.mint(1, 2, 1_150_000).unwrap();
    assets.mint(1, 3, 1_000_000).unwrap();
    let mut balances = Ledger::new(1);
    balances.set_free_balance(0, 20_000_000);
    balances.set_free_balance(1, 14_000_000);
    balances.set_free_balance(2, 150_000);
    balances.set_free_balance(3, 150_000);
    balances.set_free_balance(4, 5_000);
    balances.set_free_balance(PM, 5_000);
    Env {
        pm: Pallet::new(PM, 100, 100, 100),
        market: Market::new(MARKET, TREASURY, COMMUNITY, 250),
        assets,
        nfts: Nfts::new(),
        wl: whitelist::Pallet::new(1000),
        balances,
    }
}

fn root() -> Origin {
    Origin::Root
}

fn signed(who: AccountId) -> Origin {
    Origin::Signed(who)
}

impl Env {
    /// A region 0 with the location [10, 10].
    fn create_new_location(&mut self) {
        self.market.create_new_region(&mut self.nfts, root()).unwrap();
        self.market.create_new_location(root(), 0, vec![10, 10]).unwrap();
    }

    fn add_to_whitelist(&mut self, who: AccountId) {
        self.wl.add_to_whitelist(root(), who).unwrap();
    }

    fn list_object(&mut self, seller: AccountId, token_price: u128) {
        let r = self.market.list_object(
            &mut self.assets,
            &mut self.nfts,
            &self.wl,
            signed(seller),
            0,
            vec![10, 10],
            token_price,
            100,
            vec![22, 22],
        );
        assert_eq!(r, Ok(()));
    }

    fn buy_token(&mut self, buyer: AccountId, listing: u32, amount: u32) {
        assert_eq!(self.market.buy_token(&mut self.assets, &self.wl, signed(buyer), listing, amount), Ok(()));
    }

    /// Lawyers 10 and 11 take the sold-out listing and approve it, which
    /// makes the buyers owners of the property.
    fn approve(&mut self, listing: u32) {
        if !self.market.real_estate_lawyer(10) {
            self.market.register_lawyer(root(), 10).unwrap();
            self.market.register_lawyer(root(), 11).unwrap();
        }
        let m = &mut self.market;
        m.lawyer_claim_property(signed(10), listing, LegalProperty::RealEstateDeveloperSite, 4_000).unwrap();
        m.lawyer_claim_property(signed(11), listing, LegalProperty::SpvSite, 4_000).unwrap();
        m.lawyer_confirm_documents(&mut self.assets, &mut self.nfts, signed(10), listing, true).unwrap();
        m.lawyer_confirm_documents(&mut self.assets, &mut self.nfts, signed(11), listing, true).unwrap();
    }

    fn add_letting_agent(&mut self, location: u32, who: AccountId) -> Result<(), Error> {
        self.pm.add_letting_agent(&self.market, root(), location, who)
    }

    fn letting_agent_deposit(&mut self, who: AccountId) -> Result<(), Error> {
        self.pm.letting_agent_deposit(&mut self.balances, signed(who))
    }

    fn set_letting_agent(&mut self, who: AccountId, collection: u32, item: u32) -> Result<(), Error> {
        self.pm.set_letting_agent(&self.market, signed(who), collection, item)
    }

    fn distribute_income(&mut self, who: AccountId, asset: u32, amount: u128) -> Result<(), Error> {
        self.pm.distribute_income(&mut self.balances, &self.market, signed(who), asset, amount)
    }

    fn withdraw_funds(&mut self, who: AccountId) -> Result<(), Error> {
        self.pm.withdraw_funds(&mut self.balances, signed(who))
    }
}

#[test]
fn add_letting_agent_works() {
    let mut t = new_test_ext();
    t.create_new_location();
    assert_eq!(t.add_letting_agent(0, 0), Ok(()));
    assert_eq!(t.pm.letting_info(0).is_some(), true);
}

#[test]
fn add_letting_agent_fails() {
    let mut t = new_test_ext();
    assert_eq!(t.add_letting_agent(0, 0), Err(Error::LocationUnknown));
    t.create_new_location();
    assert_eq!(t.add_letting_agent(0, 0), Ok(()));
    assert_eq!(t.pm.letting_info(0).is_some(), true);
}

#[test]
fn add_letting_agent_needs_root() {
    let mut t = new_test_ext();
    t.create_new_location();
    assert_eq!(t.pm.add_letting_agent(&t.market, signed(0), 0, 0), Err(Error::BadOrigin));
    assert_eq!(t.pm.letting_info(0).is_none(), true);
}

#[test]
fn let_letting_agent_deposit() {
    let mut t = new_test_ext();
    t.create_new_location();
    assert_eq!(t.add_letting_agent(0, 0), Ok(()));
    assert_eq!(t.letting_agent_deposit(0), Ok(()));
    assert_eq!(t.balances.free_balance(0), 19_999_900);
    assert_eq!(t.balances.reserved_balance(0), 100);
}

#[test]
fn let_letting_agent_deposit_fails() {
    let mut t = new_test_ext();
    t.create_new_location();
    assert_eq!(t.add_letting_agent(0, 0), Ok(()));
    assert_eq!(t.letting_agent_deposit(0), Ok(()));
    assert_eq!(t.letting_agent_deposit(0), Err(Error::AlreadyDeposited));
    assert_eq!(t.letting_agent_deposit(1), Err(Error::NoPermission));
    assert_eq!(t.balances.free_balance(0), 19_999_900);
    for x in 1..100u64 {
        assert_eq!(t.add_letting_agent(0, x), Ok(()));
        t.balances.set_free_balance(x, 200);
        assert_eq!(t.letting_agent_deposit(x), Ok(()));
    }
    assert_eq!(t.add_letting_agent(0, 100), Ok(()));
    t.balances.set_free_balance(100, 200);
    assert_eq!(t.letting_agent_deposit(100), Err(Error::TooManyLettingAgents));
}

#[test]
fn let_letting_agent_deposit_not_enough_funds() {
    let mut t = new_test_ext();
    t.create_new_location();
    assert_eq!(t.add_letting_agent(0, 5), Ok(()));
    assert_eq!(t.letting_agent_deposit(5), Err(Error::Ledger(LedgerError::InsufficientBalance)));
}

#[test]
fn set_letting_agent_works() {
    let mut t = new_test_ext();
    t.create_new_location();
    t.add_to_whitelist(0);
    t.add_to_whitelist(1);
    t.list_object(0, 10_000);
    t.buy_token(1, 0, 100);
    t.list_object(0, 10_000);
    t.buy_token(1, 1, 100);
    t.list_object(0, 10_000);
    t.buy_token(1, 2, 100);
    assert_eq!(t.add_letting_agent(0, 2), Ok(()));
    assert_eq!(t.add_letting_agent(0, 3), Ok(()));
    assert_eq!(t.add_letting_agent(0, 4), Ok(()));
    assert_eq!(t.letting_agent_deposit(2), Ok(()));
    assert_eq!(t.letting_agent_deposit(3), Ok(()));
    assert_eq!(t.letting_agent_deposit(4), Ok(()));
    assert_eq!(t.set_letting_agent(0, 0, 0), Ok(()));
    assert_eq!(t.set_letting_agent(0, 0, 1), Ok(()));
    assert_eq!(t.set_letting_agent(0, 0, 2), Ok(()));
    t.list_object(0, 10_000);
    t.buy_token(1, 3, 100);
    assert_eq!(t.set_letting_agent(0, 0, 3), Ok(()));
    assert_eq!(t.pm.letting_storage(0).unwrap(), 2);
    assert_eq!(t.pm.letting_agent_locations(0).len(), 3);
    assert_eq!(t.pm.letting_info(2).unwrap().assigned_properties.len(), 2);
    assert_eq!(t.pm.letting_info(3).unwrap().assigned_properties.len(), 1);
    assert_eq!(t.pm.letting_info(4).unwrap().assigned_properties.len(), 1);
}

#[test]
fn set_letting_agent_fails() {
    let mut t = new_test_ext();
    t.create_new_location();
    t.add_to_whitelist(0);
    t.add_to_whitelist(1);
    assert_eq!(t.add_letting_agent(0, 0), Ok(()));
    assert_eq!(t.letting_agent_deposit(0), Ok(()));
    assert_eq!(t.balances.free_balance(0), 19_999_900);
    assert_eq!(t.set_letting_agent(0, 0, 0), Err(Error::NoNftFound));
    t.list_object(0, 1);
    t.buy_token(1, 0, 100);
    assert_eq!(t.set_letting_agent(0, 0, 0), Ok(()));
    assert_eq!(t.set_letting_agent(0, 0, 0), Err(Error::LettingAgentAlreadySet));
    for x in 1..100u32 {
        t.list_object(0, 100);
        t.add_to_whitelist((x + 1) as u64);
        t.assets.mint(1, x as u64, 100_000).unwrap();
        t.buy_token(x as u64, x, 100);
        assert_eq!(t.set_letting_agent(0, 0, x), Ok(()));
    }
    t.list_object(0, 100);
    t.buy_token(1, 100, 100);
    assert_eq!(t.set_letting_agent(0, 0, 100), Err(Error::TooManyAssignedProperties));
    assert_eq!(t.pm.letting_storage(100), Some(0));
    assert_eq!(t.pm.letting_storage(101), None);
    assert_eq!(t.pm.letting_info(0).unwrap().assigned_properties.len(), 100);
}

#[test]
fn set_letting_agent_no_letting_agent() {
    let mut t = new_test_ext();
    t.create_new_location();
    t.add_to_whitelist(0);
    t.add_to_whitelist(1);
    t.list_object(0, 10_000);
    t.buy_token(1, 0, 20);
    assert_eq!(t.set_letting_agent(0, 0, 0), Err(Error::NoLettingAgentFound));
}

#[test]
fn distribute_income_works() {
    let mut t = new_test_ext();
    t.create_new_location();
    t.add_to_whitelist(0);
    t.add_to_whitelist(1);
    t.add_to_whitelist(2);
    t.add_to_whitelist(3);
    t.list_object(0, 10_000);
    t.buy_token(1, 0, 20);
    t.buy_token(2, 0, 30);
    t.buy_token(3, 0, 50);
    t.approve(0);
    assert_eq!(t.distribute_income(4, 0, 200), Ok(()));
    assert_eq!(t.pm.stored_funds(1), 40);
    assert_eq!(t.pm.stored_funds(2), 60);
    assert_eq!(t.pm.stored_funds(3), 100);
    assert_eq!(t.balances.free_balance(4), 4800);
}

#[test]
fn distribute_income_fails() {
    let mut t = new_test_ext();
    t.create_new_location();
    t.add_to_whitelist(0);
    t.add_to_whitelist(1);
    t.list_object(0, 10_000);
    t.buy_token(1, 0, 100);
    t.approve(0);
    assert_eq!(t.distribute_income(5, 0, 200), Err(Error::NotEnoughFunds));
    assert_eq!(t.pm.stored_funds(1), 0);
}

#[test]
fn withdraw_funds_works() {
    let mut t = new_test_ext();
    t.create_new_location();
    t.add_to_whitelist(0);
    t.add_to_whitelist(1);
    t.list_object(0, 10_000);
    t.buy_token(1, 0, 100);
    t.approve(0);
    assert_eq!(t.distribute_income(4, 0, 200), Ok(()));
    assert_eq!(t.pm.stored_funds(1), 200);
    assert_eq!(t.balances.free_balance(4), 4800);
    assert_eq!(t.balances.free_balance(t.pm.account_id()), 5200);
    assert_eq!(t.withdraw_funds(1), Ok(()));
    assert_eq!(t.balances.free_balance(t.pm.account_id()), 5000);
    assert_eq!(t.balances.free_balance(1), 14_000_200);
}

#[test]
fn withdraw_funds_fails() {
    let mut t = new_test_ext();
    t.create_new_location();
    t.add_to_whitelist(0);
    t.add_to_whitelist(1);
    t.list_object(0, 10_000);
    t.buy_token(1, 0, 100);
    t.approve(0);
    assert_eq!(t.distribute_income(4, 0, 200), Ok(()));
    assert_eq!(t.pm.stored_funds(1), 200);
    assert_eq!(t.withdraw_funds(2), Err(Error::UserHasNoFundsStored));
}

#[test]
fn withdrawing_twice_finds_nothing_stored() {
    let mut t = new_test_ext();
    t.create_new_location();
    t.add_to_whitelist(0);
    t.add_to_whitelist(1);
    t.list_object(0, 10_000);
    t.buy_token(1, 0, 100);
    t.approve(0);
    assert_eq!(t.distribute_income(4, 0, 200), Ok(()));
    assert_eq!(t.withdraw_funds(1), Ok(()));
    assert_eq!(t.pm.stored_funds(1), 0);
    assert_eq!(t.withdraw_funds(1), Err(Error::UserHasNoFundsStored));
}

#[test]
fn chosen_agent_has_lexicographically_least_properties() {
    let mut t = new_test_ext();
    t.create_new_location();
    t.add_to_whitelist(0);
    for _ in 0..3 {
        t.list_object(0, 10_000);
    }
    assert_eq!(t.add_letting_agent(0, 2), Ok(()));
    assert_eq!(t.add_letting_agent(0, 3), Ok(()));
    assert_eq!(t.letting_agent_deposit(2), Ok(()));
    assert_eq!(t.set_letting_agent(0, 0, 0), Ok(()));
    assert_eq!(t.letting_agent_deposit(3), Ok(()));
    assert_eq!(t.set_letting_agent(0, 0, 1), Ok(()));
    assert_eq!(t.pm.letting_storage(0), Some(2));
    assert_eq!(t.pm.letting_storage(2), Some(3));
    assert_eq!(t.set_letting_agent(0, 0, 2), Ok(()));
    assert_eq!(t.pm.letting_storage(3), Some(2));
}

#[test]
fn lex_less_orders_like_vectors() {
    assert!(lex_less(&vec![], &vec![0]));
    assert!(!lex_less(&vec![0], &vec![]));
    assert!(lex_less(&vec![1, 2], &vec![1, 3]));
    assert!(!lex_less(&vec![1, 3], &vec![1, 2]));
    assert!(lex_less(&vec![1], &vec![1, 0]));
    assert!(!lex_less(&vec![4, 5], &vec![4, 5]));
}

#[test]
fn pm_starts_empty() {
    let t = new_test_ext();
    assert_eq!(t.pm.account_id(), PM);
    assert_eq!(t.pm.letting_agent_locations(0).len(), 0);
    assert_eq!(t.pm.property_reserve(0), 0);
    assert_eq!(t.pm.property_debts(0), 0);
    assert_eq!(t.pm.events().len(), 0);
}
