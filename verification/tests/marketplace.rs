use xcavate::assets::Assets;
use xcavate::common::{AccountId, Balance, Origin};
use xcavate::ledger::Ledger;
use xcavate::marketplace::{DocumentStatus, Error, LegalProperty, Offer, Pallet};
use xcavate::nfts::Nfts;
use xcavate::whitelist;

const MARKET: AccountId = 1000;
const TREASURY: AccountId = 1001;
const COMMUNITY: AccountId = 1002;

struct Env {
    market: Pallet,
    assets: Assets,
    nfts: Nfts,
    wl: whitelist::Pallet,
    balances: Ledger,
}

fn new_test_ext() -> Env {
    let mut assets = Assets::new();
    assets.create(1).unwrap();
    assets.mint(1, 0, 20_000_000).unwrap();
    assets.mint(1, 1, 1_500_000).unwrap();
    assets.mint(1, 2, 1_150_000).unwrap();
    assets.mint(1, 3, 5_000).unwrap();
    let mut balances = Ledger::new(1);
    balances.set_free_balance(1, 15_000_000);
    Env {
        market: Pallet::new(MARKET, TREASURY, COMMUNITY, 250),
        assets,
        nfts: Nfts::new(),
        wl: whitelist::Pallet::new(1000),
        balances,
    }
}

fn root() -> Origin {
    Origin::Root
}

fn signed(who: AccountId) -> Origin {
    Origin::Signed(who)
}

impl Env {
    fn create_new_region(&mut self, origin: Origin) -> Result<(), Error> {
        self.market.create_new_region(&mut self.nfts, origin)
    }

    fn create_new_location(&mut self, origin: Origin, region: u32, loc: Vec<u8>) -> Result<(), Error> {
        self.market.create_new_location(origin, region, loc)
    }

    fn add_to_whitelist(&mut self, who: AccountId) {
        self.wl.add_to_whitelist(root(), who).unwrap();
    }

    fn register_lawyer(&mut self, origin: Origin, who: AccountId) -> Result<(), Error> {
        self.market.register_lawyer(origin, who)
    }

    fn list_object(
        &mut self,
        origin: Origin,
        region: u32,
        loc: Vec<u8>,
        price: Balance,
        amount: u32,
        data: Vec<u8>,
    ) -> Result<(), Error> {
        self.market.list_object(&mut self.assets, &mut self.nfts, &self.wl, origin, region, loc, price, amount, data)
    }

    fn buy_token(&mut self, origin: Origin, listing: u32, amount: u32) -> Result<(), Error> {
        self.market.buy_token(&mut self.assets, &self.wl, origin, listing, amount)
    }

    fn lawyer_claim_property(
        &mut self,
        origin: Origin,
        listing: u32,
        site: LegalProperty,
        costs: Balance,
    ) -> Result<(), Error> {
        self.market.lawyer_claim_property(origin, listing, site, costs)
    }

    fn lawyer_confirm_documents(&mut self, origin: Origin, listing: u32, approve: bool) -> Result<(), Error> {
        self.market.lawyer_confirm_documents(&mut self.assets, &mut self.nfts, origin, listing, approve)
    }

    fn relist_token(&mut self, origin: Origin, region: u32, item: u32, price: Balance, amount: u32) -> Result<(), Error> {
        self.market.relist_token(&mut self.assets, &self.wl, origin, region, item, price, amount)
    }

    fn buy_relisted_token(&mut self, origin: Origin, listing: u32, amount: u32) -> Result<(), Error> {
        self.market.buy_relisted_token(&mut self.assets, &self.wl, origin, listing, amount)
    }

    fn make_offer(&mut self, origin: Origin, listing: u32, price: Balance, amount: u32) -> Result<(), Error> {
        self.market.make_offer(&mut self.assets, &self.wl, origin, listing, price, amount)
    }

    fn handle_offer(&mut self, origin: Origin, listing: u32, offeror: AccountId, offer: Offer) -> Result<(), Error> {
        self.market.handle_offer(&mut self.assets, &self.wl, origin, listing, offeror, offer)
    }

    fn cancel_offer(&mut self, origin: Origin, listing: u32) -> Result<(), Error> {
        self.market.cancel_offer(&mut self.assets, origin, listing)
    }

    fn upgrade_listing(&mut self, origin: Origin, listing: u32, price: Balance) -> Result<(), Error> {
        self.market.upgrade_listing(&self.wl, origin, listing, price)
    }

    fn upgrade_object(&mut self, origin: Origin, listing: u32, price: Balance) -> Result<(), Error> {
        self.market.upgrade_object(&self.wl, origin, listing, price)
    }

    fn delist_token(&mut self, origin: Origin, listing: u32) -> Result<(), Error> {
        self.market.delist_token(&mut self.assets, &self.wl, origin, listing)
    }

    fn remove_from_case(&mut self, origin: Origin, listing: u32) -> Result<(), Error> {
        self.market.remove_from_case(origin, listing)
    }

    fn balance(&self, asset: u32, who: AccountId) -> Balance {
        self.assets.balance(asset, who)
    }

    /// Lists an object of 100 tokens at 10_000 for `seller` in region 0,
    /// sells all of it to `buyer` and has lawyers 10 and 11 approve it.
    fn sell_out_and_approve(&mut self, seller: AccountId, buyer: AccountId) {
        assert_eq!(self.list_object(signed(seller), 0, vec![10, 10], 10_000, 100, vec![22, 22]), Ok(()));
        assert_eq!(self.buy_token(signed(buyer), 0, 100), Ok(()));
        assert_eq!(
            self.lawyer_claim_property(signed(10), 0, LegalProperty::RealEstateDeveloperSite, 4_000),
            Ok(())
        );
        assert_eq!(self.lawyer_claim_property(signed(11), 0, LegalProperty::SpvSite, 4_000), Ok(()));
        assert_eq!(self.lawyer_confirm_documents(signed(10), 0, true), Ok(()));
        assert_eq!(self.lawyer_confirm_documents(signed(11), 0, true), Ok(()));
    }
}

#[test]
fn create_new_region_works() {
    let mut t = new_test_ext();
    assert_eq!(t.create_new_region(root()), Ok(()));
    assert_eq!(t.create_new_region(root()), Ok(()));
    assert_eq!(t.market.region_collections(0).unwrap(), 0);
    assert_eq!(t.market.region_collections(1).unwrap(), 1);
}

#[test]
fn create_new_location_works() {
    let mut t = new_test_ext();
    assert_eq!(t.create_new_region(root()), Ok(()));
    assert_eq!(t.create_new_region(root()), Ok(()));
    assert_eq!(t.create_new_location(root(), 0, vec![10, 10]), Ok(()));
    assert_eq!(t.create_new_location(root(), 0, vec![9, 10]), Ok(()));
    assert_eq!(t.create_new_location(root(), 1, vec![9, 10]), Ok(()));
    assert_eq!(t.market.location_registration(0, &vec![10, 10]), true);
    assert_eq!(t.market.location_registration(0, &vec![9, 10]), true);
    assert_eq!(t.market.location_registration(1, &vec![9, 10]), true);
    assert_eq!(t.market.location_registration(1, &vec![10, 10]), false);
    assert_eq!(t.market.location_registration(1, &vec![8, 10]), false);
}

#[test]
fn create_new_location_fails() {
    let mut t = new_test_ext();
    assert_eq!(t.create_new_location(root(), 1, vec![10, 10]), Err(Error::RegionUnknown));
}

#[test]
fn register_lawyer_works() {
    let mut t = new_test_ext();
    assert_eq!(t.market.real_estate_lawyer(0), false);
    assert_eq!(t.register_lawyer(root(), 0), Ok(()));
    assert_eq!(t.market.real_estate_lawyer(0), true);
}

#[test]
fn register_lawyer_fails() {
    let mut t = new_test_ext();
    assert_eq!(t.register_lawyer(root(), 0), Ok(()));
    assert_eq!(t.register_lawyer(root(), 0), Err(Error::LawyerAlreadyRegistered));
}

#[test]
fn list_object_works() {
    let mut t = new_test_ext();
    assert_eq!(t.create_new_region(root()), Ok(()));
    assert_eq!(t.create_new_location(root(), 0, vec![10, 10]), Ok(()));
    t.add_to_whitelist(0);
    assert_eq!(t.list_object(signed(0), 0, vec![10, 10], 10_000, 100, vec![22, 22]), Ok(()));
    assert_eq!(t.market.listed_token(0).unwrap(), 100);
    assert_eq!(t.market.next_nft_id(0), 1);
    assert_eq!(t.market.next_nft_id(1), 0);
    assert_eq!(t.market.next_asset_id(), 1);
    assert_eq!(t.market.ongoing_object_listing(0).is_some(), true);
    assert_eq!(t.market.registered_nft_details(0, 0).is_some(), true);
    assert_eq!(t.nfts.owner(0, 0).unwrap(), t.market.account_id());
}

#[test]
fn list_object_fails() {
    let mut t = new_test_ext();
    t.add_to_whitelist(0);
    assert_eq!(
        t.list_object(signed(0), 0, vec![10, 10], 10_000, 100, vec![22, 22]),
        Err(Error::RegionUnknown)
    );
    assert_eq!(t.create_new_region(root()), Ok(()));
    assert_eq!(
        t.list_object(signed(0), 0, vec![10, 10], 10_000, 100, vec![22, 22]),
        Err(Error::LocationUnknown)
    );
    assert_eq!(t.create_new_location(root(), 0, vec![10, 10]), Ok(()));
    assert_eq!(
        t.list_object(signed(0), 0, vec![10, 10], 10_000, 251, vec![22, 22]),
        Err(Error::TooManyToken)
    );
}

#[test]
fn buy_token_works() {
    let mut t = new_test_ext();
    assert_eq!(t.create_new_region(root()), Ok(()));
    assert_eq!(t.create_new_location(root(), 0, vec![10, 10]), Ok(()));
    t.add_to_whitelist(0);
    t.add_to_whitelist(1);
    assert_eq!(t.list_object(signed(0), 0, vec![10, 10], 10_000, 100, vec![22, 22]), Ok(()));
    assert_eq!(t.buy_token(signed(1), 0, 30), Ok(()));
    assert_eq!(t.market.listed_token(0).unwrap(), 70);
    assert_eq!(t.market.token_owner(1, 0).token_amount, 30);
    assert_eq!(t.market.token_buyer(0).len(), 1);
    assert_eq!(t.balances.free_balance(1), 15_000_000);
    assert_eq!(t.balance(1, 1), 1_188_000);
}

#[test]
fn buy_token_doesnt_work() {
    let mut t = new_test_ext();
    t.add_to_whitelist(0);
    assert_eq!(t.buy_token(signed(0), 1, 1), Err(Error::TokenNotForSale));
}

#[test]
fn buy_token_doesnt_work_2() {
    let mut t = new_test_ext();
    assert_eq!(t.create_new_region(root()), Ok(()));
    assert_eq!(t.create_new_location(root(), 0, vec![10, 10]), Ok(()));
    t.add_to_whitelist(0);
    t.add_to_whitelist(1);
    assert_eq!(t.list_object(signed(0), 0, vec![10, 10], 10_000, 100, vec![22, 22]), Ok(()));
    assert_eq!(t.buy_token(signed(1), 0, 101), Err(Error::NotEnoughTokenAvailable));
}

#[test]
fn listing_and_selling_multiple_objects() {
    let mut t = new_test_ext();
    assert_eq!(t.create_new_region(root()), Ok(()));
    assert_eq!(t.create_new_location(root(), 0, vec![10, 10]), Ok(()));
    t.add_to_whitelist(3);
    t.add_to_whitelist(2);
    t.add_to_whitelist(1);
    t.add_to_whitelist(0);
    assert_eq!(t.register_lawyer(root(), 10), Ok(()));
    assert_eq!(t.register_lawyer(root(), 11), Ok(()));
    assert_eq!(t.list_object(signed(3), 0, vec![10, 10], 10_000, 100, vec![22, 22]), Ok(()));
    assert_eq!(t.list_object(signed(2), 0, vec![10, 10], 10_000, 100, vec![22, 22]), Ok(()));
    assert_eq!(t.list_object(signed(0), 0, vec![10, 10], 10_000, 100, vec![22, 22]), Ok(()));
    assert_eq!(t.buy_token(signed(1), 1, 80), Ok(()));
    assert_eq!(t.market.property_lawyer(1).is_some(), false);
    assert_eq!(t.buy_token(signed(1), 1, 20), Ok(()));
    assert_eq!(t.market.property_lawyer(1).is_some(), true);
    assert_eq!(t.lawyer_claim_property(signed(10), 1, LegalProperty::RealEstateDeveloperSite, 4_000), Ok(()));
    assert_eq!(t.lawyer_claim_property(signed(11), 1, LegalProperty::SpvSite, 4_000), Ok(()));
    assert_eq!(t.lawyer_confirm_documents(signed(10), 1, true), Ok(()));
    assert_eq!(t.lawyer_confirm_documents(signed(11), 1, true), Ok(()));
    assert_eq!(t.buy_token(signed(1), 2, 10), Ok(()));
    assert_eq!(t.buy_token(signed(1), 2, 10), Ok(()));
    assert_eq!(t.buy_token(signed(2), 2, 30), Ok(()));
    assert_eq!(t.list_object(signed(3), 0, vec![10, 10], 10_000, 100, vec![22, 22]), Ok(()));
    assert_eq!(t.buy_token(signed(2), 0, 33), Ok(()));
    assert_eq!(t.market.listed_token(0).unwrap(), 67);
    assert_eq!(t.market.listed_token(2).unwrap(), 50);
    assert_eq!(t.market.listed_token(3).unwrap(), 100);
    assert_eq!(t.market.token_owner(2, 2).token_amount, 30);
    assert_eq!(t.market.token_buyer(2).len(), 2);
    assert_eq!(t.market.token_owner(1, 1).token_amount, 0);
    assert_eq!(t.market.token_buyer(1).len(), 0);
    assert_eq!(t.market.property_owner_token(2, 1), 100);
}

#[test]
fn claim_property_works() {
    let mut t = new_test_ext();
    assert_eq!(t.create_new_region(root()), Ok(()));
    assert_eq!(t.create_new_location(root(), 0, vec![10, 10]), Ok(()));
    t.add_to_whitelist(0);
    t.add_to_whitelist(1);
    assert_eq!(t.register_lawyer(root(), 10), Ok(()));
    assert_eq!(t.register_lawyer(root(), 11), Ok(()));
    assert_eq!(t.list_object(signed(0), 0, vec![10, 10], 10_000, 100, vec![22, 22]), Ok(()));
    assert_eq!(t.buy_token(signed(1), 0, 100), Ok(()));
    assert_eq!(t.lawyer_claim_property(signed(10), 0, LegalProperty::RealEstateDeveloperSite, 4_000), Ok(()));
    assert_eq!(t.market.property_lawyer(0).unwrap().real_estate_developer_lawyer, Some(10));
    assert_eq!(t.lawyer_claim_property(signed(11), 0, LegalProperty::SpvSite, 4_000), Ok(()));
    assert_eq!(t.market.property_lawyer(0).unwrap().spv_lawyer, Some(11));
}

fn setup_two_lawyers(t: &mut Env, users: &[AccountId]) {
    assert_eq!(t.create_new_region(root()), Ok(()));
    assert_eq!(t.create_new_location(root(), 0, vec![10, 10]), Ok(()));
    for u in users {
        t.add_to_whitelist(*u);
    }
    assert_eq!(t.register_lawyer(root(), 10), Ok(()));
    assert_eq!(t.register_lawyer(root(), 11), Ok(()));
}

#[test]
fn distributes_nfts_and_funds() {
    let mut t = new_test_ext();
    setup_two_lawyers(&mut t, &[0, 1]);
    assert_eq!(t.list_object(signed(0), 0, vec![10, 10], 10_000, 100, vec![22, 22]), Ok(()));
    assert_eq!(t.buy_token(signed(1), 0, 100), Ok(()));
    assert_eq!(t.lawyer_claim_property(signed(10), 0, LegalProperty::RealEstateDeveloperSite, 4_000), Ok(()));
    assert_eq!(t.market.property_lawyer(0).unwrap().real_estate_developer_lawyer, Some(10));
    assert_eq!(t.lawyer_claim_property(signed(11), 0, LegalProperty::SpvSite, 4_000), Ok(()));
    assert_eq!(t.market.property_lawyer(0).unwrap().spv_lawyer, Some(11));
    assert_eq!(t.lawyer_confirm_documents(signed(10), 0, true), Ok(()));
    assert_eq!(t.market.property_lawyer(0).unwrap().real_estate_developer_status, DocumentStatus::Approved);
    assert_eq!(t.lawyer_confirm_documents(signed(11), 0, true), Ok(()));
    assert_eq!(t.market.property_lawyer(1).is_some(), false);
    assert_eq!(t.balance(1, 0), 20_990_000);
    assert_eq!(t.balance(1, t.market.treasury_account_id()), 12000);
    assert_eq!(t.balance(1, 1), 460_000);
    assert_eq!(t.balance(1, 10), 34_000);
    assert_eq!(t.balance(1, 11), 4_000);
    assert_eq!(t.market.registered_nft_details(0, 0).unwrap().spv_created, true);
    assert_eq!(t.market.listed_token(0), None);
    assert_eq!(t.market.token_owner(1, 0).token_amount, 0);
    assert_eq!(t.market.token_buyer(0).len(), 0);
    assert_eq!(t.balance(0, 1), 100);
}

#[test]
fn reject_contract_and_refund() {
    let mut t = new_test_ext();
    setup_two_lawyers(&mut t, &[0, 1]);
    assert_eq!(t.list_object(signed(0), 0, vec![10, 10], 10_000, 100, vec![22, 22]), Ok(()));
    assert_eq!(t.buy_token(signed(1), 0, 100), Ok(()));
    assert_eq!(t.lawyer_claim_property(signed(10), 0, LegalProperty::RealEstateDeveloperSite, 4_000), Ok(()));
    assert_eq!(t.market.property_lawyer(0).unwrap().real_estate_developer_lawyer, Some(10));
    assert_eq!(t.lawyer_claim_property(signed(11), 0, LegalProperty::SpvSite, 4_000), Ok(()));
    assert_eq!(t.market.property_lawyer(0).unwrap().spv_lawyer, Some(11));
    assert_eq!(t.lawyer_confirm_documents(signed(10), 0, false), Ok(()));
    assert_eq!(t.market.property_lawyer(0).unwrap().real_estate_developer_status, DocumentStatus::Rejected);
    assert_eq!(t.nfts.owner(0, 0).is_none(), false);
    assert_eq!(t.lawyer_confirm_documents(signed(11), 0, false), Ok(()));
    assert_eq!(t.market.property_lawyer(1).is_some(), false);
    assert_eq!(t.balance(1, 0), 20_000_000);
    assert_eq!(t.balance(1, t.market.treasury_account_id()), 6000);
    assert_eq!(t.balance(1, 1), 1_490_000);
    assert_eq!(t.balance(1, 11), 4_000);
    assert_eq!(t.market.registered_nft_details(0, 0).is_none(), true);
    assert_eq!(t.market.listed_token(0), None);
    assert_eq!(t.market.token_owner(1, 0).token_amount, 0);
    assert_eq!(t.market.token_buyer(0).len(), 0);
    assert_eq!(t.nfts.owner(0, 0).is_none(), true);
}

#[test]
fn second_attempt_works() {
    let mut t = new_test_ext();
    setup_two_lawyers(&mut t, &[0, 1]);
    assert_eq!(t.list_object(signed(0), 0, vec![10, 10], 10_000, 100, vec![22, 22]), Ok(()));
    assert_eq!(t.buy_token(signed(1), 0, 100), Ok(()));
    assert_eq!(t.lawyer_claim_property(signed(10), 0, LegalProperty::RealEstateDeveloperSite, 4_000), Ok(()));
    assert_eq!(t.market.property_lawyer(0).unwrap().real_estate_developer_lawyer, Some(10));
    assert_eq!(t.lawyer_claim_property(signed(11), 0, LegalProperty::SpvSite, 4_000), Ok(()));
    assert_eq!(t.market.property_lawyer(0).unwrap().spv_lawyer, Some(11));
    assert_eq!(t.lawyer_confirm_documents(signed(10), 0, true), Ok(()));
    assert_eq!(t.market.property_lawyer(0).unwrap().real_estate_developer_status, DocumentStatus::Approved);
    assert_eq!(t.nfts.owner(0, 0).is_none(), false);
    assert_eq!(t.lawyer_confirm_documents(signed(11), 0, false), Ok(()));
    assert_eq!(t.market.property_lawyer(0).unwrap().second_attempt, true);
    assert_eq!(t.lawyer_confirm_documents(signed(10), 0, false), Ok(()));
    assert_eq!(t.market.property_lawyer(0).unwrap().real_estate_developer_status, DocumentStatus::Rejected);
    assert_eq!(t.nfts.owner(0, 0).is_none(), false);
    assert_eq!(t.lawyer_confirm_documents(signed(11), 0, true), Ok(()));
    assert_eq!(t.balance(1, 0), 20_000_000);
    assert_eq!(t.balance(1, t.market.treasury_account_id()), 6000);
    assert_eq!(t.balance(1, 1), 1_490_000);
    assert_eq!(t.balance(1, 11), 4_000);
    assert_eq!(t.market.registered_nft_details(0, 0).is_none(), true);
    assert_eq!(t.market.listed_token(0), None);
    assert_eq!(t.market.token_owner(1, 0).token_amount, 0);
    assert_eq!(t.market.token_buyer(0).len(), 0);
    assert_eq!(t.nfts.owner(0, 0).is_none(), true);
}

#[test]
fn relist_a_nft() {
    let mut t = new_test_ext();
    setup_two_lawyers(&mut t, &[0, 1]);
    t.sell_out_and_approve(0, 1);
    assert_eq!(t.market.registered_nft_details(0, 0).unwrap().spv_created, true);
    assert_eq!(t.relist_token(signed(1), 0, 0, 1000, 1), Ok(()));
    assert_eq!(t.market.token_listings(1).is_some(), true);
    assert_eq!(t.market.token_listings(1).unwrap().item_id, 0);
    assert_eq!(t.balance(0, t.market.account_id()), 1);
    assert_eq!(t.balance(0, 1), 99);
}

#[test]
fn relist_nfts_not_created_with_marketplace_fails() {
    let mut t = new_test_ext();
    t.add_to_whitelist(0);
    assert_eq!(t.relist_token(signed(0), 0, 0, 1000, 1), Err(Error::RegionUnknown));
    assert_eq!(t.create_new_region(root()), Ok(()));
    assert_eq!(t.relist_token(signed(0), 0, 0, 1000, 1), Err(Error::NftNotFound));
}

#[test]
fn relist_a_nft_fails() {
    let mut t = new_test_ext();
    setup_two_lawyers(&mut t, &[0, 1]);
    t.sell_out_and_approve(0, 1);
    assert_eq!(t.market.registered_nft_details(0, 0).unwrap().spv_created, true);
    assert_eq!(t.relist_token(signed(0), 0, 0, 1000, 1), Err(Error::NotEnoughFunds));
}

#[test]
fn buy_relisted_token_works() {
    let mut t = new_test_ext();
    setup_two_lawyers(&mut t, &[0, 1, 3]);
    t.sell_out_and_approve(0, 1);
    assert_eq!(t.balance(1, 0), 20990000);
    assert_eq!(t.balance(1, t.market.treasury_account_id()), 12000);
    assert_eq!(t.balance(1, 1), 460_000);
    assert_eq!(t.market.registered_nft_details(0, 0).unwrap().spv_created, true);
    assert_eq!(t.relist_token(signed(1), 0, 0, 1000, 3), Ok(()));
    assert_eq!(t.buy_relisted_token(signed(3), 1, 2), Ok(()));
    assert_eq!(t.balance(1, 3), 3_000);
    assert_eq!(t.balance(0, 3), 2);
    assert_eq!(t.market.token_listings(1).is_some(), true);
    assert_eq!(t.buy_relisted_token(signed(3), 1, 1), Ok(()));
    assert_eq!(t.balance(1, 3), 2_000);
    assert_eq!(t.market.token_listings(1).is_some(), false);
    assert_eq!(t.relist_token(signed(1), 0, 0, 500, 1), Ok(()));
    assert_eq!(t.buy_relisted_token(signed(3), 2, 1), Ok(()));
    assert_eq!(t.market.token_listings(0).is_some(), false);
    assert_eq!(t.market.property_owner(0).len(), 2);
    assert_eq!(t.market.property_owner_token(0, 1), 96);
    assert_eq!(t.market.property_owner_token(0, 3), 4);
    assert_eq!(t.balance(1, 1), 463_465);
    assert_eq!(t.balance(1, 3), 1_500);
    assert_eq!(t.balance(0, 1), 96);
    assert_eq!(t.balance(0, 3), 4);
}

#[test]
fn buy_relisted_token_fails() {
    let mut t = new_test_ext();
    setup_two_lawyers(&mut t, &[0, 1, 3]);
    t.sell_out_and_approve(0, 1);
    assert_eq!(t.balance(1, 0), 20990000);
    assert_eq!(t.balance(1, t.market.treasury_account_id()), 12_000);
    assert_eq!(t.balance(1, 1), 460_000);
    assert_eq!(t.market.registered_nft_details(0, 0).unwrap().spv_created, true);
    assert_eq!(t.buy_relisted_token(signed(3), 1, 1), Err(Error::TokenNotForSale));
}

#[test]
fn make_offer_works() {
    let mut t = new_test_ext();
    setup_two_lawyers(&mut t, &[0, 1, 2]);
    t.sell_out_and_approve(0, 1);
    assert_eq!(t.relist_token(signed(1), 0, 0, 500, 1), Ok(()));
    assert_eq!(t.make_offer(signed(2), 1, 2000, 1), Ok(()));
    assert_eq!(t.market.token_listings(1).is_some(), true);
    assert_eq!(t.market.ongoing_offers(1, 2).is_some(), true);
    assert_eq!(t.balance(1, 2), 1_148_000);
    assert_eq!(t.balance(1, t.market.account_id()), 2000);
}

#[test]
fn make_offer_fails() {
    let mut t = new_test_ext();
    setup_two_lawyers(&mut t, &[0, 1, 2, 3]);
    t.sell_out_and_approve(0, 1);
    assert_eq!(t.make_offer(signed(2), 1, 200, 1), Err(Error::TokenNotForSale));
    assert_eq!(t.relist_token(signed(1), 0, 0, 500, 1), Ok(()));
    assert_eq!(t.make_offer(signed(2), 1, 200, 2), Err(Error::NotEnoughTokenAvailable));
    assert_eq!(t.make_offer(signed(2), 1, 200, 1), Ok(()));
    assert_eq!(t.make_offer(signed(3), 1, 300, 1), Ok(()));
    assert_eq!(t.make_offer(signed(2), 1, 400, 1), Err(Error::OnlyOneOfferPerUser));
    assert_eq!(t.market.ongoing_offers(1, 2).unwrap().token_price, 200);
    assert_eq!(t.market.ongoing_offers(1, 3).unwrap().token_price, 300);
}

#[test]
fn handle_offer_works() {
    let mut t = new_test_ext();
    setup_two_lawyers(&mut t, &[0, 1, 2, 3]);
    t.sell_out_and_approve(0, 1);
    assert_eq!(t.relist_token(signed(1), 0, 0, 5000, 20), Ok(()));
    assert_eq!(t.make_offer(signed(2), 1, 200, 1), Ok(()));
    assert_eq!(t.make_offer(signed(3), 1, 150, 1), Ok(()));
    assert_eq!(t.handle_offer(signed(1), 1, 2, Offer::Reject), Ok(()));
    assert_eq!(t.cancel_offer(signed(3), 1), Ok(()));
    assert_eq!(t.balance(1, 2), 1_150_000);
    assert_eq!(t.market.token_listings(1).is_some(), true);
    assert_eq!(t.market.ongoing_offers(1, 2).is_none(), true);
    assert_eq!(t.make_offer(signed(2), 1, 2000, 10), Ok(()));
    assert_eq!(t.balance(1, 2), 1_130_000);
    assert_eq!(t.balance(1, t.market.account_id()), 20000);
    assert_eq!(t.handle_offer(signed(1), 1, 2, Offer::Accept), Ok(()));
    assert_eq!(t.market.token_listings(1).unwrap().amount, 10);
    assert_eq!(t.market.ongoing_offers(1, 2).is_none(), true);
    assert_eq!(t.balance(1, t.market.account_id()), 0);
    assert_eq!(t.balance(0, 1), 80);
    assert_eq!(t.balance(0, 2), 10);
    assert_eq!(t.balance(0, t.market.account_id()), 10);
    assert_eq!(t.balance(1, 1), 479_800);
    assert_eq!(t.balance(1, 2), 1_130_000);
}

#[test]
fn handle_offer_fails() {
    let mut t = new_test_ext();
    setup_two_lawyers(&mut t, &[0, 1, 2]);
    t.sell_out_and_approve(0, 1);
    assert_eq!(t.handle_offer(signed(1), 1, 2, Offer::Reject), Err(Error::TokenNotForSale));
    assert_eq!(t.relist_token(signed(1), 0, 0, 5000, 2), Ok(()));
    assert_eq!(t.handle_offer(signed(1), 1, 2, Offer::Reject), Err(Error::InvalidIndex));
    assert_eq!(t.make_offer(signed(2), 1, 200, 1), Ok(()));
    assert_eq!(t.handle_offer(signed(2), 1, 2, Offer::Accept), Err(Error::NoPermission));
}

#[test]
fn cancel_offer_works() {
    let mut t = new_test_ext();
    setup_two_lawyers(&mut t, &[0, 1, 2]);
    t.sell_out_and_approve(0, 1);
    assert_eq!(t.relist_token(signed(1), 0, 0, 500, 1), Ok(()));
    assert_eq!(t.make_offer(signed(2), 1, 2000, 1), Ok(()));
    assert_eq!(t.market.token_listings(1).is_some(), true);
    assert_eq!(t.market.ongoing_offers(1, 2).is_some(), true);
    assert_eq!(t.balance(1, 2), 1_148_000);
    assert_eq!(t.balance(1, t.market.account_id()), 2000);
    assert_eq!(t.cancel_offer(signed(2), 1), Ok(()));
    assert_eq!(t.market.token_listings(1).is_some(), true);
    assert_eq!(t.market.ongoing_offers(1, 2).is_some(), false);
    assert_eq!(t.balance(1, 2), 1_150_000);
    assert_eq!(t.balance(1, t.market.account_id()), 0);
}

#[test]
fn cancel_offer_fails() {
    let mut t = new_test_ext();
    setup_two_lawyers(&mut t, &[0, 1, 2]);
    t.sell_out_and_approve(0, 1);
    assert_eq!(t.relist_token(signed(1), 0, 0, 500, 1), Ok(()));
    assert_eq!(t.cancel_offer(signed(2), 1), Err(Error::InvalidIndex));
    assert_eq!(t.make_offer(signed(2), 1, 2000, 1), Ok(()));
    assert_eq!(t.market.token_listings(1).is_some(), true);
    assert_eq!(t.market.ongoing_offers(1, 2).is_some(), true);
    assert_eq!(t.balance(1, 2), 1_148_000);
    assert_eq!(t.balance(1, t.market.account_id()), 2000);
    assert_eq!(t.cancel_offer(signed(1), 1), Err(Error::InvalidIndex));
}

#[test]
fn upgrade_price_works() {
    let mut t = new_test_ext();
    setup_two_lawyers(&mut t, &[0, 1]);
    t.sell_out_and_approve(0, 1);
    assert_eq!(t.relist_token(signed(1), 0, 0, 1000, 1), Ok(()));
    assert_eq!(t.upgrade_listing(signed(1), 1, 300), Ok(()));
    assert_eq!(t.market.token_listings(1).unwrap().token_price, 300);
}

#[test]
fn upgrade_price_fails_if_not_owner() {
    let mut t = new_test_ext();
    setup_two_lawyers(&mut t, &[0, 1, 4]);
    t.sell_out_and_approve(0, 1);
    assert_eq!(t.relist_token(signed(1), 0, 0, 1000, 1), Ok(()));
    assert_eq!(t.upgrade_listing(signed(4), 1, 300), Err(Error::NoPermission));
}

#[test]
fn upgrade_object_works() {
    let mut t = new_test_ext();
    assert_eq!(t.create_new_region(root()), Ok(()));
    assert_eq!(t.create_new_location(root(), 0, vec![10, 10]), Ok(()));
    t.add_to_whitelist(0);
    assert_eq!(t.list_object(signed(0), 0, vec![10, 10], 10_000, 100, vec![22, 22]), Ok(()));
    assert_eq!(t.upgrade_object(signed(0), 0, 30000), Ok(()));
    assert_eq!(t.market.ongoing_object_listing(0).unwrap().token_price, 30000);
}

#[test]
fn upgrade_object_and_distribute_works() {
    let mut t = new_test_ext();
    setup_two_lawyers(&mut t, &[0, 1, 2]);
    assert_eq!(t.list_object(signed(0), 0, vec![10, 10], 10_000, 100, vec![22, 22]), Ok(()));
    assert_eq!(t.buy_token(signed(1), 0, 50), Ok(()));
    assert_eq!(t.upgrade_object(signed(0), 0, 20_000), Ok(()));
    assert_eq!(t.buy_token(signed(2), 0, 50), Ok(()));
    assert_eq!(t.lawyer_claim_property(signed(10), 0, LegalProperty::RealEstateDeveloperSite, 4_000), Ok(()));
    assert_eq!(t.lawyer_claim_property(signed(11), 0, LegalProperty::SpvSite, 4_000), Ok(()));
    assert_eq!(t.lawyer_confirm_documents(signed(10), 0, true), Ok(()));
    assert_eq!(t.lawyer_confirm_documents(signed(11), 0, true), Ok(()));
    assert_eq!(t.balance(1, 0), 21485000);
    assert_eq!(t.balance(1, t.market.treasury_account_id()), 22000);
    assert_eq!(t.balance(1, 1), 980_000);
    assert_eq!(t.balance(1, 2), 110_000);
    assert_eq!(t.market.registered_nft_details(0, 0).unwrap().spv_created, true);
    assert_eq!(t.market.listed_token(0), None);
}

#[test]
fn upgrade_single_nft_from_listed_object_fails() {
    let mut t = new_test_ext();
    assert_eq!(t.create_new_region(root()), Ok(()));
    assert_eq!(t.create_new_location(root(), 0, vec![10, 10]), Ok(()));
    t.add_to_whitelist(0);
    assert_eq!(t.list_object(signed(0), 0, vec![10, 10], 10_000, 100, vec![22, 22]), Ok(()));
    assert_eq!(t.upgrade_listing(signed(0), 0, 300), Err(Error::TokenNotForSale));
}

#[test]
fn upgrade_object_for_relisted_nft_fails() {
    let mut t = new_test_ext();
    setup_two_lawyers(&mut t, &[0]);
    t.sell_out_and_approve(0, 0);
    assert_eq!(t.relist_token(signed(0), 0, 0, 1000, 1), Ok(()));
    assert_eq!(t.upgrade_object(signed(0), 1, 300), Err(Error::TokenNotForSale));
}

#[test]
fn upgrade_unknown_collection_fails() {
    let mut t = new_test_ext();
    assert_eq!(t.create_new_region(root()), Ok(()));
    assert_eq!(t.create_new_location(root(), 0, vec![10, 10]), Ok(()));
    t.add_to_whitelist(0);
    assert_eq!(t.upgrade_object(signed(0), 0, 300), Err(Error::TokenNotForSale));
}

#[test]
fn delist_single_token_works() {
    let mut t = new_test_ext();
    setup_two_lawyers(&mut t, &[0, 1, 2]);
    t.sell_out_and_approve(0, 1);
    assert_eq!(t.relist_token(signed(1), 0, 0, 1000, 1), Ok(()));
    assert_eq!(t.delist_token(signed(1), 1), Ok(()));
    assert_eq!(t.market.token_listings(0), None);
    assert_eq!(t.relist_token(signed(1), 0, 0, 1000, 3), Ok(()));
    assert_eq!(t.buy_relisted_token(signed(2), 2, 2), Ok(()));
    assert_eq!(t.delist_token(signed(1), 2), Ok(()));
    assert_eq!(t.balance(0, 2), 2);
    assert_eq!(t.balance(0, 1), 98);
}

#[test]
fn delist_fails() {
    let mut t = new_test_ext();
    setup_two_lawyers(&mut t, &[0, 1, 4]);
    t.sell_out_and_approve(0, 1);
    assert_eq!(t.relist_token(signed(1), 0, 0, 1000, 1), Ok(()));
    assert_eq!(t.delist_token(signed(4), 1), Err(Error::NoPermission));
    assert_eq!(t.delist_token(signed(1), 2), Err(Error::TokenNotForSale));
}

#[test]
fn listing_objects_in_different_regions() {
    let mut t = new_test_ext();
    assert_eq!(t.create_new_region(root()), Ok(()));
    assert_eq!(t.create_new_region(root()), Ok(()));
    assert_eq!(t.create_new_region(root()), Ok(()));
    assert_eq!(t.create_new_location(root(), 0, vec![10, 10]), Ok(()));
    assert_eq!(t.create_new_location(root(), 1, vec![10, 10]), Ok(()));
    assert_eq!(t.create_new_location(root(), 2, vec![10, 10]), Ok(()));
    t.add_to_whitelist(0);
    t.add_to_whitelist(1);
    t.add_to_whitelist(2);
    assert_eq!(t.register_lawyer(root(), 10), Ok(()));
    assert_eq!(t.register_lawyer(root(), 11), Ok(()));
    assert_eq!(t.list_object(signed(0), 0, vec![10, 10], 10_000, 100, vec![22, 22]), Ok(()));
    assert_eq!(t.list_object(signed(0), 1, vec![10, 10], 10_000, 100, vec![22, 22]), Ok(()));
    assert_eq!(t.list_object(signed(0), 2, vec![10, 10], 10_000, 100, vec![22, 22]), Ok(()));
    assert_eq!(t.buy_token(signed(1), 1, 100), Ok(()));
    assert_eq!(t.lawyer_claim_property(signed(10), 1, LegalProperty::RealEstateDeveloperSite, 4_000), Ok(()));
    assert_eq!(t.lawyer_claim_property(signed(11), 1, LegalProperty::SpvSite, 4_000), Ok(()));
    assert_eq!(t.lawyer_confirm_documents(signed(10), 1, true), Ok(()));
    assert_eq!(t.lawyer_confirm_documents(signed(11), 1, true), Ok(()));
    assert_eq!(t.buy_token(signed(2), 2, 100), Ok(()));
    assert_eq!(t.lawyer_claim_property(signed(10), 2, LegalProperty::RealEstateDeveloperSite, 4_000), Ok(()));
    assert_eq!(t.lawyer_claim_property(signed(11), 2, LegalProperty::SpvSite, 4_000), Ok(()));
    assert_eq!(t.lawyer_confirm_documents(signed(10), 2, true), Ok(()));
    assert_eq!(t.lawyer_confirm_documents(signed(11), 2, true), Ok(()));
    assert_eq!(t.market.registered_nft_details(1, 0).unwrap().spv_created, true);
    assert_eq!(t.market.registered_nft_details(2, 0).unwrap().spv_created, true);
    assert_eq!(t.relist_token(signed(1), 1, 0, 1000, 100), Ok(()));
    assert_eq!(t.buy_relisted_token(signed(2), 3, 100), Ok(()));
    assert_eq!(t.balance(2, 2), 100);
    assert_eq!(t.balance(3, 2), 100);
}

#[test]
fn purchases_keep_the_token_count_of_a_listing() {
    let mut t = new_test_ext();
    assert_eq!(t.create_new_region(root()), Ok(()));
    assert_eq!(t.create_new_location(root(), 0, vec![10, 10]), Ok(()));
    t.add_to_whitelist(0);
    t.add_to_whitelist(1);
    t.add_to_whitelist(2);
    assert_eq!(t.list_object(signed(0), 0, vec![10, 10], 1_000, 100, vec![22, 22]), Ok(()));
    assert_eq!(t.buy_token(signed(1), 0, 30), Ok(()));
    assert_eq!(t.buy_token(signed(2), 0, 50), Ok(()));
    assert_eq!(t.buy_token(signed(1), 0, 10), Ok(()));
    let bought: u32 = t.market.token_buyer(0).iter().map(|b| t.market.token_owner(*b, 0).token_amount).sum();
    assert_eq!(t.market.token_buyer(0), vec![1, 2]);
    assert_eq!(t.market.listed_token(0).unwrap() + bought, 100);
    assert_eq!(t.market.token_owner(1, 0).token_amount, 40);
    assert_eq!(t.buy_token(signed(2), 0, 10), Ok(()));
    assert_eq!(t.market.listed_token(0), None);
    assert_eq!(t.market.token_owner(2, 0).token_amount, 60);
}

#[test]
fn claim_property_fails() {
    let mut t = new_test_ext();
    setup_two_lawyers(&mut t, &[0, 1]);
    assert_eq!(t.list_object(signed(0), 0, vec![10, 10], 10_000, 100, vec![22, 22]), Ok(()));
    assert_eq!(t.buy_token(signed(1), 0, 99), Ok(()));
    assert_eq!(
        t.lawyer_claim_property(signed(10), 0, LegalProperty::RealEstateDeveloperSite, 4_000),
        Err(Error::InvalidIndex)
    );
    assert_eq!(t.buy_token(signed(1), 0, 1), Ok(()));
    assert_eq!(
        t.lawyer_claim_property(signed(9), 0, LegalProperty::RealEstateDeveloperSite, 4_000),
        Err(Error::NoPermission)
    );
    assert_eq!(
        t.lawyer_claim_property(signed(10), 0, LegalProperty::RealEstateDeveloperSite, 11_000),
        Err(Error::CostsTooHigh)
    );
    assert_eq!(t.lawyer_claim_property(signed(10), 0, LegalProperty::RealEstateDeveloperSite, 4_000), Ok(()));
    assert_eq!(t.market.property_lawyer(0).unwrap().real_estate_developer_lawyer, Some(10));
    assert_eq!(
        t.lawyer_claim_property(signed(11), 0, LegalProperty::RealEstateDeveloperSite, 4_000),
        Err(Error::LawyerJobTaken)
    );
    assert_eq!(t.market.property_lawyer(0).unwrap().spv_lawyer, None);
}

#[test]
fn remove_from_case_works() {
    let mut t = new_test_ext();
    setup_two_lawyers(&mut t, &[0, 1]);
    assert_eq!(t.register_lawyer(root(), 12), Ok(()));
    assert_eq!(t.list_object(signed(0), 0, vec![10, 10], 10_000, 100, vec![22, 22]), Ok(()));
    assert_eq!(t.buy_token(signed(1), 0, 100), Ok(()));
    assert_eq!(t.lawyer_claim_property(signed(10), 0, LegalProperty::RealEstateDeveloperSite, 4_000), Ok(()));
    assert_eq!(t.market.property_lawyer(0).unwrap().real_estate_developer_lawyer, Some(10));
    assert_eq!(t.lawyer_claim_property(signed(11), 0, LegalProperty::SpvSite, 4_000), Ok(()));
    assert_eq!(t.market.property_lawyer(0).unwrap().spv_lawyer, Some(11));
    assert_eq!(t.remove_from_case(signed(10), 0), Ok(()));
    assert_eq!(t.market.property_lawyer(0).unwrap().real_estate_developer_lawyer, None);
    assert_eq!(t.market.property_lawyer(0).unwrap().spv_lawyer, Some(11));
    assert_eq!(t.lawyer_claim_property(signed(12), 0, LegalProperty::RealEstateDeveloperSite, 4_000), Ok(()));
    assert_eq!(t.market.property_lawyer(0).unwrap().real_estate_developer_lawyer, Some(12));
}

#[test]
fn remove_from_case_fails() {
    let mut t = new_test_ext();
    assert_eq!(t.create_new_region(root()), Ok(()));
    assert_eq!(t.create_new_location(root(), 0, vec![10, 10]), Ok(()));
    t.add_to_whitelist(0);
    t.add_to_whitelist(1);
    assert_eq!(t.list_object(signed(0), 0, vec![10, 10], 10_000, 100, vec![22, 22]), Ok(()));
    assert_eq!(t.buy_token(signed(1), 0, 100), Ok(()));
    assert_eq!(t.remove_from_case(signed(10), 0), Err(Error::NoPermission));
    assert_eq!(t.register_lawyer(root(), 10), Ok(()));
    assert_eq!(t.remove_from_case(signed(10), 1), Err(Error::InvalidIndex));
    assert_eq!(t.lawyer_claim_property(signed(10), 0, LegalProperty::RealEstateDeveloperSite, 4_000), Ok(()));
    assert_eq!(t.lawyer_confirm_documents(signed(10), 0, true), Ok(()));
    assert_eq!(t.remove_from_case(signed(10), 0), Err(Error::AlreadyConfirmed));
}

#[test]
fn lawyer_confirm_documents_fails() {
    let mut t = new_test_ext();
    setup_two_lawyers(&mut t, &[0, 1]);
    assert_eq!(t.register_lawyer(root(), 12), Ok(()));
    assert_eq!(t.list_object(signed(0), 0, vec![10, 10], 10_000, 100, vec![22, 22]), Ok(()));
    assert_eq!(t.buy_token(signed(1), 0, 100), Ok(()));
    assert_eq!(t.lawyer_claim_property(signed(10), 0, LegalProperty::RealEstateDeveloperSite, 4_000), Ok(()));
    assert_eq!(t.market.property_lawyer(0).unwrap().real_estate_developer_lawyer, Some(10));
    assert_eq!(t.lawyer_claim_property(signed(11), 0, LegalProperty::SpvSite, 4_000), Ok(()));
    assert_eq!(t.market.property_lawyer(0).unwrap().spv_lawyer, Some(11));
    assert_eq!(t.lawyer_confirm_documents(signed(10), 1, false), Err(Error::InvalidIndex));
    assert_eq!(t.lawyer_confirm_documents(signed(12), 0, false), Err(Error::NoPermission));
    assert_eq!(t.lawyer_confirm_documents(signed(10), 0, false), Ok(()));
    assert_eq!(t.lawyer_confirm_documents(signed(10), 0, true), Err(Error::AlreadyConfirmed));
    assert_eq!(t.market.property_lawyer(0).unwrap().real_estate_developer_status, DocumentStatus::Rejected);
}

#[test]
fn listing_books_add_up() {
    let mut t = new_test_ext();
    setup_two_lawyers(&mut t, &[0, 1, 2]);
    assert_eq!(t.list_object(signed(0), 0, vec![10, 10], 10_000, 100, vec![22, 22]), Ok(()));
    assert_eq!(t.buy_token(signed(1), 0, 10), Ok(()));
    assert_eq!(t.buy_token(signed(1), 0, 10), Ok(()));
    assert_eq!(t.buy_token(signed(2), 0, 30), Ok(()));
    assert_eq!(t.market.token_buyer(0), vec![1, 2]);
    let bought = t.market.token_owner(1, 0).token_amount + t.market.token_owner(2, 0).token_amount;
    assert_eq!(bought, 50);
    assert_eq!(t.market.listed_token(0), Some(50));
    assert_eq!(bought + t.market.listed_token(0).unwrap(), t.market.ongoing_object_listing(0).unwrap().token_amount);
    assert_eq!(t.market.token_owner(0, 0).token_amount, 0);
}

#[test]
fn refused_deal_clears_the_books() {
    let mut t = new_test_ext();
    setup_two_lawyers(&mut t, &[0, 1, 2]);
    assert_eq!(t.list_object(signed(0), 0, vec![10, 10], 10_000, 100, vec![22, 22]), Ok(()));
    assert_eq!(t.buy_token(signed(1), 0, 60), Ok(()));
    assert_eq!(t.buy_token(signed(2), 0, 40), Ok(()));
    assert_eq!(t.lawyer_claim_property(signed(10), 0, LegalProperty::RealEstateDeveloperSite, 4_000), Ok(()));
    assert_eq!(t.lawyer_claim_property(signed(11), 0, LegalProperty::SpvSite, 4_000), Ok(()));
    assert_eq!(t.lawyer_confirm_documents(signed(10), 0, false), Ok(()));
    assert_eq!(t.lawyer_confirm_documents(signed(11), 0, false), Ok(()));
    assert_eq!(t.market.token_buyer(0).len(), 0);
    assert_eq!(t.market.token_owner(1, 0).token_amount, 0);
    assert_eq!(t.market.token_owner(2, 0).token_amount, 0);
    assert_eq!(t.market.ongoing_object_listing(0).is_none(), true);
}

#[test]
fn seller_of_all_its_tokens_leaves_the_owners() {
    let mut t = new_test_ext();
    setup_two_lawyers(&mut t, &[0, 1, 3]);
    t.sell_out_and_approve(0, 1);
    assert_eq!(t.market.property_owner(0), vec![1]);
    assert_eq!(t.relist_token(signed(1), 0, 0, 10, 100), Ok(()));
    let treasury = t.market.treasury_account_id();
    let treasury_before = t.balance(1, treasury);
    let seller_before = t.balance(1, 1);
    assert_eq!(t.buy_relisted_token(signed(3), 1, 100), Ok(()));
    assert_eq!(t.market.property_owner(0), vec![3]);
    assert_eq!(t.market.property_owner_token(0, 1), 0);
    assert_eq!(t.market.property_owner_token(0, 3), 100);
    assert_eq!(t.balance(0, 3), 100);
    assert_eq!(t.balance(1, treasury), treasury_before + 10);
    assert_eq!(t.balance(1, 1), seller_before + 990);
}
