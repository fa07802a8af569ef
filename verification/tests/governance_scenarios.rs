use xcavate::assets::Assets;
use xcavate::common::{AccountId, Origin};
use xcavate::ledger::Ledger;
use xcavate::marketplace::{LegalProperty, Pallet as Market};
use xcavate::nfts::Nfts;
use xcavate::property_governance::{ChallengeState, Error, Event, GovConfig, Pallet as Governance, Vote};
use xcavate::property_management::Pallet as PropertyManagement;
use xcavate::weights::RuntimeDbWeight;
use xcavate::whitelist;

const GOV: AccountId = 3000;

struct Env {
    gov: Governance,
    pm: PropertyManagement,
    market: Market,
    assets: Assets,
    nfts: Nfts,
    wl: whitelist::Pallet,
    balances: Ledger,
    block: u64,
}

fn root() -> Origin {
    Origin::Root
}

fn signed(who: AccountId) -> Origin {
    Origin::Signed(who)
}

/// Region 0 with location [10, 10], lawyers 10 and 11.
fn new_test_ext() -> Env {
    let mut assets = Assets::new();
    assets.create(1).unwrap();
    assets.mint(1, 0, 20_000_000).unwrap();
    assets.mint(1, 1, 1_500_000).unwrap();
    assets.mint(1, 2, 1_150_000).unwrap();
    assets.mint(1, 3, 1_000_000).unwrap();
    let mut balances = Ledger::new(1);
    balances.set_free_balance(0, 20_000_000);
    balances.set_free_balance(1, 1_000);
    balances.set_free_balance(GOV, 500_000);
    let config = GovConfig {
        pallet_account: GOV,
        voting_time: 30,
        max_votes_for_block: 100,
        min_slashing_amount: 100,
        max_voter: 100,
        threshold: 51,
        high_threshold: 67,
        low_proposal: 500,
        high_proposal: 10_000,
        polkadot_js_multiplier: 1,
    };
    let mut t = Env {
        gov: Governance::new(config),
        pm: PropertyManagement::new(2000, 100, 100, 100),
        market: Market::new(1000, 1001, 1002, 250),
        assets,
        nfts: Nfts::new(),
        wl: whitelist::Pallet::new(1000),
        balances,
        block: 1,
    };
    t.market.create_new_region(&mut t.nfts, root()).unwrap();
    t.market.create_new_location(root(), 0, vec![10, 10]).unwrap();
    t.market.register_lawyer(root(), 10).unwrap();
    t.market.register_lawyer(root(), 11).unwrap();
    t
}

impl Env {
    fn add_to_whitelist(&mut self, who: AccountId) {
        self.wl.add_to_whitelist(root(), who).unwrap();
    }

    fn list_object(&mut self) {
        self.list_object_with(10_000, 100);
    }

    fn list_object_with(&mut self, token_price: u128, token_amount: u32) {
        let r = self.market.list_object(
            &mut self.assets,
            &mut self.nfts,
            &self.wl,
            signed(0),
            0,
            vec![10, 10],
            token_price,
            token_amount,
            vec![22, 22],
        );
        assert_eq!(r, Ok(()));
    }

    fn buy_token(&mut self, who: AccountId, amount: u32) {
        assert_eq!(self.market.buy_token(&mut self.assets, &self.wl, signed(who), 0, amount), Ok(()));
    }

    fn approve(&mut self) {
        let m = &mut self.market;
        m.lawyer_claim_property(signed(10), 0, LegalProperty::RealEstateDeveloperSite, 4_000).unwrap();
        m.lawyer_claim_property(signed(11), 0, LegalProperty::SpvSite, 4_000).unwrap();
        m.lawyer_confirm_documents(&mut self.assets, &mut self.nfts, signed(10), 0, true).unwrap();
        m.lawyer_confirm_documents(&mut self.assets, &mut self.nfts, signed(11), 0, true).unwrap();
    }

    /// Letting agent 0 deposits and takes the property of listing 0.
    fn set_agent(&mut self) {
        assert_eq!(self.pm.add_letting_agent(&self.market, root(), 0, 0), Ok(()));
        assert_eq!(self.pm.letting_agent_deposit(&mut self.balances, signed(0)), Ok(()));
        assert_eq!(self.pm.set_letting_agent(&self.market, signed(0), 0, 0), Ok(()));
        assert_eq!(self.pm.letting_storage(0), Some(0));
    }

    fn distribute_income(&mut self, amount: u128) {
        assert_eq!(self.pm.distribute_income(&mut self.balances, &self.market, signed(0), 0, amount), Ok(()));
    }

    fn propose(&mut self, who: AccountId, amount: u128) -> Result<(), Error> {
        let now = self.block;
        self.gov.propose(&mut self.pm, &mut self.balances, signed(who), 0, amount, vec![10, 10], now)
    }

    fn vote_on_proposal(&mut self, who: AccountId, proposal: u32, vote: Vote) -> Result<(), Error> {
        self.gov.vote_on_proposal(&self.market, signed(who), proposal, vote)
    }

    fn challenge(&mut self, who: AccountId) -> Result<(), Error> {
        let now = self.block;
        self.gov.challenge_against_letting_agent(&self.pm, &self.market, signed(who), 0, now)
    }

    fn vote_on_challenge(&mut self, who: AccountId, challenge: u32, vote: Vote) -> Result<(), Error> {
        self.gov.vote_on_letting_agent_challenge(&self.market, signed(who), challenge, vote)
    }

    fn run_to_block(&mut self, n: u64) {
        while self.block < n {
            self.block += 1;
            let b = self.block;
            let db = RuntimeDbWeight { read: 25, write: 100 };
            let _ = self.gov.on_initialize(&mut self.pm, &mut self.balances, &self.market, db, b);
        }
    }
}

#[test]
fn propose_fails() {
    let mut t = new_test_ext();
    t.add_to_whitelist(0);
    t.add_to_whitelist(1);
    t.list_object();
    t.buy_token(1, 100);
    assert_eq!(t.propose(2, 1000), Err(Error::NoLettingAgentFound));
    t.set_agent();
    assert_eq!(t.propose(2, 1000), Err(Error::NoPermission));
}

#[test]
fn challenge_against_letting_agent_works() {
    let mut t = new_test_ext();
    t.add_to_whitelist(0);
    t.add_to_whitelist(1);
    t.list_object();
    t.buy_token(1, 100);
    t.approve();
    t.set_agent();
    assert_eq!(t.challenge(1), Ok(()));
    assert_eq!(t.gov.challenges(1).is_some(), true);
    assert_eq!(t.gov.challenges(1).unwrap().state, ChallengeState::First);
}

#[test]
fn challenge_against_letting_agent_fails() {
    let mut t = new_test_ext();
    t.add_to_whitelist(0);
    t.add_to_whitelist(1);
    t.list_object();
    t.buy_token(1, 100);
    t.approve();
    assert_eq!(t.challenge(1), Err(Error::NoLettingAgentFound));
    t.set_agent();
    assert_eq!(t.challenge(2), Err(Error::NoPermission));
    assert_eq!(t.gov.challenges(1).is_some(), false);
}

#[test]
fn vote_on_proposal_works() {
    let mut t = new_test_ext();
    for who in 0..4 {
        t.add_to_whitelist(who);
    }
    t.list_object();
    t.buy_token(1, 30);
    t.buy_token(1, 20);
    t.buy_token(2, 10);
    t.buy_token(3, 40);
    t.approve();
    t.set_agent();
    t.distribute_income(1000);
    assert_eq!(t.propose(0, 1000), Ok(()));
    assert_eq!(t.vote_on_proposal(1, 1, Vote::Yes), Ok(()));
    assert_eq!(t.vote_on_proposal(2, 1, Vote::Yes), Ok(()));
    assert_eq!(t.vote_on_proposal(3, 1, Vote::No), Ok(()));
    assert_eq!(t.vote_on_proposal(1, 1, Vote::No), Ok(()));
    assert_eq!(t.gov.ongoing_votes(1).unwrap().yes_voting_power, 10);
    assert_eq!(t.gov.ongoing_votes(1).unwrap().no_voting_power, 90);
}

#[test]
fn vote_on_proposal_fails() {
    let mut t = new_test_ext();
    t.add_to_whitelist(0);
    t.add_to_whitelist(1);
    t.list_object();
    t.buy_token(1, 100);
    t.approve();
    t.set_agent();
    assert_eq!(t.vote_on_proposal(1, 1, Vote::Yes), Err(Error::NotOngoing));
    t.distribute_income(1000);
    assert_eq!(t.propose(0, 1000), Ok(()));
    assert_eq!(t.vote_on_proposal(1, 1, Vote::Yes), Ok(()));
    assert_eq!(t.vote_on_proposal(2, 1, Vote::Yes), Err(Error::NoPermission));
}

#[test]
fn vote_on_challenge_works() {
    let mut t = new_test_ext();
    for who in 0..4 {
        t.add_to_whitelist(who);
    }
    t.list_object();
    t.buy_token(1, 20);
    t.buy_token(2, 30);
    t.buy_token(2, 10);
    t.buy_token(3, 40);
    t.approve();
    t.set_agent();
    assert_eq!(t.challenge(1), Ok(()));
    assert_eq!(t.vote_on_challenge(2, 1, Vote::Yes), Ok(()));
    assert_eq!(t.vote_on_challenge(1, 1, Vote::Yes), Ok(()));
    assert_eq!(t.vote_on_challenge(3, 1, Vote::Yes), Ok(()));
    assert_eq!(t.vote_on_challenge(2, 1, Vote::No), Ok(()));
    assert_eq!(t.gov.ongoing_challenge_votes(1, ChallengeState::First).unwrap().yes_voting_power, 60);
    assert_eq!(t.gov.ongoing_challenge_votes(1, ChallengeState::First).unwrap().no_voting_power, 40);
}

#[test]
fn challenge_not_pass() {
    let mut t = new_test_ext();
    t.add_to_whitelist(0);
    t.add_to_whitelist(1);
    t.list_object();
    t.buy_token(1, 100);
    t.approve();
    assert_eq!(t.challenge(1), Err(Error::NoLettingAgentFound));
    t.set_agent();
    assert_eq!(t.challenge(1), Ok(()));
    assert_eq!(t.vote_on_challenge(1, 1, Vote::No), Ok(()));
    assert_eq!(t.gov.challenges(1).is_some(), true);
    t.run_to_block(31);
    assert_eq!(
        *t.gov.events().last().unwrap(),
        Event::ChallengeRejected { challenge_id: 1, challenge_state: ChallengeState::First }
    );
    assert_eq!(t.gov.challenges(1).is_none(), true);
}

#[test]
fn vote_on_challenge_fails() {
    let mut t = new_test_ext();
    t.add_to_whitelist(0);
    t.add_to_whitelist(1);
    t.list_object();
    t.buy_token(1, 100);
    t.approve();
    assert_eq!(t.vote_on_challenge(1, 1, Vote::Yes), Err(Error::NotOngoing));
    t.set_agent();
    assert_eq!(t.challenge(1), Ok(()));
    assert_eq!(t.vote_on_challenge(1, 1, Vote::Yes), Ok(()));
    assert_eq!(t.vote_on_challenge(2, 1, Vote::Yes), Err(Error::NoPermission));
}

#[test]
fn challenge_does_not_pass() {
    let mut t = new_test_ext();
    for who in 0..3 {
        t.add_to_whitelist(who);
    }
    assert_eq!(t.pm.add_letting_agent(&t.market, root(), 0, 0), Ok(()));
    assert_eq!(t.pm.letting_agent_deposit(&mut t.balances, signed(0)), Ok(()));
    assert_eq!(t.pm.add_letting_agent(&t.market, root(), 0, 1), Ok(()));
    assert_eq!(t.pm.letting_agent_deposit(&mut t.balances, signed(1)), Ok(()));
    t.list_object_with(4_000, 250);
    t.buy_token(1, 75);
    t.buy_token(2, 175);
    t.approve();
    assert_eq!(t.pm.set_letting_agent(&t.market, signed(0), 0, 0), Ok(()));
    assert_eq!(t.pm.letting_storage(0), Some(0));
    assert_eq!(t.pm.letting_agent_locations(0).len(), 2);
    assert_eq!(t.challenge(1), Ok(()));
    assert_eq!(t.gov.challenges(1).unwrap().asset_id, 0);
    assert_eq!(t.vote_on_challenge(1, 1, Vote::Yes), Ok(()));
    assert_eq!(t.vote_on_challenge(2, 1, Vote::Yes), Ok(()));
    assert_eq!(t.gov.challenge_rounds_expiring(31).len(), 1);
    t.run_to_block(31);
    assert_eq!(t.pm.letting_storage(0), Some(0));
    assert_eq!(t.gov.challenges(1).unwrap().state, ChallengeState::Second);
    t.run_to_block(61);
    assert_eq!(t.pm.letting_storage(0), Some(0));
    assert_eq!(t.gov.challenges(1).unwrap().state, ChallengeState::Third);
    assert_eq!(t.vote_on_challenge(1, 1, Vote::Yes), Ok(()));
    t.run_to_block(91);
    assert_eq!(
        *t.gov.events().last().unwrap(),
        Event::ChallengeThresHoldNotReached {
            challenge_id: 1,
            required_threshold: 51,
            challenge_state: ChallengeState::Third,
        }
    );
    assert_eq!(t.gov.challenges(1).is_none(), true);
}
