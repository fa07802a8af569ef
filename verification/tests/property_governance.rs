use xcavate::assets::Assets;
use xcavate::common::{AccountId, Origin};
use xcavate::ledger::Ledger;
use xcavate::marketplace::{LegalProperty, Pallet as Market};
use xcavate::nfts::Nfts;
use xcavate::property_governance::{
    count_vote, passes, ChallengeState, Error, Event, GovConfig, Pallet as Governance, Vote, VoteStats,
};
use xcavate::property_management::Pallet as PropertyManagement;
use xcavate::weights::RuntimeDbWeight;
use xcavate::whitelist;

const MARKET: AccountId = 1000;
const TREASURY: AccountId = 1001;
const COMMUNITY: AccountId = 1002;
const PM: AccountId = 2000;
const GOV: AccountId = 3000;

struct Env {
    gov: Governance,
    pm: PropertyManagement,
    market: Market,
    assets: Assets,
    nfts: Nfts,
    wl: whitelist::Pallet,
    balances: Ledger,
}

fn config() -> GovConfig {
    GovConfig {
        pallet_account: GOV,
        voting_time: 30,
        max_votes_for_block: 100,
        min_slashing_amount: 60,
        max_voter: 100,
        threshold: 50,
        high_threshold: 67,
        low_proposal: 500,
        high_proposal: 10_000,
        polkadot_js_multiplier: 1,
    }
}

fn signed(who: AccountId) -> Origin {
    Origin::Signed(who)
}

fn db() -> RuntimeDbWeight {
    RuntimeDbWeight { read: 25, write: 100 }
}

/// A property of 100 tokens in region 0, owned by 1 (60 tokens) and 3 (40
/// tokens), with letting agent 2.
fn new_test_ext() -> Env {
    env_with(100, 60)
}

/// A property of `tokens` tokens in region 0, owned by 1 (`first` tokens)
/// and 3 (the rest), with letting agent 2.
fn env_with(tokens: u32, first: u32) -> Env {
    let mut assets = Assets::new();
    assets.create(1).unwrap();
    assets.mint(1, 1, 3_000_000).unwrap();
    assets.mint(1, 3, 3_000_000).unwrap();
    let mut balances = Ledger::new(1);
    balances.set_free_balance(2, 10_000);
    balances.set_free_balance(4, 10_000);
    balances.set_free_balance(GOV, 500_000);
    let mut t = Env {
        gov: Governance::new(config()),
        pm: PropertyManagement::new(PM, 100, 100, 100),
        market: Market::new(MARKET, TREASURY, COMMUNITY, 250),
        assets,
        nfts: Nfts::new(),
        wl: whitelist::Pallet::new(1000),
        balances,
    };
    let root = Origin::Root;
    t.market.create_new_region(&mut t.nfts, root).unwrap();
    t.market.create_new_location(root, 0, vec![10, 10]).unwrap();
    for who in [0u64, 1, 3] {
        t.wl.add_to_whitelist(root, who).unwrap();
    }
    t.market.register_lawyer(root, 10).unwrap();
    t.market.register_lawyer(root, 11).unwrap();
    let m = &mut t.market;
    m.list_object(&mut t.assets, &mut t.nfts, &t.wl, signed(0), 0, vec![10, 10], 10_000, tokens, vec![22]).unwrap();
    m.buy_token(&mut t.assets, &t.wl, signed(1), 0, first).unwrap();
    m.buy_token(&mut t.assets, &t.wl, signed(3), 0, tokens - first).unwrap();
    m.lawyer_claim_property(signed(10), 0, LegalProperty::RealEstateDeveloperSite, 4_000).unwrap();
    m.lawyer_claim_property(signed(11), 0, LegalProperty::SpvSite, 4_000).unwrap();
    m.lawyer_confirm_documents(&mut t.assets, &mut t.nfts, signed(10), 0, true).unwrap();
    m.lawyer_confirm_documents(&mut t.assets, &mut t.nfts, signed(11), 0, true).unwrap();
    t.pm.add_letting_agent(&t.market, root, 0, 2).unwrap();
    t.pm.letting_agent_deposit(&mut t.balances, signed(2)).unwrap();
    t.pm.set_letting_agent(&t.market, signed(2), 0, 0).unwrap();
    t
}

impl Env {
    fn propose(&mut self, origin: Origin, asset: u32, amount: u128, now: u64) -> Result<(), Error> {
        self.gov.propose(&mut self.pm, &mut self.balances, origin, asset, amount, vec![10, 10], now)
    }

    fn vote(&mut self, who: AccountId, proposal: u32, vote: Vote) -> Result<(), Error> {
        self.gov.vote_on_proposal(&self.market, signed(who), proposal, vote)
    }

    fn challenge(&mut self, who: AccountId, asset: u32, now: u64) -> Result<(), Error> {
        self.gov.challenge_against_letting_agent(&self.pm, &self.market, signed(who), asset, now)
    }

    fn vote_challenge(&mut self, who: AccountId, challenge: u32, vote: Vote) -> Result<(), Error> {
        self.gov.vote_on_letting_agent_challenge(&self.market, signed(who), challenge, vote)
    }

    fn run_block(&mut self, n: u64) {
        let _ = self.gov.on_initialize(&mut self.pm, &mut self.balances, &self.market, db(), n);
    }

    fn last_event(&self) -> Event {
        *self.gov.events().last().unwrap()
    }
}

#[test]
fn low_proposal_is_executed_at_once() {
    let mut t = new_test_ext();
    assert_eq!(t.pm.letting_storage(0), Some(2));
    assert_eq!(t.propose(signed(2), 0, 500, 1), Ok(()));
    assert_eq!(t.gov.proposal_count(), 0);
    assert_eq!(t.gov.ongoing_votes(1), None);
    assert_eq!(t.pm.property_debts(0), 500);
    assert_eq!(t.pm.property_reserve(0), 0);
    assert_eq!(t.last_event(), Event::ProposalExecuted { asset_id: 0, amount: 500 });
}

#[test]
fn proposal_is_put_to_the_vote() {
    let mut t = new_test_ext();
    assert_eq!(t.propose(signed(2), 0, 1000, 1), Ok(()));
    assert_eq!(t.gov.proposal_count(), 1);
    assert_eq!(t.gov.proposals(1).unwrap().asset_id, 0);
    assert_eq!(t.gov.proposals(1).unwrap().amount, 1000);
    assert_eq!(t.gov.ongoing_votes(1), Some(VoteStats { yes_voting_power: 0, no_voting_power: 0 }));
    assert_eq!(t.gov.proposal_rounds_expiring(31), vec![1]);
    assert_eq!(t.pm.property_debts(0), 0);
}

#[test]
fn proposal_passes_at_the_end_of_its_voting() {
    let mut t = new_test_ext();
    assert_eq!(t.propose(signed(2), 0, 1000, 1), Ok(()));
    assert_eq!(t.vote(1, 1, Vote::Yes), Ok(()));
    assert_eq!(t.vote(3, 1, Vote::No), Ok(()));
    assert_eq!(t.gov.ongoing_votes(1), Some(VoteStats { yes_voting_power: 60, no_voting_power: 40 }));
    t.run_block(30);
    assert_eq!(t.gov.proposals(1).is_some(), true);
    t.run_block(31);
    assert_eq!(t.gov.proposals(1).is_none(), true);
    assert_eq!(t.gov.ongoing_votes(1).is_none(), true);
    assert_eq!(t.pm.property_debts(0), 1000);
    assert_eq!(t.last_event(), Event::ProposalExecuted { asset_id: 0, amount: 1000 });
}

#[test]
fn proposal_rejected_by_more_no_votes() {
    let mut t = new_test_ext();
    assert_eq!(t.propose(signed(2), 0, 1000, 1), Ok(()));
    assert_eq!(t.vote(1, 1, Vote::No), Ok(()));
    assert_eq!(t.vote(3, 1, Vote::Yes), Ok(()));
    t.run_block(31);
    assert_eq!(t.gov.proposals(1).is_none(), true);
    assert_eq!(t.pm.property_debts(0), 0);
    assert_eq!(t.last_event(), Event::ProposalRejected { proposal_id: 1 });
}

#[test]
fn proposal_without_enough_votes_fails_the_threshold() {
    let mut t = new_test_ext();
    assert_eq!(t.propose(signed(2), 0, 1000, 1), Ok(()));
    assert_eq!(t.vote(3, 1, Vote::Yes), Ok(()));
    t.run_block(31);
    assert_eq!(t.pm.property_debts(0), 0);
    assert_eq!(t.last_event(), Event::ProposalThresHoldNotReached { proposal_id: 1, required_threshold: 50 });
}

#[test]
fn high_proposal_needs_the_high_threshold() {
    let mut t = new_test_ext();
    assert_eq!(t.propose(signed(2), 0, 10_000, 1), Ok(()));
    assert_eq!(t.vote(1, 1, Vote::Yes), Ok(()));
    t.run_block(31);
    assert_eq!(t.pm.property_debts(0), 0);
    assert_eq!(t.last_event(), Event::ProposalThresHoldNotReached { proposal_id: 1, required_threshold: 67 });
}

#[test]
fn voting_again_replaces_the_vote() {
    let mut t = new_test_ext();
    assert_eq!(t.propose(signed(2), 0, 1000, 1), Ok(()));
    assert_eq!(t.vote(1, 1, Vote::Yes), Ok(()));
    assert_eq!(t.vote(1, 1, Vote::No), Ok(()));
    assert_eq!(t.gov.ongoing_votes(1), Some(VoteStats { yes_voting_power: 0, no_voting_power: 60 }));
    assert_eq!(t.gov.user_proposal_vote(1, 1), Some(Vote::No));
}

#[test]
fn propose_refusals() {
    let mut t = new_test_ext();
    assert_eq!(t.propose(Origin::Root, 0, 1000, 1), Err(Error::BadOrigin));
    assert_eq!(t.propose(signed(2), 7, 1000, 1), Err(Error::NoLettingAgentFound));
    assert_eq!(t.propose(signed(1), 0, 1000, 1), Err(Error::NoPermission));
    assert_eq!(t.gov.proposal_count(), 0);
}

#[test]
fn vote_refusals() {
    let mut t = new_test_ext();
    assert_eq!(t.vote(1, 1, Vote::Yes), Err(Error::NotOngoing));
    assert_eq!(t.propose(signed(2), 0, 1000, 1), Ok(()));
    assert_eq!(t.vote(4, 1, Vote::Yes), Err(Error::NoPermission));
    assert_eq!(t.gov.vote_on_proposal(&t.market, Origin::Root, 1, Vote::Yes), Err(Error::BadOrigin));
    assert_eq!(t.gov.ongoing_votes(1), Some(VoteStats { yes_voting_power: 0, no_voting_power: 0 }));
}

#[test]
fn challenge_goes_through_all_rounds_and_replaces_the_agent() {
    let mut t = new_test_ext();
    t.pm.add_letting_agent(&t.market, Origin::Root, 0, 4).unwrap();
    t.pm.letting_agent_deposit(&mut t.balances, signed(4)).unwrap();
    assert_eq!(t.challenge(1, 0, 1), Ok(()));
    assert_eq!(t.gov.challenge_count(), 1);
    assert_eq!(t.gov.challenges(1).unwrap().state, ChallengeState::First);
    assert_eq!(t.vote_challenge(1, 1, Vote::Yes), Ok(()));
    t.run_block(31);
    assert_eq!(t.gov.challenges(1).unwrap().state, ChallengeState::Second);
    assert_eq!(t.vote_challenge(1, 1, Vote::Yes), Err(Error::NotOngoing));
    t.run_block(61);
    assert_eq!(t.gov.challenges(1).unwrap().state, ChallengeState::Third);
    assert_eq!(t.vote_challenge(1, 1, Vote::Yes), Ok(()));
    t.run_block(91);
    assert_eq!(t.gov.challenges(1).unwrap().state, ChallengeState::Fourth);
    assert_eq!(t.balances.reserved_balance(2), 40);
    assert_eq!(t.last_event(), Event::AgentSlashed { challenge_id: 1, amount: 60 });
    assert_eq!(t.vote_challenge(1, 1, Vote::Yes), Ok(()));
    assert_eq!(t.vote_challenge(3, 1, Vote::Yes), Ok(()));
    t.run_block(121);
    assert_eq!(t.gov.challenges(1).is_none(), true);
    assert_eq!(t.pm.letting_storage(0), Some(4));
    assert_eq!(t.pm.letting_agent_locations(0), vec![4]);
    assert_eq!(t.last_event(), Event::AgentChanged { challenge_id: 1, asset_id: 0 });
}

#[test]
fn challenge_rejected_in_the_first_round() {
    let mut t = new_test_ext();
    assert_eq!(t.challenge(1, 0, 1), Ok(()));
    assert_eq!(t.vote_challenge(1, 1, Vote::No), Ok(()));
    t.run_block(31);
    assert_eq!(t.gov.challenges(1).is_none(), true);
    assert_eq!(t.pm.letting_storage(0), Some(2));
    assert_eq!(
        t.last_event(),
        Event::ChallengeRejected { challenge_id: 1, challenge_state: ChallengeState::First }
    );
}

#[test]
fn challenge_refusals() {
    let mut t = new_test_ext();
    assert_eq!(t.challenge(4, 0, 1), Err(Error::NoPermission));
    assert_eq!(t.gov.challenge_against_letting_agent(&t.pm, &t.market, Origin::Root, 0, 1), Err(Error::BadOrigin));
    assert_eq!(t.vote_challenge(1, 1, Vote::Yes), Err(Error::NotOngoing));
    assert_eq!(t.challenge(1, 0, 1), Ok(()));
    assert_eq!(t.vote_challenge(4, 1, Vote::Yes), Err(Error::NoPermission));
}

#[test]
fn empty_block_weighs_one_read_and_one_write() {
    let mut t = new_test_ext();
    let w = t.gov.on_initialize(&mut t.pm, &mut t.balances, &t.market, db(), 5);
    assert_eq!(w.ref_time, 125);
    assert_eq!(w.proof_size, 0);
}

#[test]
fn vote_counting_helpers() {
    let s = VoteStats { yes_voting_power: 10, no_voting_power: 5 };
    assert_eq!(count_vote(s, None, Vote::Yes, 3), VoteStats { yes_voting_power: 13, no_voting_power: 5 });
    assert_eq!(count_vote(s, Some(Vote::Yes), Vote::No, 3), VoteStats { yes_voting_power: 7, no_voting_power: 8 });
    assert!(passes(60, 40, 50));
    assert!(!passes(40, 60, 30));
    assert!(!passes(40, 0, 50));
    assert!(passes(51, 49, 99));
    assert!(!passes(60, 40, 100));
}

#[test]
fn votes_count_as_shares_of_all_tokens() {
    let mut t = env_with(250, 60);
    assert_eq!(t.propose(signed(2), 0, 1000, 1), Ok(()));
    assert_eq!(t.vote(1, 1, Vote::Yes), Ok(()));
    t.run_block(31);
    assert_eq!(t.pm.property_debts(0), 0);
    assert_eq!(t.last_event(), Event::ProposalThresHoldNotReached { proposal_id: 1, required_threshold: 50 });
    let mut t = env_with(250, 130);
    assert_eq!(t.propose(signed(2), 0, 1000, 1), Ok(()));
    assert_eq!(t.vote(1, 1, Vote::Yes), Ok(()));
    t.run_block(31);
    assert_eq!(t.pm.property_debts(0), 1000);
}

#[test]
fn block_hook_closes_only_the_ended_votings() {
    let mut t = new_test_ext();
    assert_eq!(t.propose(signed(2), 0, 1000, 1), Ok(()));
    assert_eq!(t.propose(signed(2), 0, 2000, 5), Ok(()));
    assert_eq!(t.gov.proposal_rounds_expiring(35), vec![2]);
    t.run_block(31);
    assert_eq!(t.gov.proposals(1).is_none(), true);
    assert_eq!(t.gov.ongoing_votes(1), None);
    assert_eq!(t.gov.proposals(2).unwrap().amount, 2000);
    assert_eq!(t.gov.ongoing_votes(2), Some(VoteStats { yes_voting_power: 0, no_voting_power: 0 }));
    t.run_block(35);
    assert_eq!(t.gov.proposals(2).is_none(), true);
}
