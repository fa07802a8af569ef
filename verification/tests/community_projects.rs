use xcavate::assets::Assets;
use xcavate::common::{AccountId, Origin};
use xcavate::community_projects::{CpConfig, Error, Event, NftDonationTypes, Pallet, Vote, VoteStats};
use xcavate::nfts::Nfts;
use xcavate::weights::RuntimeDbWeight;

const CP: AccountId = 4000;

struct Env {
    cp: Pallet,
    nfts: Nfts,
    assets: Assets,
    block: u64,
}

fn new_test_ext() -> Env {
    let mut assets = Assets::new();
    assets.create(1).unwrap();
    assets.mint(1, 0, 20_000_000).unwrap();
    assets.mint(1, 1, 1_500).unwrap();
    assets.mint(1, 2, 150_000).unwrap();
    assets.mint(1, 3, 1_500).unwrap();
    let config = CpConfig {
        pallet_account: CP,
        max_listed_nfts: 100,
        max_nft_in_collection: 100,
        max_ongoing_projects: 100,
        max_nft_holder: 100,
    };
    Env { cp: Pallet::new(config), nfts: Nfts::new(), assets, block: 1 }
}

fn signed(who: AccountId) -> Origin {
    Origin::Signed(who)
}

/// `n` kinds of NFTs: kind `x` (from 1) costs `100 * x` and has `x` NFTs.
fn get_project_nfts(n: u32) -> Vec<NftDonationTypes> {
    (1..=n).map(|x| NftDonationTypes { price: (100 * x) as u128, amount: x }).collect()
}

impl Env {
    fn list(&mut self, owner: AccountId, kinds: u32, duration: u32, price: u128) -> Result<(), Error> {
        self.cp.list_project(&mut self.nfts, signed(owner), get_project_nfts(kinds), duration, price, vec![22, 22])
    }

    fn buy(&mut self, who: AccountId, c: u32, i: u32, now: u64) -> Result<(), Error> {
        self.cp.buy_nft(&mut self.nfts, &mut self.assets, signed(who), c, i, now)
    }

    fn vote(&mut self, who: AccountId, c: u32, vote: Vote) -> Result<(), Error> {
        self.cp.vote_on_milestone(signed(who), c, vote)
    }

    fn run_block(&mut self, n: u64) {
        let _ = self.cp.on_initialize(&mut self.assets, RuntimeDbWeight { read: 25, write: 100 }, n);
    }

    /// Runs the block hook of every block after the current one up to `n`.
    fn run_to_block(&mut self, n: u64) {
        while self.block < n {
            self.block += 1;
            let b = self.block;
            self.run_block(b);
        }
    }

    fn buy_now(&mut self, who: AccountId, c: u32, i: u32) -> Result<(), Error> {
        let now = self.block;
        self.buy(who, c, i, now)
    }

    /// Project 0 of owner 0, raising 300 over `duration` milestones, sold
    /// out at block 1: NFT 1 (price 200) to 1 and NFT 0 (price 100) to 2.
    fn launched_project(&mut self, duration: u32) {
        assert_eq!(self.list(0, 3, duration, 300), Ok(()));
        assert_eq!(self.buy(1, 0, 1, 1), Ok(()));
        assert_eq!(self.buy(2, 0, 0, 1), Ok(()));
    }
}

#[test]
fn list_project_lists_one_nft_per_donation() {
    let mut t = new_test_ext();
    assert_eq!(t.list(0, 3, 5, 400), Ok(()));
    assert_eq!(t.cp.listed_nfts().len(), 6);
    assert_eq!(t.cp.listed_nfts_of_collection(0), vec![0, 1, 2, 3, 4, 5]);
    assert_eq!(t.cp.ongoing_nft_details(0, 0).unwrap().price, 100);
    assert_eq!(t.cp.ongoing_nft_details(0, 2).unwrap().price, 200);
    assert_eq!(t.cp.ongoing_nft_details(0, 5).unwrap().price, 300);
    assert_eq!(t.cp.ongoing_nft_details(0, 6), None);
    let p = t.cp.ongoing_projects(0).unwrap();
    assert_eq!((p.project_owner, p.project_price, p.duration, p.remaining_milestones), (0, 400, 5, 5));
    assert_eq!(t.nfts.owner(0, 3), Some(CP));
    assert_eq!(t.nfts.collection_owner(0), Some(0));
}

#[test]
fn list_project_refusals() {
    let mut t = new_test_ext();
    assert_eq!(
        t.cp.list_project(&mut t.nfts, Origin::Root, get_project_nfts(1), 5, 100, vec![]),
        Err(Error::BadOrigin)
    );
    assert_eq!(t.list(0, 14, 5, 100), Err(Error::TooManyListedNfts));
    assert_eq!(t.cp.listed_nfts().len(), 0);
}

#[test]
fn buy_nft_pays_the_price_in_units() {
    let mut t = new_test_ext();
    assert_eq!(t.list(0, 3, 5, 400), Ok(()));
    assert_eq!(t.buy(1, 0, 1, 1), Ok(()));
    assert_eq!(t.cp.listed_nfts().len(), 5);
    assert_eq!(t.assets.balance(1, 1), 1_300);
    assert_eq!(t.assets.balance(1, t.cp.account_id()), 200);
    assert_eq!(t.nfts.owner(0, 1), Some(1));
    assert_eq!(t.cp.voting_power(0, 1), Some(200));
    assert_eq!(t.cp.nft_holder(0), vec![1]);
    assert_eq!(t.cp.ongoing_projects(0).unwrap().project_balance, 200);
}

#[test]
fn buy_nft_refusals() {
    let mut t = new_test_ext();
    assert_eq!(t.list(0, 3, 5, 400), Ok(()));
    assert_eq!(t.buy(1, 2, 1, 1), Err(Error::NftNotFound));
    assert_eq!(t.buy(4, 0, 1, 1), Err(Error::NotEnoughFunds));
    assert_eq!(t.cp.buy_nft(&mut t.nfts, &mut t.assets, Origin::Root, 0, 1, 1), Err(Error::BadOrigin));
    assert_eq!(t.cp.listed_nfts().len(), 6);
    assert_eq!(t.buy(1, 0, 1, 1), Ok(()));
    assert_eq!(t.buy(2, 0, 1, 1), Err(Error::NftNotFound));
}

#[test]
fn sold_out_project_is_launched() {
    let mut t = new_test_ext();
    t.launched_project(5);
    assert_eq!(t.cp.listed_nfts().len(), 0);
    assert_eq!(t.cp.listed_nfts_of_collection(0), Vec::<u32>::new());
    for unsold in 2..=5 {
        assert_eq!(t.nfts.owner(0, unsold), None);
    }
    assert_eq!(t.nfts.owner(0, 0), Some(2));
    assert_eq!(t.nfts.owner(0, 1), Some(1));
    assert_eq!(t.cp.ongoing_projects(0).unwrap().launching_timestamp, 1);
    assert_eq!(t.cp.milestone_period_expiring(11), vec![0]);
    assert!(t.cp.events().contains(&Event::ProjectLaunched { collection_index: 0 }));
}

#[test]
fn milestone_voting_pays_the_owner() {
    let mut t = new_test_ext();
    t.launched_project(5);
    t.run_block(11);
    assert_eq!(t.cp.ongoing_votes(0), Some(VoteStats { yes_votes: 0, no_votes: 0 }));
    assert_eq!(t.vote(2, 0, Vote::Yes), Ok(()));
    assert_eq!(t.cp.ongoing_votes(0).unwrap().yes_votes, 100);
    assert_eq!(t.vote(1, 0, Vote::Yes), Ok(()));
    assert_eq!(t.cp.ongoing_votes(0).unwrap().yes_votes, 300);
    t.run_block(21);
    assert_eq!(t.assets.balance(1, 0), 20_000_060);
    assert_eq!(t.assets.balance(1, CP), 240);
    assert_eq!(t.cp.ongoing_projects(0).unwrap().remaining_milestones, 4);
    assert_eq!(t.cp.ongoing_votes(0), None);
    assert_eq!(t.cp.voted_user(0).len(), 0);
    assert_eq!(t.cp.milestone_period_expiring(31), vec![0]);
}

#[test]
fn milestone_vote_refusals() {
    let mut t = new_test_ext();
    t.launched_project(5);
    assert_eq!(t.vote(1, 0, Vote::Yes), Err(Error::NoOngoingVotingPeriod));
    t.run_block(11);
    assert_eq!(t.vote(3, 0, Vote::Yes), Err(Error::InsufficientPermission));
    assert_eq!(t.vote(1, 0, Vote::No), Ok(()));
    assert_eq!(t.vote(1, 0, Vote::Yes), Err(Error::AlreadyVoted));
    assert_eq!(t.cp.ongoing_votes(0), Some(VoteStats { yes_votes: 0, no_votes: 200 }));
}

#[test]
fn rejected_milestone_is_a_strike() {
    let mut t = new_test_ext();
    t.launched_project(5);
    t.run_block(11);
    assert_eq!(t.vote(1, 0, Vote::No), Ok(()));
    assert_eq!(t.vote(2, 0, Vote::Yes), Ok(()));
    t.run_block(21);
    assert_eq!(t.cp.ongoing_projects(0).unwrap().strikes, 1);
    assert_eq!(t.cp.ongoing_projects(0).unwrap().remaining_milestones, 5);
    assert_eq!(t.assets.balance(1, 0), 20_000_000);
}

#[test]
fn three_strikes_delete_the_project() {
    let mut t = new_test_ext();
    t.launched_project(5);
    for n in [11u64, 21, 31, 41, 51] {
        t.run_block(n);
    }
    assert_eq!(t.cp.ongoing_projects(0).unwrap().strikes, 2);
    t.run_block(61);
    assert_eq!(t.cp.ongoing_projects(0), None);
    assert_eq!(t.assets.balance(1, 1), 1_500);
    assert_eq!(t.assets.balance(1, 2), 150_000);
    assert_eq!(t.assets.balance(1, CP), 0);
    assert_eq!(*t.cp.events().last().unwrap(), Event::ProjectDeleted { collection_id: 0 });
}

#[test]
fn project_ends_after_its_last_milestone() {
    let mut t = new_test_ext();
    t.launched_project(1);
    t.run_block(11);
    assert_eq!(t.vote(1, 0, Vote::Yes), Ok(()));
    t.run_block(21);
    assert_eq!(t.assets.balance(1, 0), 20_000_300);
    assert_eq!(t.cp.ongoing_projects(0), None);
}

#[test]
fn cp_empty_block_weight() {
    let mut t = new_test_ext();
    let w = t.cp.on_initialize(&mut t.assets, RuntimeDbWeight { read: 25, write: 100 }, 3);
    assert_eq!(w.proof_size, 0);
    assert!(w.ref_time > 0);
}

#[test]
fn list_works() {
    let mut t = new_test_ext();
    assert_eq!(t.list(0, 3, 5, 400), Ok(()));
    assert_eq!(t.cp.listed_nfts().len(), 6);
}

#[test]
fn list_fails_with_price_too_high() {
    let mut t = new_test_ext();
    assert_eq!(t.list(0, 3, 5, 1000), Err(Error::PriceCannotBeReached));
    assert_eq!(t.cp.listed_nfts().len(), 0);
    assert_eq!(t.nfts.collection_owner(0), None);
}

#[test]
fn buy_works() {
    let mut t = new_test_ext();
    assert_eq!(t.list(0, 3, 5, 400), Ok(()));
    assert_eq!(t.buy_now(1, 0, 1), Ok(()));
    assert_eq!(t.cp.listed_nfts().len(), 5);
    assert_eq!(t.assets.balance(1, 1), 1300);
    assert_eq!(t.assets.balance(1, t.cp.account_id()), 200);
}

#[test]
fn buy_fails_nft_not_available() {
    let mut t = new_test_ext();
    assert_eq!(t.list(0, 3, 5, 400), Ok(()));
    assert_eq!(t.buy_now(1, 2, 1), Err(Error::NftNotFound));
}

#[test]
fn buy_fails_nft_not_enough_assets() {
    let mut t = new_test_ext();
    assert_eq!(t.list(0, 3, 5, 400), Ok(()));
    assert_eq!(t.buy_now(4, 0, 1), Err(Error::NotEnoughFunds));
    assert_eq!(t.cp.listed_nfts().len(), 6);
}

#[test]
fn launch_project_works() {
    let mut t = new_test_ext();
    assert_eq!(t.list(0, 3, 5, 300), Ok(()));
    assert_eq!(t.buy_now(1, 0, 1), Ok(()));
    assert_eq!(t.buy_now(2, 0, 0), Ok(()));
    assert_eq!(t.cp.listed_nfts().len(), 0);
}

#[test]
fn tests_voting_works() {
    let mut t = new_test_ext();
    assert_eq!(t.list(0, 3, 5, 300), Ok(()));
    assert_eq!(t.buy_now(1, 0, 1), Ok(()));
    assert_eq!(t.buy_now(2, 0, 0), Ok(()));
    assert_eq!(t.cp.listed_nfts().len(), 0);
    t.run_to_block(11);
    assert_eq!(t.vote(2, 0, Vote::Yes), Ok(()));
    assert_eq!(t.cp.ongoing_votes(0).unwrap().yes_votes, 100);
}

#[test]
fn rejecting_vote_works() {
    let mut t = new_test_ext();
    assert_eq!(t.list(0, 4, 4, 900), Ok(()));
    assert_eq!(t.buy_now(1, 0, 5), Ok(()));
    assert_eq!(t.buy_now(1, 0, 4), Ok(()));
    assert_eq!(t.buy_now(2, 0, 3), Ok(()));
    assert_eq!(t.assets.balance(1, 1), 900);
    assert_eq!(t.assets.balance(1, 2), 149_700);
    assert_eq!(t.assets.balance(1, t.cp.account_id()), 900);
    t.run_to_block(11);
    assert_eq!(t.vote(2, 0, Vote::Yes), Ok(()));
    assert_eq!(t.vote(1, 0, Vote::Yes), Ok(()));
    assert_eq!(t.cp.ongoing_votes(0).unwrap().no_votes, 0);
    t.run_to_block(31);
    assert_eq!(t.vote(1, 0, Vote::No), Ok(()));
    t.run_to_block(51);
    assert_eq!(t.vote(1, 0, Vote::No), Ok(()));
    t.run_to_block(71);
    assert_eq!(t.vote(1, 0, Vote::No), Ok(()));
    t.run_to_block(81);
    assert_eq!(t.cp.ongoing_projects(0), None);
    assert_eq!(t.assets.balance(1, 1), 1_350);
    assert_eq!(t.assets.balance(1, 2), 149_925);
    assert_eq!(t.assets.balance(1, t.cp.account_id()), 0);
}

#[test]
fn voting_fails_with_no_permission() {
    let mut t = new_test_ext();
    assert_eq!(t.list(0, 3, 3, 300), Ok(()));
    assert_eq!(t.buy_now(1, 0, 5), Ok(()));
    t.run_to_block(11);
    assert_eq!(t.vote(2, 0, Vote::Yes), Err(Error::InsufficientPermission));
}

#[test]
fn voting_fails_with_double_voting() {
    let mut t = new_test_ext();
    assert_eq!(t.list(0, 3, 3, 300), Ok(()));
    assert_eq!(t.buy_now(1, 0, 5), Ok(()));
    t.run_to_block(11);
    assert_eq!(t.vote(1, 0, Vote::Yes), Ok(()));
    assert_eq!(t.vote(1, 0, Vote::Yes), Err(Error::AlreadyVoted));
}

#[test]
fn voting_fails_with_no_ongoing_voting() {
    let mut t = new_test_ext();
    assert_eq!(t.list(0, 3, 3, 300), Ok(()));
    assert_eq!(t.buy_now(1, 0, 5), Ok(()));
    assert_eq!(t.vote(1, 0, Vote::Yes), Err(Error::NoOngoingVotingPeriod));
}

#[test]
fn set_strikes_works() {
    let mut t = new_test_ext();
    assert_eq!(t.list(0, 3, 3, 300), Ok(()));
    assert_eq!(t.buy_now(1, 0, 5), Ok(()));
    t.run_to_block(11);
    assert_eq!(t.vote(1, 0, Vote::No), Ok(()));
    t.run_to_block(31);
    assert_eq!(t.vote(1, 0, Vote::No), Ok(()));
    t.run_to_block(41);
    assert_eq!(t.cp.ongoing_projects(0).unwrap().strikes, 2);
    t.run_to_block(51);
    assert_eq!(t.vote(1, 0, Vote::Yes), Ok(()));
    t.run_to_block(61);
    assert_eq!(t.cp.ongoing_projects(0).unwrap().strikes, 0);
}

#[test]
fn distributing_funds_works() {
    let mut t = new_test_ext();
    assert_eq!(t.list(0, 3, 3, 300), Ok(()));
    assert_eq!(t.buy_now(1, 0, 1), Ok(()));
    assert_eq!(t.buy_now(2, 0, 0), Ok(()));
    assert_eq!(t.cp.listed_nfts().len(), 0);
    t.run_to_block(11);
    assert_eq!(t.vote(2, 0, Vote::Yes), Ok(()));
    t.run_to_block(22);
    assert_eq!(t.assets.balance(1, 0), 20_000_100);
    assert_eq!(t.assets.balance(1, t.cp.account_id()), 200);
}

#[test]
fn distributing_funds_for_2_rounds_works() {
    let mut t = new_test_ext();
    assert_eq!(t.list(0, 3, 3, 300), Ok(()));
    assert_eq!(t.buy_now(1, 0, 1), Ok(()));
    assert_eq!(t.buy_now(2, 0, 0), Ok(()));
    assert_eq!(t.cp.listed_nfts().len(), 0);
    t.run_to_block(11);
    assert_eq!(t.vote(2, 0, Vote::Yes), Ok(()));
    t.run_to_block(22);
    assert_eq!(t.assets.balance(1, 0), 20_000_100);
    assert_eq!(t.assets.balance(1, t.cp.account_id()), 200);
    t.run_to_block(32);
    assert_eq!(t.vote(2, 0, Vote::Yes), Ok(()));
    t.run_to_block(42);
    assert_eq!(t.assets.balance(1, 0), 20_000_200);
    assert_eq!(t.assets.balance(1, t.cp.account_id()), 100);
}

#[test]
fn delete_project_works() {
    let mut t = new_test_ext();
    assert_eq!(t.list(0, 3, 1, 300), Ok(()));
    assert_eq!(t.buy_now(1, 0, 1), Ok(()));
    assert_eq!(t.buy_now(2, 0, 0), Ok(()));
    t.run_to_block(11);
    assert_eq!(t.vote(2, 0, Vote::Yes), Ok(()));
    t.run_to_block(22);
    assert_eq!(t.assets.balance(1, 0), 20_000_300);
    assert_eq!(t.assets.balance(1, t.cp.account_id()), 0);
    assert_eq!(t.cp.ongoing_projects(0), None);
}
