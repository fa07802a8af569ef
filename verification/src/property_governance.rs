use std::collections::HashMap;
use vstd::prelude::*;

use crate::arith::{percent_from_rational, percent_of};
use crate::common::{
    view_map,
    ensure_signed, get_or, lemma_seq_map_insert, lemma_seq_map_remove, pair_key, seq_map,
    spec_pair_key, vec_contains, AccountId, Balance, BlockNumber, Origin,
};
use crate::ledger::{Ledger, LedgerState};
use crate::marketplace::{self, MarketState};
use crate::property_management::{self as pm, PmState};
use crate::weights::{add_weights, db_reads_writes, RuntimeDbWeight, Weight};

verus! {

broadcast use vstd::std_specs::hash::group_hash_axioms;

/// Index of a proposal.
pub type ProposalIndex = u32;

/// Index of a challenge.
pub type ChallengeIndex = u32;

/// A proposal of a letting agent to spend funds of a property.
#[derive(Clone, Debug, PartialEq, Eq)]
pub struct Proposal {
    pub proposer: AccountId,
    pub asset_id: u32,
    pub amount: Balance,
    pub created_at: BlockNumber,
    pub proposal_info: Vec<u8>,
}

/// A proposal, with its description as a sequence.
pub struct ProposalView {
    pub proposer: AccountId,
    pub asset_id: u32,
    pub amount: Balance,
    pub created_at: BlockNumber,
    pub proposal_info: Seq<u8>,
}

impl View for Proposal {
    type V = ProposalView;

    open spec fn view(&self) -> ProposalView {
        ProposalView {
            proposer: self.proposer,
            asset_id: self.asset_id,
            amount: self.amount,
            created_at: self.created_at,
            proposal_info: self.proposal_info@,
        }
    }
}

/// A proposal to sell a property.
#[derive(Clone, Copy, Debug, PartialEq, Eq, Structural)]
pub struct SellProposal {
    pub proposer: AccountId,
    pub asset_id: u32,
    pub amount: Balance,
    pub created_at: BlockNumber,
}

/// The rounds of a challenge against a letting agent: a first vote, a
/// waiting round, a vote on slashing the agent and a vote on replacing it.
#[derive(Clone, Copy, Debug, PartialEq, Eq, Structural)]
pub enum ChallengeState {
    First,
    Second,
    Third,
    Fourth,
}

/// A challenge of an owner against the letting agent of a property.
#[derive(Clone, Copy, Debug, PartialEq, Eq, Structural)]
pub struct Challenge {
    pub proposer: AccountId,
    pub asset_id: u32,
    pub created_at: BlockNumber,
    pub state: ChallengeState,
}

/// A vote.
#[derive(Clone, Copy, Debug, PartialEq, Eq, Structural)]
pub enum Vote {
    Yes,
    No,
}

/// The voting power cast each way in a voting.
#[derive(Clone, Copy, Debug, PartialEq, Eq, Structural)]
pub struct VoteStats {
    pub yes_voting_power: u32,
    pub no_voting_power: u32,
}

/// Events of the property governance. Thresholds are in whole percent.
#[derive(Clone, Copy, Debug, PartialEq, Eq, Structural)]
pub enum Event {
    /// New proposal has been created.
    Proposed { proposal_id: ProposalIndex, asset_id: u32, proposer: AccountId },
    /// A new challenge has been made.
    Challenge { challenge_id: ChallengeIndex, asset_id: u32, proposer: AccountId },
    /// Voted on proposal.
    VotedOnProposal { proposal_id: ProposalIndex, voter: AccountId, vote: Vote },
    /// Voted on challenge.
    VotedOnChallenge { challenge_id: ChallengeIndex, voter: AccountId, vote: Vote },
    /// The proposal has been executed.
    ProposalExecuted { asset_id: u32, amount: Balance },
    /// The agent got slashed.
    AgentSlashed { challenge_id: ChallengeIndex, amount: Balance },
    /// The agent has been changed.
    AgentChanged { challenge_id: ChallengeIndex, asset_id: u32 },
    /// A proposal got rejected.
    ProposalRejected { proposal_id: ProposalIndex },
    /// A challenge has been rejected.
    ChallengeRejected { challenge_id: ChallengeIndex, challenge_state: ChallengeState },
    /// The threshold could not be reached for a proposal.
    ProposalThresHoldNotReached { proposal_id: ProposalIndex, required_threshold: u8 },
    /// The threshold could not be reached for a challenge.
    ChallengeThresHoldNotReached {
        challenge_id: ChallengeIndex,
        required_threshold: u8,
        challenge_state: ChallengeState,
    },
}

/// Why a governance call was refused.
#[derive(Clone, Copy, Debug, PartialEq, Eq, Structural)]
pub enum Error {
    /// The origin may not make this call.
    BadOrigin,
    /// The user is not a property owner and has no permission to propose.
    NoPermission,
    /// There are already too many proposals in the ending block.
    TooManyProposals,
    /// The proposal is not ongoing.
    NotOngoing,
    /// Too many user voted already.
    TooManyVotes,
    /// The assets details could not be found.
    NoAssetFound,
    /// There is no letting agent for this property.
    NoLettingAgentFound,
    /// The pallet has not enough funds.
    NotEnoughFunds,
    /// Error during converting types.
    ConversionError,
    /// The property management refused a change.
    PropertyManagement(pm::Error),
}

/// The constants of the governance. Thresholds are in whole percent.
#[derive(Clone, Copy, Debug, PartialEq, Eq, Structural)]
pub struct GovConfig {
    /// The account of the governance, which pays executed proposals.
    pub pallet_account: AccountId,
    /// The blocks a voting lasts.
    pub voting_time: BlockNumber,
    /// The most votings that may end in one block.
    pub max_votes_for_block: u32,
    /// What a letting agent loses when a challenge against it passes.
    pub min_slashing_amount: Balance,
    /// The most votes a voting takes.
    pub max_voter: u32,
    /// The share of votes a voting must exceed.
    pub threshold: u8,
    /// The share of votes a voting on a high proposal must exceed.
    pub high_threshold: u8,
    /// Proposals up to this amount are executed at once.
    pub low_proposal: Balance,
    /// Proposals from this amount on need the high threshold.
    pub high_proposal: Balance,
    /// The factor between a proposal's amount and what is paid out.
    pub polkadot_js_multiplier: Balance,
}

/// The storage of the governance, read as mathematical maps. Votings on a
/// challenge are kept per round, under `round_key`; the vote of an account
/// under `voter_key`.
pub struct GovState {
    pub config: GovConfig,
    pub proposal_count: u32,
    pub challenge_count: u32,
    pub proposals: Map<ProposalIndex, ProposalView>,
    pub challenges: Map<ChallengeIndex, Challenge>,
    pub ongoing_votes: Map<ProposalIndex, VoteStats>,
    pub proposal_voter: Map<ProposalIndex, Seq<AccountId>>,
    pub user_proposal_vote: Map<u128, Vote>,
    pub ongoing_challenge_votes: Map<u128, VoteStats>,
    pub challenge_voter: Map<u128, Seq<AccountId>>,
    pub user_challenge_vote: Map<u128, Vote>,
    pub proposal_rounds_expiring: Map<BlockNumber, Seq<ProposalIndex>>,
    pub challenge_rounds_expiring: Map<BlockNumber, Seq<ChallengeIndex>>,
    pub events: Seq<Event>,
}

/// The number of a challenge round.
pub open spec fn round_number(state: ChallengeState) -> u64 {
    match state {
        ChallengeState::First => 0,
        ChallengeState::Second => 1,
        ChallengeState::Third => 2,
        ChallengeState::Fourth => 3,
    }
}

/// The key of one round of a challenge.
pub open spec fn round_key(challenge: ChallengeIndex, state: ChallengeState) -> u128 {
    spec_pair_key(challenge as u64, round_number(state))
}

/// The key of the vote of `who` in a voting.
pub open spec fn voter_key(index: u32, who: AccountId) -> u128 {
    spec_pair_key(index as u64, who)
}

/// The key of one round of a challenge.
pub fn challenge_round_key(challenge: ChallengeIndex, state: ChallengeState) -> (k: u128)
    ensures
        k == round_key(challenge, state),
{
    let n: u64 = match state {
        ChallengeState::First => 0,
        ChallengeState::Second => 1,
        ChallengeState::Third => 2,
        ChallengeState::Fourth => 3,
    };
    pair_key(challenge as u64, n)
}

/// No votes cast yet.
pub open spec fn no_votes() -> VoteStats {
    VoteStats { yes_voting_power: 0, no_voting_power: 0 }
}

/// `a + b`, held at `u32::MAX`.
pub open spec fn add_held(a: u32, b: u32) -> u32 {
    if a + b > u32::MAX {
        u32::MAX
    } else {
        (a + b) as u32
    }
}

/// `a - b`, held at zero.
pub open spec fn sub_held(a: u32, b: u32) -> u32 {
    if a < b {
        0
    } else {
        (a - b) as u32
    }
}

/// `a + b`, held at `u64::MAX`.
pub open spec fn add_held_u64(a: u64, b: u64) -> u64 {
    if a + b > u64::MAX {
        u64::MAX
    } else {
        (a + b) as u64
    }
}

/// `a * b`, held at `u128::MAX`.
pub open spec fn mul_held(a: u128, b: u128) -> u128 {
    if a * b > u128::MAX {
        u128::MAX
    } else {
        (a * b) as u128
    }
}

/// The tally after a voter with `power` casts `vote`: its previous vote,
/// if any, is withdrawn first. Each count is held within the range of `u32`.
pub open spec fn tally(stats: VoteStats, previous: Option<Vote>, vote: Vote, power: u32) -> VoteStats {
    let withdrawn = match previous {
        Some(Vote::Yes) => VoteStats {
            yes_voting_power: sub_held(stats.yes_voting_power, power),
            ..stats
        },
        Some(Vote::No) => VoteStats {
            no_voting_power: sub_held(stats.no_voting_power, power),
            ..stats
        },
        None => stats,
    };
    match vote {
        Vote::Yes => VoteStats {
            yes_voting_power: add_held(withdrawn.yes_voting_power, power),
            ..withdrawn
        },
        Vote::No => VoteStats {
            no_voting_power: add_held(withdrawn.no_voting_power, power),
            ..withdrawn
        },
    }
}

/// Whether a voting with `yes` and `no` percent of the tokens passes a
/// threshold of `required` percent: more yes than no, and more votes than
/// the threshold (the sum held at one hundred percent).
pub open spec fn voting_passes(yes: u8, no: u8, required: u8) -> bool {
    &&& yes > no
    &&& required < (if yes + no > 100 {
        100
    } else {
        yes + no
    })
}

/// A voter changing its mind: voting again replaces the earlier vote, as
/// long as no count reached the end of its range.
pub proof fn law_revote_replaces(stats: VoteStats, first: Vote, second: Vote, power: u32)
    requires
        stats.yes_voting_power + power <= u32::MAX,
        stats.no_voting_power + power <= u32::MAX,
    ensures
        tally(tally(stats, None, first, power), Some(first), second, power) == tally(
            stats,
            None,
            second,
            power,
        ),
{
}

impl GovState {
    /// The proposals whose voting ends in `block`.
    pub open spec fn proposal_list(self, block: BlockNumber) -> Seq<ProposalIndex> {
        get_or(self.proposal_rounds_expiring, block, Seq::empty())
    }

    /// The challenges whose round ends in `block`.
    pub open spec fn challenge_list(self, block: BlockNumber) -> Seq<ChallengeIndex> {
        get_or(self.challenge_rounds_expiring, block, Seq::empty())
    }

    /// The voters on a proposal.
    pub open spec fn proposal_voters(self, proposal: ProposalIndex) -> Seq<AccountId> {
        get_or(self.proposal_voter, proposal, Seq::empty())
    }

    /// The voters in a round of a challenge.
    pub open spec fn challenge_voters(self, key: u128) -> Seq<AccountId> {
        get_or(self.challenge_voter, key, Seq::empty())
    }

    /// The storage after `challenge` is queued to end a round in `block`;
    /// a full block takes nothing.
    pub open spec fn queue_challenge(self, block: BlockNumber, challenge: ChallengeIndex) -> GovState {
        if self.challenge_list(block).len() < self.config.max_votes_for_block {
            GovState {
                challenge_rounds_expiring: self.challenge_rounds_expiring.insert(
                    block,
                    self.challenge_list(block).push(challenge),
                ),
                ..self
            }
        } else {
            self
        }
    }
}

/// The storage of the governance and of what it drives: the property
/// management and the native currency.
pub struct World {
    pub gov: GovState,
    pub pm: PmState,
    pub ledger: LedgerState,
}

/// The property governance: proposals of letting agents and challenges of
/// owners against them, decided by the owners' votes.
pub struct Pallet {
    config: GovConfig,
    proposal_count: u32,
    challenge_count: u32,
    proposals: HashMap<ProposalIndex, Proposal>,
    challenges: HashMap<ChallengeIndex, Challenge>,
    ongoing_votes: HashMap<ProposalIndex, VoteStats>,
    proposal_voter: HashMap<ProposalIndex, Vec<AccountId>>,
    user_proposal_vote: HashMap<u128, Vote>,
    ongoing_challenge_votes: HashMap<u128, VoteStats>,
    challenge_voter: HashMap<u128, Vec<AccountId>>,
    user_challenge_vote: HashMap<u128, Vote>,
    proposal_rounds_expiring: HashMap<BlockNumber, Vec<ProposalIndex>>,
    challenge_rounds_expiring: HashMap<BlockNumber, Vec<ChallengeIndex>>,
    events: Vec<Event>,
}

impl View for Pallet {
    type V = GovState;

    closed spec fn view(&self) -> GovState {
        GovState {
            config: self.config,
            proposal_count: self.proposal_count,
            challenge_count: self.challenge_count,
            proposals: view_map(self.proposals@),
            challenges: self.challenges@,
            ongoing_votes: self.ongoing_votes@,
            proposal_voter: seq_map(self.proposal_voter@),
            user_proposal_vote: self.user_proposal_vote@,
            ongoing_challenge_votes: self.ongoing_challenge_votes@,
            challenge_voter: seq_map(self.challenge_voter@),
            user_challenge_vote: self.user_challenge_vote@,
            proposal_rounds_expiring: seq_map(self.proposal_rounds_expiring@),
            challenge_rounds_expiring: seq_map(self.challenge_rounds_expiring@),
            events: self.events@,
        }
    }
}

/// The tally after a voter with `power` casts `vote`, its previous vote
/// withdrawn first.
pub fn count_vote(stats: VoteStats, previous: Option<Vote>, vote: Vote, power: u32) -> (r: VoteStats)
    ensures
        r == tally(stats, previous, vote, power),
{
    let mut s = stats;
    match previous {
        Some(Vote::Yes) => {
            s.yes_voting_power = if s.yes_voting_power < power {
                0
            } else {
                s.yes_voting_power - power
            };
        },
        Some(Vote::No) => {
            s.no_voting_power = if s.no_voting_power < power {
                0
            } else {
                s.no_voting_power - power
            };
        },
        None => {},
    }
    match vote {
        Vote::Yes => {
            s.yes_voting_power = s.yes_voting_power.saturating_add(power);
        },
        Vote::No => {
            s.no_voting_power = s.no_voting_power.saturating_add(power);
        },
    }
    s
}

/// Whether a voting passes a threshold; see `voting_passes`.
pub fn passes(yes: u8, no: u8, required: u8) -> (r: bool)
    ensures
        r == voting_passes(yes, no, required),
{
    let sum: u8 = if yes as u16 + no as u16 > 100 {
        100
    } else {
        yes + no
    };
    yes > no && required < sum
}

/// `a * b`, held at `u128::MAX`.
pub fn saturating_mul_balance(a: Balance, b: Balance) -> (r: Balance)
    ensures
        r == mul_held(a, b),
{
    match a.checked_mul(b) {
        Some(v) => v,
        None => u128::MAX,
    }
}

/// Appends `item` to the list under `key` unless it holds `max` items
/// already; answers whether it did.
fn push_bounded_u64(m: &mut HashMap<u64, Vec<u32>>, key: u64, item: u32, max: u32) -> (pushed: bool)
    ensures
        pushed == (get_or(seq_map(old(m)@), key, Seq::empty()).len() < max),
        pushed ==> seq_map(final(m)@) == seq_map(old(m)@).insert(
            key,
            get_or(seq_map(old(m)@), key, Seq::empty()).push(item),
        ),
        !pushed ==> final(m)@ == old(m)@,
{
    let mut list = match m.get(&key) {
        Some(v) => v.clone(),
        None => Vec::new(),
    };
    assert(list@ == get_or(seq_map(old(m)@), key, Seq::<u32>::empty()));
    if list.len() as u64 >= max as u64 {
        return false;
    }
    list.push(item);
    m.insert(key, list);
    proof {
        lemma_seq_map_insert(old(m)@, key, list);
    }
    true
}

/// Appends `who` to the voters under `key` unless there are `max` of them
/// already; answers whether it did.
fn push_voter_u32(m: &mut HashMap<u32, Vec<AccountId>>, key: u32, who: AccountId, max: u32) -> (pushed:
    bool)
    ensures
        pushed == (get_or(seq_map(old(m)@), key, Seq::empty()).len() < max),
        pushed ==> seq_map(final(m)@) == seq_map(old(m)@).insert(
            key,
            get_or(seq_map(old(m)@), key, Seq::empty()).push(who),
        ),
        !pushed ==> final(m)@ == old(m)@,
{
    let mut list = match m.get(&key) {
        Some(v) => v.clone(),
        None => Vec::new(),
    };
    assert(list@ == get_or(seq_map(old(m)@), key, Seq::<AccountId>::empty()));
    if list.len() as u64 >= max as u64 {
        return false;
    }
    list.push(who);
    m.insert(key, list);
    proof {
        lemma_seq_map_insert(old(m)@, key, list);
    }
    true
}

/// Appends `who` to the voters under `key` unless there are `max` of them
/// already; answers whether it did.
fn push_voter_u128(m: &mut HashMap<u128, Vec<AccountId>>, key: u128, who: AccountId, max: u32) -> (pushed:
    bool)
    ensures
        pushed == (get_or(seq_map(old(m)@), key, Seq::empty()).len() < max),
        pushed ==> seq_map(final(m)@) == seq_map(old(m)@).insert(
            key,
            get_or(seq_map(old(m)@), key, Seq::empty()).push(who),
        ),
        !pushed ==> final(m)@ == old(m)@,
{
    let mut list = match m.get(&key) {
        Some(v) => v.clone(),
        None => Vec::new(),
    };
    assert(list@ == get_or(seq_map(old(m)@), key, Seq::<AccountId>::empty()));
    if list.len() as u64 >= max as u64 {
        return false;
    }
    list.push(who);
    m.insert(key, list);
    proof {
        lemma_seq_map_insert(old(m)@, key, list);
    }
    true
}

impl Pallet {
    /// A governance with empty storage.
    pub fn new(config: GovConfig) -> (p: Pallet)
        ensures
            p@ == (GovState {
                config,
                proposal_count: 0,
                challenge_count: 0,
                proposals: Map::empty(),
                challenges: Map::empty(),
                ongoing_votes: Map::empty(),
                proposal_voter: Map::empty(),
                user_proposal_vote: Map::empty(),
                ongoing_challenge_votes: Map::empty(),
                challenge_voter: Map::empty(),
                user_challenge_vote: Map::empty(),
                proposal_rounds_expiring: Map::empty(),
                challenge_rounds_expiring: Map::empty(),
                events: Seq::empty(),
            }),
    {
        let p = Pallet {
            config,
            proposal_count: 0,
            challenge_count: 0,
            proposals: HashMap::new(),
            challenges: HashMap::new(),
            ongoing_votes: HashMap::new(),
            proposal_voter: HashMap::new(),
            user_proposal_vote: HashMap::new(),
            ongoing_challenge_votes: HashMap::new(),
            challenge_voter: HashMap::new(),
            user_challenge_vote: HashMap::new(),
            proposal_rounds_expiring: HashMap::new(),
            challenge_rounds_expiring: HashMap::new(),
            events: Vec::new(),
        };
        assert(view_map(p.proposals@) =~= Map::empty());
        assert(seq_map(p.proposal_voter@) =~= Map::empty());
        assert(seq_map(p.challenge_voter@) =~= Map::empty());
        assert(seq_map(p.proposal_rounds_expiring@) =~= Map::empty());
        assert(seq_map(p.challenge_rounds_expiring@) =~= Map::empty());
        p
    }

    /// The account of the governance.
    pub fn account_id(&self) -> (r: AccountId)
        ensures
            r == self@.config.pallet_account,
    {
        self.config.pallet_account
    }
}


/// What executing a proposal of `amount` for property `asset` answers.
/// The property's reserve pays as much as it can, times the multiplier,
/// to the letting agent; what it cannot pay becomes a debt of the property.
pub open spec fn execute_outcome(w: World, asset: u32, amount: Balance) -> Result<(), Error> {
    let cfg = w.gov.config;
    let reserves = w.pm.reserve_of(asset);
    if !w.pm.letting_storage.contains_key(asset) {
        Err(Error::NoLettingAgentFound)
    } else if reserves > u64::MAX {
        Err(Error::ConversionError)
    } else {
        let agent = w.pm.letting_storage[asset];
        if reserves >= amount {
            if w.ledger.transfer_outcome(
                cfg.pallet_account,
                agent,
                mul_held(amount, cfg.polkadot_js_multiplier),
                true,
            ) is Err {
                Err(Error::NotEnoughFunds)
            } else {
                Ok(())
            }
        } else if w.ledger.transfer_outcome(
            cfg.pallet_account,
            agent,
            mul_held(reserves, cfg.polkadot_js_multiplier),
            true,
        ) is Err {
            Err(Error::NotEnoughFunds)
        } else if amount - reserves > u64::MAX {
            Err(Error::ConversionError)
        } else if w.pm.debts_of(asset) + (amount - reserves) > u128::MAX {
            Err(Error::PropertyManagement(pm::Error::ArithmeticOverflow))
        } else {
            Ok(())
        }
    }
}

/// The storage after executing a proposal of `amount` for property `asset`,
/// whatever the outcome: where the reserve cannot pay all, the payment of
/// the reserve stands even when recording the debt fails.
pub open spec fn after_execute(w: World, asset: u32, amount: Balance) -> World {
    let cfg = w.gov.config;
    let reserves = w.pm.reserve_of(asset);
    let executed = GovState {
        events: w.gov.events.push(Event::ProposalExecuted { asset_id: asset, amount }),
        ..w.gov
    };
    if !w.pm.letting_storage.contains_key(asset) || reserves > u64::MAX {
        w
    } else {
        let agent = w.pm.letting_storage[asset];
        if reserves >= amount {
            let pay = mul_held(amount, cfg.polkadot_js_multiplier);
            if w.ledger.transfer_outcome(cfg.pallet_account, agent, pay, true) is Err {
                w
            } else {
                World {
                    gov: executed,
                    pm: PmState {
                        property_reserve: w.pm.property_reserve.insert(
                            asset,
                            (reserves - amount) as Balance,
                        ),
                        ..w.pm
                    },
                    ledger: w.ledger.after_transfer(cfg.pallet_account, agent, pay),
                }
            }
        } else {
            let pay = mul_held(reserves, cfg.polkadot_js_multiplier);
            let remaining = amount - reserves;
            if w.ledger.transfer_outcome(cfg.pallet_account, agent, pay, true) is Err {
                w
            } else if remaining > u64::MAX || w.pm.debts_of(asset) + remaining > u128::MAX {
                World { ledger: w.ledger.after_transfer(cfg.pallet_account, agent, pay), ..w }
            } else {
                World {
                    gov: executed,
                    pm: PmState {
                        property_debts: w.pm.property_debts.insert(
                            asset,
                            (w.pm.debts_of(asset) + remaining) as Balance,
                        ),
                        property_reserve: w.pm.property_reserve.insert(asset, 0),
                        ..w.pm
                    },
                    ledger: w.ledger.after_transfer(cfg.pallet_account, agent, pay),
                }
            }
        }
    }
}

impl Pallet {
    /// What executing a proposal would answer.
    fn check_execute(&self, pm: &pm::Pallet, ledger: &Ledger, asset_id: u32, amount: Balance) -> (r:
        Result<(), Error>)
        ensures
            r == execute_outcome(World { gov: self@, pm: pm@, ledger: ledger@ }, asset_id, amount),
    {
        let agent = match pm.letting_storage(asset_id) {
            Some(a) => a,
            None => {
                return Err(Error::NoLettingAgentFound);
            },
        };
        let reserves = pm.property_reserve(asset_id);
        if reserves > u64::MAX as u128 {
            return Err(Error::ConversionError);
        }
        let mult = self.config.polkadot_js_multiplier;
        if reserves >= amount {
            if ledger.check_transfer(
                self.config.pallet_account,
                agent,
                saturating_mul_balance(amount, mult),
                true,
            ).is_err() {
                return Err(Error::NotEnoughFunds);
            }
            Ok(())
        } else {
            if ledger.check_transfer(
                self.config.pallet_account,
                agent,
                saturating_mul_balance(reserves, mult),
                true,
            ).is_err() {
                return Err(Error::NotEnoughFunds);
            }
            let remaining = amount - reserves;
            if remaining > u64::MAX as u128 {
                return Err(Error::ConversionError);
            }
            if pm.property_debts(asset_id) > u128::MAX - remaining {
                return Err(Error::PropertyManagement(pm::Error::ArithmeticOverflow));
            }
            Ok(())
        }
    }

    /// Executes a proposal once it passes: the reserve of the property pays
    /// the letting agent as much as it covers, and the rest becomes a debt.
    fn execute_proposal(
        &mut self,
        pm: &mut pm::Pallet,
        ledger: &mut Ledger,
        asset_id: u32,
        amount: Balance,
    ) -> (r: Result<(), Error>)
        requires
            old(pm)@.wf(),
        ensures
            final(pm)@.wf(),
            r == execute_outcome(World { gov: old(self)@, pm: old(pm)@, ledger: old(ledger)@ }, asset_id, amount),
            (World { gov: final(self)@, pm: final(pm)@, ledger: final(ledger)@ }) == after_execute(
                World { gov: old(self)@, pm: old(pm)@, ledger: old(ledger)@ },
                asset_id,
                amount,
            ),
    {
        let agent = match pm.letting_storage(asset_id) {
            Some(a) => a,
            None => {
                return Err(Error::NoLettingAgentFound);
            },
        };
        let reserves = pm.property_reserve(asset_id);
        if reserves > u64::MAX as u128 {
            return Err(Error::ConversionError);
        }
        let mult = self.config.polkadot_js_multiplier;
        if reserves >= amount {
            match ledger.transfer(
                self.config.pallet_account,
                agent,
                saturating_mul_balance(amount, mult),
                true,
            ) {
                Ok(()) => {},
                Err(_) => {
                    return Err(Error::NotEnoughFunds);
                },
            }
            match pm.decrease_reserves(asset_id, amount) {
                Ok(()) => {},
                Err(e) => {
                    return Err(Error::PropertyManagement(e));
                },
            }
        } else {
            match ledger.transfer(
                self.config.pallet_account,
                agent,
                saturating_mul_balance(reserves, mult),
                true,
            ) {
                Ok(()) => {},
                Err(_) => {
                    return Err(Error::NotEnoughFunds);
                },
            }
            let remaining = amount - reserves;
            if remaining > u64::MAX as u128 {
                return Err(Error::ConversionError);
            }
            match pm.increase_debts(asset_id, remaining) {
                Ok(()) => {},
                Err(e) => {
                    return Err(Error::PropertyManagement(e));
                },
            }
            match pm.decrease_reserves(asset_id, reserves) {
                Ok(()) => {},
                Err(e) => {
                    return Err(Error::PropertyManagement(e));
                },
            }
        }
        self.events.push(Event::ProposalExecuted { asset_id, amount });
        Ok(())
    }
}

impl Pallet {
    /// What `propose` answers.
    pub open spec fn propose_outcome(
        w: World,
        origin: Origin,
        asset_id: u32,
        amount: Balance,
        now: BlockNumber,
    ) -> Result<(), Error> {
        let cfg = w.gov.config;
        match origin {
            Origin::Root => Err(Error::BadOrigin),
            Origin::Signed(who) => if !w.pm.letting_storage.contains_key(asset_id) {
                Err(Error::NoLettingAgentFound)
            } else if w.pm.letting_storage[asset_id] != who {
                Err(Error::NoPermission)
            } else if mul_held(amount, cfg.polkadot_js_multiplier) <= cfg.low_proposal {
                execute_outcome(w, asset_id, amount)
            } else if w.gov.proposal_list(add_held_u64(now, cfg.voting_time)).len()
                >= cfg.max_votes_for_block {
                Err(Error::TooManyProposals)
            } else {
                Ok(())
            },
        }
    }

    /// The letting agent of a property proposes to spend `amount` for it.
    /// A low proposal is executed at once; any other is put to the vote of
    /// the owners until `now` plus the voting time.
    pub fn propose(
        &mut self,
        pm: &mut pm::Pallet,
        ledger: &mut Ledger,
        origin: Origin,
        asset_id: u32,
        amount: Balance,
        data: Vec<u8>,
        now: BlockNumber,
    ) -> (r: Result<(), Error>)
        requires
            old(pm)@.wf(),
        ensures
            final(pm)@.wf(),
            r == Self::propose_outcome(
                World { gov: old(self)@, pm: old(pm)@, ledger: old(ledger)@ },
                origin,
                asset_id,
                amount,
                now,
            ),
            r is Err ==> final(self)@ == old(self)@ && final(pm)@ == old(pm)@ && final(ledger)@ == old(
                ledger,
            )@,
            r is Ok ==> {
                let w = World { gov: old(self)@, pm: old(pm)@, ledger: old(ledger)@ };
                let cfg = w.gov.config;
                let who = origin->Signed_0;
                let id = add_held(w.gov.proposal_count, 1);
                let expiry = add_held_u64(now, cfg.voting_time);
                if mul_held(amount, cfg.polkadot_js_multiplier) <= cfg.low_proposal {
                    (World { gov: final(self)@, pm: final(pm)@, ledger: final(ledger)@ })
                        == after_execute(w, asset_id, amount)
                } else {
                    &&& final(pm)@ == old(pm)@
                    &&& final(ledger)@ == old(ledger)@
                    &&& final(self)@ == (GovState {
                        proposals: w.gov.proposals.insert(
                            id,
                            ProposalView {
                                proposer: who,
                                asset_id,
                                amount,
                                created_at: now,
                                proposal_info: data@,
                            },
                        ),
                        ongoing_votes: w.gov.ongoing_votes.insert(id, no_votes()),
                        proposal_count: id,
                        proposal_rounds_expiring: w.gov.proposal_rounds_expiring.insert(
                            expiry,
                            w.gov.proposal_list(expiry).push(id),
                        ),
                        events: w.gov.events.push(
                            Event::Proposed { proposal_id: id, asset_id, proposer: who },
                        ),
                        ..w.gov
                    })
                }
            },
    {
        let who = match ensure_signed(origin) {
            Some(a) => a,
            None => {
                return Err(Error::BadOrigin);
            },
        };
        match pm.letting_storage(asset_id) {
            Some(agent) => {
                if agent != who {
                    return Err(Error::NoPermission);
                }
            },
            None => {
                return Err(Error::NoLettingAgentFound);
            },
        }
        let cfg = self.config;
        if saturating_mul_balance(amount, cfg.polkadot_js_multiplier) <= cfg.low_proposal {
            match self.check_execute(pm, ledger, asset_id, amount) {
                Ok(()) => {},
                Err(e) => {
                    return Err(e);
                },
            }
            return self.execute_proposal(pm, ledger, asset_id, amount);
        }
        let proposal_id = self.proposal_count.saturating_add(1);
        let expiry = now.saturating_add(cfg.voting_time);
        let ghost g = self@;
        if !push_bounded_u64(&mut self.proposal_rounds_expiring, expiry, proposal_id, cfg.max_votes_for_block) {
            return Err(Error::TooManyProposals);
        }
        let proposal = Proposal { proposer: who, asset_id, amount, created_at: now, proposal_info: data };
        let ghost pv = proposal@;
        self.proposals.insert(proposal_id, proposal);
        self.ongoing_votes.insert(proposal_id, VoteStats { yes_voting_power: 0, no_voting_power: 0 });
        self.proposal_count = proposal_id;
        self.events.push(Event::Proposed { proposal_id, asset_id, proposer: who });
        proof {
            assert(view_map(self.proposals@) =~= g.proposals.insert(proposal_id, pv));
        }
        Ok(())
    }

    /// What `challenge_against_letting_agent` answers.
    pub open spec fn challenge_outcome(
        s: GovState,
        pm: PmState,
        market: MarketState,
        origin: Origin,
        asset_id: u32,
        now: BlockNumber,
    ) -> Result<(), Error> {
        match origin {
            Origin::Root => Err(Error::BadOrigin),
            Origin::Signed(who) => if !market.owners(asset_id).contains(who) {
                Err(Error::NoPermission)
            } else if !pm.letting_storage.contains_key(asset_id) {
                Err(Error::NoLettingAgentFound)
            } else if s.challenge_list(add_held_u64(now, s.config.voting_time)).len()
                >= s.config.max_votes_for_block {
                Err(Error::TooManyProposals)
            } else {
                Ok(())
            },
        }
    }

    /// An owner of a property challenges its letting agent; the owners vote
    /// on the challenge until `now` plus the voting time.
    pub fn challenge_against_letting_agent(
        &mut self,
        pm: &pm::Pallet,
        market: &marketplace::Pallet,
        origin: Origin,
        asset_id: u32,
        now: BlockNumber,
    ) -> (r: Result<(), Error>)
        ensures
            r == Self::challenge_outcome(old(self)@, pm@, market@, origin, asset_id, now),
            r is Err ==> final(self)@ == old(self)@,
            r is Ok ==> {
                let s = old(self)@;
                let who = origin->Signed_0;
                let id = add_held(s.challenge_count, 1);
                let expiry = add_held_u64(now, s.config.voting_time);
                final(self)@ == (GovState {
                    challenges: s.challenges.insert(
                        id,
                        Challenge {
                            proposer: who,
                            asset_id,
                            created_at: now,
                            state: ChallengeState::First,
                        },
                    ),
                    ongoing_challenge_votes: s.ongoing_challenge_votes.insert(
                        round_key(id, ChallengeState::First),
                        no_votes(),
                    ),
                    challenge_count: id,
                    challenge_rounds_expiring: s.challenge_rounds_expiring.insert(
                        expiry,
                        s.challenge_list(expiry).push(id),
                    ),
                    events: s.events.push(
                        Event::Challenge { challenge_id: id, asset_id, proposer: who },
                    ),
                    ..s
                })
            },
    {
        let who = match ensure_signed(origin) {
            Some(a) => a,
            None => {
                return Err(Error::BadOrigin);
            },
        };
        let owners = market.property_owner(asset_id);
        if !vec_contains(&owners, who) {
            return Err(Error::NoPermission);
        }
        if pm.letting_storage(asset_id).is_none() {
            return Err(Error::NoLettingAgentFound);
        }
        let challenge_id = self.challenge_count.saturating_add(1);
        let expiry = now.saturating_add(self.config.voting_time);
        let challenge = Challenge {
            proposer: who,
            asset_id,
            created_at: now,
            state: ChallengeState::First,
        };
        if !push_bounded_u64(
            &mut self.challenge_rounds_expiring,
            expiry,
            challenge_id,
            self.config.max_votes_for_block,
        ) {
            return Err(Error::TooManyProposals);
        }
        self.ongoing_challenge_votes.insert(
            challenge_round_key(challenge_id, ChallengeState::First),
            VoteStats { yes_voting_power: 0, no_voting_power: 0 },
        );
        self.challenges.insert(challenge_id, challenge);
        self.challenge_count = challenge_id;
        self.events.push(Event::Challenge { challenge_id, asset_id, proposer: who });
        Ok(())
    }

    /// What `vote_on_proposal` answers.
    pub open spec fn vote_on_proposal_outcome(
        s: GovState,
        market: MarketState,
        origin: Origin,
        proposal_id: ProposalIndex,
    ) -> Result<(), Error> {
        match origin {
            Origin::Root => Err(Error::BadOrigin),
            Origin::Signed(who) => if !s.proposals.contains_key(proposal_id) {
                Err(Error::NotOngoing)
            } else if !market.owners(s.proposals[proposal_id].asset_id).contains(who) {
                Err(Error::NoPermission)
            } else if !s.ongoing_votes.contains_key(proposal_id) {
                Err(Error::NotOngoing)
            } else if s.proposal_voters(proposal_id).len() >= s.config.max_voter {
                Err(Error::TooManyVotes)
            } else {
                Ok(())
            },
        }
    }

    /// An owner of the property votes on a proposal with the tokens it
    /// holds; a vote it cast before is withdrawn first.
    pub fn vote_on_proposal(
        &mut self,
        market: &marketplace::Pallet,
        origin: Origin,
        proposal_id: ProposalIndex,
        vote: Vote,
    ) -> (r: Result<(), Error>)
        ensures
            r == Self::vote_on_proposal_outcome(old(self)@, market@, origin, proposal_id),
            r is Err ==> final(self)@ == old(self)@,
            r is Ok ==> {
                let s = old(self)@;
                let who = origin->Signed_0;
                let key = voter_key(proposal_id, who);
                let power = market@.owner_tokens(s.proposals[proposal_id].asset_id, who);
                let previous = if s.user_proposal_vote.contains_key(key) {
                    Some(s.user_proposal_vote[key])
                } else {
                    None
                };
                final(self)@ == (GovState {
                    ongoing_votes: s.ongoing_votes.insert(
                        proposal_id,
                        tally(s.ongoing_votes[proposal_id], previous, vote, power),
                    ),
                    proposal_voter: s.proposal_voter.insert(
                        proposal_id,
                        s.proposal_voters(proposal_id).push(who),
                    ),
                    user_proposal_vote: s.user_proposal_vote.insert(key, vote),
                    events: s.events.push(Event::VotedOnProposal { proposal_id, voter: who, vote }),
                    ..s
                })
            },
    {
        let who = match ensure_signed(origin) {
            Some(a) => a,
            None => {
                return Err(Error::BadOrigin);
            },
        };
        let asset_id = match self.proposals.get(&proposal_id) {
            Some(p) => p.asset_id,
            None => {
                return Err(Error::NotOngoing);
            },
        };
        let owners = market.property_owner(asset_id);
        if !vec_contains(&owners, who) {
            return Err(Error::NoPermission);
        }
        let power = market.property_owner_token(asset_id, who);
        let current = match self.ongoing_votes.get(&proposal_id) {
            Some(v) => *v,
            None => {
                return Err(Error::NotOngoing);
            },
        };
        let key = pair_key(proposal_id as u64, who);
        let previous = match self.user_proposal_vote.get(&key) {
            Some(v) => Some(*v),
            None => None,
        };
        let updated = count_vote(current, previous, vote, power);
        if !push_voter_u32(&mut self.proposal_voter, proposal_id, who, self.config.max_voter) {
            return Err(Error::TooManyVotes);
        }
        self.ongoing_votes.insert(proposal_id, updated);
        self.user_proposal_vote.insert(key, vote);
        self.events.push(Event::VotedOnProposal { proposal_id, voter: who, vote });
        Ok(())
    }

    /// What `vote_on_letting_agent_challenge` answers.
    pub open spec fn vote_on_challenge_outcome(
        s: GovState,
        market: MarketState,
        origin: Origin,
        challenge_id: ChallengeIndex,
    ) -> Result<(), Error> {
        match origin {
            Origin::Root => Err(Error::BadOrigin),
            Origin::Signed(who) => if !s.challenges.contains_key(challenge_id) {
                Err(Error::NotOngoing)
            } else {
                let c = s.challenges[challenge_id];
                let round = round_key(challenge_id, c.state);
                if !market.owners(c.asset_id).contains(who) {
                    Err(Error::NoPermission)
                } else if !s.ongoing_challenge_votes.contains_key(round) {
                    Err(Error::NotOngoing)
                } else if s.challenge_voters(round).len() >= s.config.max_voter {
                    Err(Error::TooManyVotes)
                } else {
                    Ok(())
                }
            },
        }
    }

    /// An owner of the property votes in the current round of a challenge
    /// with the tokens it holds; a vote it cast on the challenge before is
    /// withdrawn first.
    pub fn vote_on_letting_agent_challenge(
        &mut self,
        market: &marketplace::Pallet,
        origin: Origin,
        challenge_id: ChallengeIndex,
        vote: Vote,
    ) -> (r: Result<(), Error>)
        ensures
            r == Self::vote_on_challenge_outcome(old(self)@, market@, origin, challenge_id),
            r is Err ==> final(self)@ == old(self)@,
            r is Ok ==> {
                let s = old(self)@;
                let who = origin->Signed_0;
                let c = s.challenges[challenge_id];
                let round = round_key(challenge_id, c.state);
                let key = voter_key(challenge_id, who);
                let power = market@.owner_tokens(c.asset_id, who);
                let previous = if s.user_challenge_vote.contains_key(key) {
                    Some(s.user_challenge_vote[key])
                } else {
                    None
                };
                final(self)@ == (GovState {
                    ongoing_challenge_votes: s.ongoing_challenge_votes.insert(
                        round,
                        tally(s.ongoing_challenge_votes[round], previous, vote, power),
                    ),
                    challenge_voter: s.challenge_voter.insert(round, s.challenge_voters(round).push(who)),
                    user_challenge_vote: s.user_challenge_vote.insert(key, vote),
                    events: s.events.push(Event::VotedOnChallenge { challenge_id, voter: who, vote }),
                    ..s
                })
            },
    {
        let who = match ensure_signed(origin) {
            Some(a) => a,
            None => {
                return Err(Error::BadOrigin);
            },
        };
        let challenge = match self.challenges.get(&challenge_id) {
            Some(c) => *c,
            None => {
                return Err(Error::NotOngoing);
            },
        };
        let owners = market.property_owner(challenge.asset_id);
        if !vec_contains(&owners, who) {
            return Err(Error::NoPermission);
        }
        let power = market.property_owner_token(challenge.asset_id, who);
        let round = challenge_round_key(challenge_id, challenge.state);
        let current = match self.ongoing_challenge_votes.get(&round) {
            Some(v) => *v,
            None => {
                return Err(Error::NotOngoing);
            },
        };
        let key = pair_key(challenge_id as u64, who);
        let previous = match self.user_challenge_vote.get(&key) {
            Some(v) => Some(*v),
            None => None,
        };
        let updated = count_vote(current, previous, vote, power);
        if !push_voter_u128(&mut self.challenge_voter, round, who, self.config.max_voter) {
            return Err(Error::TooManyVotes);
        }
        self.ongoing_challenge_votes.insert(round, updated);
        self.user_challenge_vote.insert(key, vote);
        self.events.push(Event::VotedOnChallenge { challenge_id, voter: who, vote });
        Ok(())
    }
}

/// What slashing the letting agent challenged by `challenge` answers.
pub open spec fn slash_outcome(w: World, challenge: ChallengeIndex, now: BlockNumber) -> Result<(), Error> {
    let g = w.gov;
    if !g.challenges.contains_key(challenge) {
        Err(Error::NotOngoing)
    } else if !w.pm.letting_storage.contains_key(g.challenges[challenge].asset_id) {
        Err(Error::NoLettingAgentFound)
    } else if g.challenge_list(add_held_u64(now, g.config.voting_time)).len()
        >= g.config.max_votes_for_block {
        Err(Error::TooManyProposals)
    } else {
        Ok(())
    }
}

/// The storage after slashing the letting agent challenged by `challenge`,
/// whatever the outcome: the agent loses up to the slashing amount of its
/// reserve and the challenge moves on to a vote on replacing the agent.
pub open spec fn after_slash(w: World, challenge: ChallengeIndex, now: BlockNumber) -> World {
    let g = w.gov;
    if !g.challenges.contains_key(challenge) {
        w
    } else {
        let c = g.challenges[challenge];
        if !w.pm.letting_storage.contains_key(c.asset_id) {
            World { gov: GovState { challenges: g.challenges.remove(challenge), ..g }, ..w }
        } else {
            let agent = w.pm.letting_storage[c.asset_id];
            let amount = g.config.min_slashing_amount;
            let expiry = add_held_u64(now, g.config.voting_time);
            let fourth = GovState {
                ongoing_challenge_votes: g.ongoing_challenge_votes.insert(
                    round_key(challenge, ChallengeState::Fourth),
                    no_votes(),
                ),
                challenges: g.challenges.insert(
                    challenge,
                    Challenge { state: ChallengeState::Fourth, ..c },
                ),
                ..g
            };
            let queued = fourth.queue_challenge(expiry, challenge);
            World {
                gov: if fourth.challenge_list(expiry).len() < g.config.max_votes_for_block {
                    GovState {
                        events: queued.events.push(
                            Event::AgentSlashed { challenge_id: challenge, amount },
                        ),
                        ..queued
                    }
                } else {
                    fourth
                },
                ledger: w.ledger.after_slash_reserved(agent, amount),
                pm: w.pm,
            }
        }
    }
}

/// What replacing the letting agent challenged by `challenge` answers.
pub open spec fn change_outcome(g: GovState, pm: PmState, market: MarketState, challenge: ChallengeIndex) -> Result<
    (),
    Error,
> {
    if !g.challenges.contains_key(challenge) {
        Err(Error::NotOngoing)
    } else if !pm.letting_storage.contains_key(g.challenges[challenge].asset_id) {
        Err(Error::NoLettingAgentFound)
    } else if !market.asset_id_details.contains_key(g.challenges[challenge].asset_id) {
        Err(Error::NoAssetFound)
    } else {
        Ok(())
    }
}

/// The governance and property management after replacing the letting
/// agent challenged by `challenge`, whatever the outcome: the challenge
/// ends, the agent leaves the agents of the property's region and the
/// property gets the agent chosen among the rest.
pub open spec fn changed(g: GovState, pm: PmState, market: MarketState, challenge: ChallengeIndex) -> (
    GovState,
    PmState,
) {
    if !g.challenges.contains_key(challenge) {
        (g, pm)
    } else {
        let c = g.challenges[challenge];
        let taken = GovState { challenges: g.challenges.remove(challenge), ..g };
        if !pm.letting_storage.contains_key(c.asset_id) || !market.asset_id_details.contains_key(
            c.asset_id,
        ) {
            (taken, pm)
        } else {
            let agent = pm.letting_storage[c.asset_id];
            let region = market.asset_id_details[c.asset_id].region;
            (
                GovState {
                    events: taken.events.push(
                        Event::AgentChanged { challenge_id: challenge, asset_id: c.asset_id },
                    ),
                    ..taken
                },
                pm.after_remove_agent(region, agent).after_select_attempt(region, c.asset_id),
            )
        }
    }
}

/// The storage after replacing the letting agent challenged by `challenge`.
pub open spec fn after_change(w: World, market: MarketState, challenge: ChallengeIndex) -> World {
    let (g, pm) = changed(w.gov, w.pm, market, challenge);
    World { gov: g, pm, ledger: w.ledger }
}

impl Pallet {
    /// Slashes the letting agent challenged by `challenge` and opens the
    /// vote on replacing it, to end at `now` plus the voting time.
    fn slash_letting_agent(
        &mut self,
        pm: &pm::Pallet,
        ledger: &mut Ledger,
        challenge_id: ChallengeIndex,
        now: BlockNumber,
    ) -> (r: Result<(), Error>)
        ensures
            r == slash_outcome(World { gov: old(self)@, pm: pm@, ledger: old(ledger)@ }, challenge_id, now),
            (World { gov: final(self)@, pm: pm@, ledger: final(ledger)@ }) == after_slash(
                World { gov: old(self)@, pm: pm@, ledger: old(ledger)@ },
                challenge_id,
                now,
            ),
    {
        let challenge = match self.challenges.remove(&challenge_id) {
            Some(c) => c,
            None => {
                proof {
                    assert(self.challenges@ =~= old(self).challenges@);
                }
                return Err(Error::NotOngoing);
            },
        };
        let agent = match pm.letting_storage(challenge.asset_id) {
            Some(a) => a,
            None => {
                return Err(Error::NoLettingAgentFound);
            },
        };
        let amount = self.config.min_slashing_amount;
        let _ = ledger.slash_reserved(agent, amount);
        let fourth = Challenge { state: ChallengeState::Fourth, ..challenge };
        self.ongoing_challenge_votes.insert(
            challenge_round_key(challenge_id, ChallengeState::Fourth),
            VoteStats { yes_voting_power: 0, no_voting_power: 0 },
        );
        self.challenges.insert(challenge_id, fourth);
        proof {
            assert(old(self)@.challenges.remove(challenge_id).insert(challenge_id, fourth)
                =~= old(self)@.challenges.insert(challenge_id, fourth));
        }
        let expiry = now.saturating_add(self.config.voting_time);
        if !push_bounded_u64(
            &mut self.challenge_rounds_expiring,
            expiry,
            challenge_id,
            self.config.max_votes_for_block,
        ) {
            return Err(Error::TooManyProposals);
        }
        self.events.push(Event::AgentSlashed { challenge_id, amount });
        Ok(())
    }

    /// Replaces the letting agent challenged by `challenge`.
    fn change_letting_agent(
        &mut self,
        pm: &mut pm::Pallet,
        market: &marketplace::Pallet,
        challenge_id: ChallengeIndex,
    ) -> (r: Result<(), Error>)
        requires
            old(pm)@.wf(),
        ensures
            final(pm)@.wf(),
            r == change_outcome(old(self)@, old(pm)@, market@, challenge_id),
            (final(self)@, final(pm)@) == changed(old(self)@, old(pm)@, market@, challenge_id),
    {
        let challenge = match self.challenges.remove(&challenge_id) {
            Some(c) => c,
            None => {
                proof {
                    assert(self.challenges@ =~= old(self).challenges@);
                }
                return Err(Error::NotOngoing);
            },
        };
        let agent = match pm.letting_storage(challenge.asset_id) {
            Some(a) => a,
            None => {
                return Err(Error::NoLettingAgentFound);
            },
        };
        let region = match market.asset_id_details(challenge.asset_id) {
            Some(d) => d.region,
            None => {
                return Err(Error::NoAssetFound);
            },
        };
        let _ = pm.remove_bad_letting_agent(region, agent);
        let ghost pm1 = pm@;
        assert(pm1 == old(pm)@.after_remove_agent(region, agent));
        let _ = pm.selects_letting_agent(region, challenge.asset_id);
        assert(pm@ == pm1.after_select_attempt(region, challenge.asset_id));
        self.events.push(Event::AgentChanged { challenge_id, asset_id: challenge.asset_id });
        proof {
            let (g2, p2) = changed(old(self)@, old(pm)@, market@, challenge_id);
            assert(p2 == pm@);
            assert(g2 == self@);
        }
        Ok(())
    }
}

/// The storage after the voting on proposal `item` ends: a passing
/// proposal is executed, any other is rejected; either way it is gone.
pub open spec fn proposal_step(w: World, market: MarketState, item: ProposalIndex) -> World {
    let g = w.gov;
    let cleared = World {
        gov: GovState {
            ongoing_votes: g.ongoing_votes.remove(item),
            proposals: g.proposals.remove(item),
            ..g
        },
        ..w
    };
    if !g.proposals.contains_key(item) || !g.ongoing_votes.contains_key(item) {
        cleared
    } else {
        let p = g.proposals[item];
        let votes = g.ongoing_votes[item];
        let required = if p.amount >= g.config.high_proposal {
            g.config.high_threshold
        } else {
            g.config.threshold
        };
        if !market.asset_id_details.contains_key(p.asset_id) {
            cleared
        } else {
            let tokens = market.asset_id_details[p.asset_id].token_amount;
            let yes = percent_of(votes.yes_voting_power, tokens);
            let no = percent_of(votes.no_voting_power, tokens);
            if voting_passes(yes, no, required) {
                after_execute(cleared, p.asset_id, p.amount)
            } else {
                let event = if yes <= no {
                    Event::ProposalRejected { proposal_id: item }
                } else {
                    Event::ProposalThresHoldNotReached { proposal_id: item, required_threshold: required }
                };
                World { gov: GovState { events: cleared.gov.events.push(event), ..cleared.gov }, ..cleared }
            }
        }
    }
}

/// The storage after a round of challenge `item` ends at block `now`: a
/// waiting round opens the vote on slashing; a passing first vote starts
/// the waiting round, a passing vote on slashing slashes the agent, a
/// passing vote on replacing replaces it; a failing vote ends the challenge.
pub open spec fn challenge_step(w: World, market: MarketState, item: ChallengeIndex, now: BlockNumber) -> World {
    let g = w.gov;
    if !g.challenges.contains_key(item) {
        w
    } else {
        let c = g.challenges[item];
        let expiry = add_held_u64(now, g.config.voting_time);
        if c.state == ChallengeState::Second {
            World {
                gov: GovState {
                    ongoing_challenge_votes: g.ongoing_challenge_votes.insert(
                        round_key(item, ChallengeState::Third),
                        no_votes(),
                    ),
                    challenges: g.challenges.insert(item, Challenge { state: ChallengeState::Third, ..c }),
                    ..g
                }.queue_challenge(expiry, item),
                ..w
            }
        } else {
            let round = round_key(item, c.state);
            let cleared = World {
                gov: GovState { ongoing_challenge_votes: g.ongoing_challenge_votes.remove(round), ..g },
                ..w
            };
            if !g.ongoing_challenge_votes.contains_key(round) || !market.asset_id_details.contains_key(
                c.asset_id,
            ) {
                cleared
            } else {
                let votes = g.ongoing_challenge_votes[round];
                let tokens = market.asset_id_details[c.asset_id].token_amount;
                let yes = percent_of(votes.yes_voting_power, tokens);
                let no = percent_of(votes.no_voting_power, tokens);
                let required = g.config.threshold;
                if voting_passes(yes, no, required) {
                    if c.state == ChallengeState::First {
                        World {
                            gov: GovState {
                                challenges: cleared.gov.challenges.insert(
                                    item,
                                    Challenge { state: ChallengeState::Second, ..c },
                                ),
                                ..cleared.gov
                            }.queue_challenge(expiry, item),
                            ..w
                        }
                    } else if c.state == ChallengeState::Third {
                        after_slash(cleared, item, now)
                    } else {
                        after_change(cleared, market, item)
                    }
                } else {
                    let event = if yes <= no {
                        Event::ChallengeRejected { challenge_id: item, challenge_state: c.state }
                    } else {
                        Event::ChallengeThresHoldNotReached {
                            challenge_id: item,
                            required_threshold: required,
                            challenge_state: c.state,
                        }
                    };
                    World {
                        gov: GovState {
                            challenges: cleared.gov.challenges.remove(item),
                            events: cleared.gov.events.push(event),
                            ..cleared.gov
                        },
                        ..w
                    }
                }
            }
        }
    }
}

/// The storage after the votings on `items` end, in order.
pub open spec fn proposals_fold(w: World, market: MarketState, items: Seq<ProposalIndex>) -> World
    decreases items.len(),
{
    if items.len() == 0 {
        w
    } else {
        proposal_step(proposals_fold(w, market, items.drop_last()), market, items.last())
    }
}

/// The storage after the rounds of `items` end at block `now`, in order.
pub open spec fn challenges_fold(
    w: World,
    market: MarketState,
    items: Seq<ChallengeIndex>,
    now: BlockNumber,
) -> World
    decreases items.len(),
{
    if items.len() == 0 {
        w
    } else {
        challenge_step(challenges_fold(w, market, items.drop_last(), now), market, items.last(), now)
    }
}

/// The weight of the block hook that ends `k` votings: one read and one
/// write, and as many again per voting.
pub open spec fn hook_weight(db: RuntimeDbWeight, k: nat) -> Weight
    decreases k,
{
    if k == 0 {
        db_reads_writes(db, 1, 1)
    } else {
        add_weights(hook_weight(db, (k - 1) as nat), db_reads_writes(db, 1, 1))
    }
}

/// The storage after the block hook of block `n`: first every proposal
/// voting ending in `n` is decided, then every challenge round.
pub open spec fn after_block(w: World, market: MarketState, n: BlockNumber) -> World {
    let w1 = World {
        gov: GovState {
            proposal_rounds_expiring: w.gov.proposal_rounds_expiring.remove(n),
            ..w.gov
        },
        ..w
    };
    let w2 = proposals_fold(w1, market, w.gov.proposal_list(n));
    let w3 = World {
        gov: GovState {
            challenge_rounds_expiring: w2.gov.challenge_rounds_expiring.remove(n),
            ..w2.gov
        },
        ..w2
    };
    challenges_fold(w3, market, w2.gov.challenge_list(n), n)
}

impl Pallet {
    /// Decides the proposal `item` whose voting ended.
    fn process_proposal(
        &mut self,
        pm: &mut pm::Pallet,
        ledger: &mut Ledger,
        market: &marketplace::Pallet,
        item: ProposalIndex,
    )
        requires
            old(pm)@.wf(),
        ensures
            final(pm)@.wf(),
            (World { gov: final(self)@, pm: final(pm)@, ledger: final(ledger)@ }) == proposal_step(
                World { gov: old(self)@, pm: old(pm)@, ledger: old(ledger)@ },
                market@,
                item,
            ),
    {
        let votes = self.ongoing_votes.remove(&item);
        let proposal = self.proposals.remove(&item);
        proof {
            assert(view_map(self.proposals@) =~= old(self)@.proposals.remove(item));
            assert(self.ongoing_votes@ =~= old(self)@.ongoing_votes.remove(item));
        }
        let (p, v) = match (proposal, votes) {
            (Some(p), Some(v)) => (p, v),
            _ => {
                return;
            },
        };
        let required = if p.amount >= self.config.high_proposal {
            self.config.high_threshold
        } else {
            self.config.threshold
        };
        let tokens = match market.asset_id_details(p.asset_id) {
            Some(d) => d.token_amount,
            None => {
                return;
            },
        };
        let yes = percent_from_rational(v.yes_voting_power, tokens);
        let no = percent_from_rational(v.no_voting_power, tokens);
        if passes(yes, no, required) {
            let _ = self.execute_proposal(pm, ledger, p.asset_id, p.amount);
        } else if yes <= no {
            self.events.push(Event::ProposalRejected { proposal_id: item });
        } else {
            self.events.push(
                Event::ProposalThresHoldNotReached { proposal_id: item, required_threshold: required },
            );
        }
    }

    /// Ends the current round of challenge `item` at block `now`.
    fn process_challenge(
        &mut self,
        pm: &mut pm::Pallet,
        ledger: &mut Ledger,
        market: &marketplace::Pallet,
        item: ChallengeIndex,
        now: BlockNumber,
    )
        requires
            old(pm)@.wf(),
        ensures
            final(pm)@.wf(),
            (World { gov: final(self)@, pm: final(pm)@, ledger: final(ledger)@ }) == challenge_step(
                World { gov: old(self)@, pm: old(pm)@, ledger: old(ledger)@ },
                market@,
                item,
                now,
            ),
    {
        let c = match self.challenges.get(&item) {
            Some(c) => *c,
            None => {
                return;
            },
        };
        let expiry = now.saturating_add(self.config.voting_time);
        let max = self.config.max_votes_for_block;
        if c.state == ChallengeState::Second {
            self.ongoing_challenge_votes.insert(
                challenge_round_key(item, ChallengeState::Third),
                VoteStats { yes_voting_power: 0, no_voting_power: 0 },
            );
            self.challenges.insert(item, Challenge { state: ChallengeState::Third, ..c });
            let _ = push_bounded_u64(&mut self.challenge_rounds_expiring, expiry, item, max);
            return;
        }
        let round = challenge_round_key(item, c.state);
        let votes = self.ongoing_challenge_votes.remove(&round);
        proof {
            assert(self.ongoing_challenge_votes@ =~= old(self)@.ongoing_challenge_votes.remove(round));
        }
        let v = match votes {
            Some(v) => v,
            None => {
                return;
            },
        };
        let tokens = match market.asset_id_details(c.asset_id) {
            Some(d) => d.token_amount,
            None => {
                return;
            },
        };
        let yes = percent_from_rational(v.yes_voting_power, tokens);
        let no = percent_from_rational(v.no_voting_power, tokens);
        let required = self.config.threshold;
        if passes(yes, no, required) {
            match c.state {
                ChallengeState::First => {
                    self.challenges.insert(item, Challenge { state: ChallengeState::Second, ..c });
                    let _ = push_bounded_u64(&mut self.challenge_rounds_expiring, expiry, item, max);
                },
                ChallengeState::Third => {
                    let _ = self.slash_letting_agent(pm, ledger, item, now);
                },
                ChallengeState::Fourth => {
                    let _ = self.change_letting_agent(pm, market, item);
                },
                ChallengeState::Second => {},
            }
        } else {
            self.challenges.remove(&item);
            if yes <= no {
                self.events.push(Event::ChallengeRejected { challenge_id: item, challenge_state: c.state });
            } else {
                self.events.push(
                    Event::ChallengeThresHoldNotReached {
                        challenge_id: item,
                        required_threshold: required,
                        challenge_state: c.state,
                    },
                );
            }
        }
    }

    /// The block hook of block `n`: decides every proposal whose voting ends
    /// in `n`, then ends every challenge round that ends in `n`. Answers the
    /// weight of the work done.
    pub fn on_initialize(
        &mut self,
        pm: &mut pm::Pallet,
        ledger: &mut Ledger,
        market: &marketplace::Pallet,
        db: RuntimeDbWeight,
        n: BlockNumber,
    ) -> (weight: Weight)
        requires
            old(pm)@.wf(),
        ensures
            final(pm)@.wf(),
            (World { gov: final(self)@, pm: final(pm)@, ledger: final(ledger)@ }) == after_block(
                World { gov: old(self)@, pm: old(pm)@, ledger: old(ledger)@ },
                market@,
                n,
            ),
            weight == hook_weight(
                db,
                old(self)@.proposal_list(n).len() + proposals_fold(
                    World {
                        gov: GovState {
                            proposal_rounds_expiring: old(self)@.proposal_rounds_expiring.remove(n),
                            ..old(self)@
                        },
                        pm: old(pm)@,
                        ledger: old(ledger)@,
                    },
                    market@,
                    old(self)@.proposal_list(n),
                ).gov.challenge_list(n).len(),
            ),
    {
        let ghost w0 = World { gov: self@, pm: pm@, ledger: ledger@ };
        let mut weight = db.reads_writes(1, 1);
        let ended = match self.proposal_rounds_expiring.remove(&n) {
            Some(v) => v,
            None => Vec::new(),
        };
        proof {
            lemma_seq_map_remove(old(self).proposal_rounds_expiring@, n);
        }
        let ghost items = ended@;
        assert(items == w0.gov.proposal_list(n));
        let ghost w1 = World { gov: self@, pm: pm@, ledger: ledger@ };
        let mut i: usize = 0;
        assert(items.take(0) =~= Seq::<ProposalIndex>::empty());
        while i < ended.len()
            invariant
                i <= ended.len(),
                ended@ == items,
                pm@.wf(),
                (World { gov: self@, pm: pm@, ledger: ledger@ }) == proposals_fold(
                    w1,
                    market@,
                    items.take(i as int),
                ),
                weight == hook_weight(db, i as nat),
            decreases ended.len() - i,
        {
            weight = weight.saturating_add(db.reads_writes(1, 1));
            self.process_proposal(pm, ledger, market, ended[i]);
            proof {
                assert(items.take(i as int + 1).drop_last() =~= items.take(i as int));
            }
            i = i + 1;
        }
        assert(items.take(i as int) =~= items);
        let ghost w2 = World { gov: self@, pm: pm@, ledger: ledger@ };
        let ghost before = self.challenge_rounds_expiring@;
        let ended_challenges = match self.challenge_rounds_expiring.remove(&n) {
            Some(v) => v,
            None => Vec::new(),
        };
        proof {
            lemma_seq_map_remove(before, n);
        }
        let ghost citems = ended_challenges@;
        assert(citems == w2.gov.challenge_list(n));
        let ghost w3 = World { gov: self@, pm: pm@, ledger: ledger@ };
        let mut k: usize = 0;
        assert(citems.take(0) =~= Seq::<ChallengeIndex>::empty());
        while k < ended_challenges.len()
            invariant
                k <= ended_challenges.len(),
                ended_challenges@ == citems,
                pm@.wf(),
                (World { gov: self@, pm: pm@, ledger: ledger@ }) == challenges_fold(
                    w3,
                    market@,
                    citems.take(k as int),
                    n,
                ),
                weight == hook_weight(db, (items.len() + k) as nat),
            decreases ended_challenges.len() - k,
        {
            weight = weight.saturating_add(db.reads_writes(1, 1));
            self.process_challenge(pm, ledger, market, ended_challenges[k], n);
            proof {
                assert(citems.take(k as int + 1).drop_last() =~= citems.take(k as int));
            }
            k = k + 1;
        }
        assert(citems.take(k as int) =~= citems);
        weight
    }
}

impl Pallet {
    /// The number of proposals queued for a vote.
    pub fn proposal_count(&self) -> (r: u32)
        ensures
            r == self@.proposal_count,
    {
        self.proposal_count
    }

    /// The number of challenges made.
    pub fn challenge_count(&self) -> (r: u32)
        ensures
            r == self@.challenge_count,
    {
        self.challenge_count
    }

    /// A proposal under vote.
    pub fn proposals(&self, proposal_id: ProposalIndex) -> (r: Option<&Proposal>)
        ensures
            match r {
                Some(p) => self@.proposals.contains_key(proposal_id) && p@ == self@.proposals[proposal_id],
                None => !self@.proposals.contains_key(proposal_id),
            },
    {
        self.proposals.get(&proposal_id)
    }

    /// A challenge.
    pub fn challenges(&self, challenge_id: ChallengeIndex) -> (r: Option<Challenge>)
        ensures
            r == (if self@.challenges.contains_key(challenge_id) {
                Some(self@.challenges[challenge_id])
            } else {
                None::<Challenge>
            }),
    {
        match self.challenges.get(&challenge_id) {
            Some(c) => Some(*c),
            None => None,
        }
    }

    /// The tally of a proposal under vote.
    pub fn ongoing_votes(&self, proposal_id: ProposalIndex) -> (r: Option<VoteStats>)
        ensures
            r == (if self@.ongoing_votes.contains_key(proposal_id) {
                Some(self@.ongoing_votes[proposal_id])
            } else {
                None::<VoteStats>
            }),
    {
        match self.ongoing_votes.get(&proposal_id) {
            Some(v) => Some(*v),
            None => None,
        }
    }

    /// The tally of a round of a challenge.
    pub fn ongoing_challenge_votes(&self, challenge_id: ChallengeIndex, state: ChallengeState) -> (r: Option<
        VoteStats,
    >)
        ensures
            r == (if self@.ongoing_challenge_votes.contains_key(round_key(challenge_id, state)) {
                Some(self@.ongoing_challenge_votes[round_key(challenge_id, state)])
            } else {
                None::<VoteStats>
            }),
    {
        match self.ongoing_challenge_votes.get(&challenge_round_key(challenge_id, state)) {
            Some(v) => Some(*v),
            None => None,
        }
    }

    /// The vote of `who` on a proposal.
    pub fn user_proposal_vote(&self, proposal_id: ProposalIndex, who: AccountId) -> (r: Option<Vote>)
        ensures
            r == (if self@.user_proposal_vote.contains_key(voter_key(proposal_id, who)) {
                Some(self@.user_proposal_vote[voter_key(proposal_id, who)])
            } else {
                None::<Vote>
            }),
    {
        match self.user_proposal_vote.get(&pair_key(proposal_id as u64, who)) {
            Some(v) => Some(*v),
            None => None,
        }
    }

    /// The proposals whose voting ends in `block`.
    pub fn proposal_rounds_expiring(&self, block: BlockNumber) -> (r: Vec<ProposalIndex>)
        ensures
            r@ == self@.proposal_list(block),
    {
        match self.proposal_rounds_expiring.get(&block) {
            Some(v) => v.clone(),
            None => Vec::new(),
        }
    }

    /// The challenges whose round ends in `block`.
    pub fn challenge_rounds_expiring(&self, block: BlockNumber) -> (r: Vec<ChallengeIndex>)
        ensures
            r@ == self@.challenge_list(block),
    {
        match self.challenge_rounds_expiring.get(&block) {
            Some(v) => v.clone(),
            None => Vec::new(),
        }
    }

    /// The events deposited so far, oldest first.
    pub fn events(&self) -> (r: &Vec<Event>)
        ensures
            r@ == self@.events,
    {
        &self.events
    }
}
/// Deciding a proposal closes it: the proposal and its tally are gone.
proof fn lemma_proposal_step_closes(w: World, market: MarketState, item: ProposalIndex)
    ensures
        proposal_step(w, market, item).gov.proposals == w.gov.proposals.remove(item),
        proposal_step(w, market, item).gov.ongoing_votes == w.gov.ongoing_votes.remove(item),
{
}

/// Deciding the proposals `items` closes exactly them.
proof fn lemma_proposals_fold_closes(w: World, market: MarketState, items: Seq<ProposalIndex>)
    ensures
        forall|i: ProposalIndex|
            #[trigger] proposals_fold(w, market, items).gov.proposals.contains_key(i) <==> (
            w.gov.proposals.contains_key(i) && !items.contains(i)),
        forall|i: ProposalIndex|
            #[trigger] proposals_fold(w, market, items).gov.ongoing_votes.contains_key(i) <==> (
            w.gov.ongoing_votes.contains_key(i) && !items.contains(i)),
    decreases items.len(),
{
    if items.len() > 0 {
        let rest = items.drop_last();
        lemma_proposals_fold_closes(w, market, rest);
        lemma_proposal_step_closes(proposals_fold(w, market, rest), market, items.last());
        assert forall|i: ProposalIndex| items.contains(i) <==> (rest.contains(i) || i == items.last()) by {
            if items.contains(i) {
                let k = choose|k: int| 0 <= k < items.len() && items[k] == i;
                if k < items.len() - 1 {
                    assert(rest[k] == i);
                }
            }
            if rest.contains(i) {
                let k = choose|k: int| 0 <= k < rest.len() && rest[k] == i;
                assert(items[k] == i);
            }
            if i == items.last() {
                assert(items[items.len() - 1] == i);
            }
        }
    }
}

/// Ending challenge rounds leaves the proposals and their tallies alone.
proof fn lemma_challenges_fold_keeps_proposals(
    w: World,
    market: MarketState,
    items: Seq<ChallengeIndex>,
    now: BlockNumber,
)
    ensures
        challenges_fold(w, market, items, now).gov.proposals == w.gov.proposals,
        challenges_fold(w, market, items, now).gov.ongoing_votes == w.gov.ongoing_votes,
    decreases items.len(),
{
    if items.len() > 0 {
        lemma_challenges_fold_keeps_proposals(w, market, items.drop_last(), now);
    }
}

/// The block hook of block `n` decides every proposal whose voting ends in
/// `n`: none of them is open after it, nor is its tally, and no other
/// proposal is opened or closed.
pub proof fn law_block_hook_closes_ended_proposals(w: World, market: MarketState, n: BlockNumber)
    ensures
        forall|i: ProposalIndex|
            #[trigger] after_block(w, market, n).gov.proposals.contains_key(i) <==> (
            w.gov.proposals.contains_key(i) && !w.gov.proposal_list(n).contains(i)),
        forall|i: ProposalIndex|
            #[trigger] after_block(w, market, n).gov.ongoing_votes.contains_key(i) <==> (
            w.gov.ongoing_votes.contains_key(i) && !w.gov.proposal_list(n).contains(i)),
{
    let w1 = World {
        gov: GovState {
            proposal_rounds_expiring: w.gov.proposal_rounds_expiring.remove(n),
            ..w.gov
        },
        ..w
    };
    let items = w.gov.proposal_list(n);
    lemma_proposals_fold_closes(w1, market, items);
    let w2 = proposals_fold(w1, market, items);
    let w3 = World {
        gov: GovState {
            challenge_rounds_expiring: w2.gov.challenge_rounds_expiring.remove(n),
            ..w2.gov
        },
        ..w2
    };
    lemma_challenges_fold_keeps_proposals(w3, market, w2.gov.challenge_list(n), n);
}
} // verus!
