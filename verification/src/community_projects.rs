use std::collections::HashMap;
use vstd::prelude::*;

use crate::assets::{Assets, AssetsState};
use crate::weights::{add_weights, db_reads_writes, RuntimeDbWeight, Weight};
use crate::common::{
    ensure_signed, get_or, lemma_pair_key_injective, lemma_seq_map_insert, lemma_seq_map_remove,
    pair_key, seq_map, spec_pair_key, vec_contains, AccountId, Balance, BlockNumber, Origin,
};
use crate::marketplace::PAYMENT_ASSET;
use crate::nfts::{item_key, CollectionId, ItemId, Nfts, NftsError, NftsState};

verus! {

broadcast use vstd::std_specs::hash::group_hash_axioms;


/// The sum of the prices of the kinds of NFTs, one of each kind.
pub open spec fn types_price_sum(types: Seq<NftDonationTypes>) -> int
    decreases types.len(),
{
    if types.len() == 0 {
        0
    } else {
        types_price_sum(types.drop_last()) + types.last().price
    }
}

/// `types_price_sum`, held at `u128::MAX`.
fn types_price_total(types: &Vec<NftDonationTypes>) -> (r: Balance)
    ensures
        r == (if types_price_sum(types@) > u128::MAX {
            u128::MAX as int
        } else {
            types_price_sum(types@)
        }),
{
    let mut total: Balance = 0;
    let mut i: usize = 0;
    while i < types.len()
        invariant
            i <= types.len(),
            total == (if types_price_sum(types@.take(i as int)) > u128::MAX {
                u128::MAX as int
            } else {
                types_price_sum(types@.take(i as int))
            }),
            types_price_sum(types@.take(i as int)) >= 0,
        decreases types.len() - i,
    {
        assert(types@.take(i as int + 1).drop_last() =~= types@.take(i as int));
        assert(types@.take(i as int + 1).last() == types@[i as int]);
        total = total.saturating_add(types[i].price);
        i = i + 1;
    }
    assert(types@.take(i as int) =~= types@);
    total
}

/// A community project, funded by selling its NFTs and paid out milestone
/// by milestone.
#[derive(Clone, Copy, Debug, PartialEq, Eq, Structural)]
pub struct ProjectDetails {
    pub project_owner: AccountId,
    pub project_price: Balance,
    pub duration: u32,
    pub milestones: u32,
    pub remaining_milestones: u32,
    pub project_balance: Balance,
    pub launching_timestamp: BlockNumber,
    pub strikes: u8,
}

/// An NFT of a project for sale.
#[derive(Clone, Copy, Debug, PartialEq, Eq, Structural)]
pub struct NftDetails {
    pub project_owner: AccountId,
    pub price: Balance,
    pub collection_id: CollectionId,
    pub item_id: ItemId,
}

/// A kind of NFT of a project: its price and how many there are.
#[derive(Clone, Copy, Debug, PartialEq, Eq, Structural)]
pub struct NftDonationTypes {
    pub price: Balance,
    pub amount: u32,
}

/// The account id of a pallet.
#[derive(Clone, Copy, Debug, PartialEq, Eq, Structural)]
pub struct PalletIdStorage {
    pub pallet_id: AccountId,
}

/// A vote on a milestone.
#[derive(Clone, Copy, Debug, PartialEq, Eq, Structural)]
pub enum Vote {
    Yes,
    No,
}

/// The voting power cast each way on a milestone.
#[derive(Clone, Copy, Debug, PartialEq, Eq, Structural)]
pub struct VoteStats {
    pub yes_votes: u64,
    pub no_votes: u64,
}

/// Events of the community projects.
#[derive(Clone, Copy, Debug, PartialEq, Eq, Structural)]
pub enum Event {
    /// A new object has been listed on the marketplace.
    ProjectListed { collection_index: CollectionId, seller: AccountId },
    /// A nft has been bought.
    NftBought { collection_index: CollectionId, item_index: ItemId, buyer: AccountId, price: Balance },
    /// Voted on a milestone.
    VotedOnMilestone { collection_index: CollectionId, voter: AccountId, vote: Vote },
    /// A project has been sold out.
    ProjectLaunched { collection_index: CollectionId },
    /// A Voting period has started.
    VotingPeriodStarted { collection_index: CollectionId },
    /// Funds has been send to the project
    FundsDestributed { collection_index: CollectionId, owner: AccountId, amount: Balance },
    /// A Milestone period has started.
    MilestonePeriodStarted { collection_id: CollectionId },
    /// The project has been deleted.
    ProjectDeleted { collection_id: CollectionId },
}

/// Why a call of the community projects was refused.
#[derive(Clone, Copy, Debug, PartialEq, Eq, Structural)]
pub enum Error {
    /// The origin may not make this call.
    BadOrigin,
    /// Max amount of listed Nfts reached.
    TooManyListedNfts,
    /// Too many nfts for this collection.
    TooManyNfts,
    /// The Nft has not been found.
    NftNotFound,
    /// This index is not taken.
    InvalidIndex,
    /// The buyer doesn't have enough funds.
    NotEnoughFunds,
    UnknownCollection,
    ConversionError,
    TooManyProjects,
    AlreadyVoted,
    TooManyVoters,
    InsufficientPermission,
    NoOngoingVotingPeriod,
    /// The NFT prices cannot reach the price of the project.
    PriceCannotBeReached,
    /// An NFT operation was refused.
    Nfts(NftsError),
}

/// The constants of the community projects.
#[derive(Clone, Copy, Debug, PartialEq, Eq, Structural)]
pub struct CpConfig {
    /// The account of the pallet, which holds the NFTs for sale and the
    /// funds raised.
    pub pallet_account: AccountId,
    /// The most NFTs listed at a time.
    pub max_listed_nfts: u32,
    /// The most NFTs of one project listed at a time.
    pub max_nft_in_collection: u32,
    /// The most projects whose period ends in one block.
    pub max_ongoing_projects: u32,
    /// The most holders of a project's NFTs, and the most voters.
    pub max_nft_holder: u32,
}

/// The storage of the community projects, read as mathematical maps. NFTs
/// are keyed by `item_key`, voting power by `power_key`.
pub struct CpState {
    pub config: CpConfig,
    pub listed_nfts: Seq<(CollectionId, ItemId)>,
    pub ongoing_nft_details: Map<u128, NftDetails>,
    pub ongoing_projects: Map<CollectionId, ProjectDetails>,
    pub listed_nfts_of_collection: Map<CollectionId, Seq<ItemId>>,
    pub milestone_period_expiring: Map<BlockNumber, Seq<CollectionId>>,
    pub voting_period_expiring: Map<BlockNumber, Seq<CollectionId>>,
    pub ongoing_votes: Map<CollectionId, VoteStats>,
    pub voted_user: Map<CollectionId, Seq<AccountId>>,
    pub nft_holder: Map<CollectionId, Seq<AccountId>>,
    pub voting_power: Map<u128, u64>,
    pub events: Seq<Event>,
}

/// The key of the voting power of `who` in a project.
pub open spec fn power_key(c: CollectionId, who: AccountId) -> u128 {
    spec_pair_key(c as u64, who)
}

impl CpState {
    /// The NFTs of a project that are still listed.
    pub open spec fn collection_list(self, c: CollectionId) -> Seq<ItemId> {
        get_or(self.listed_nfts_of_collection, c, Seq::empty())
    }

    /// The projects whose milestone period ends in `block`.
    pub open spec fn milestone_list(self, block: BlockNumber) -> Seq<CollectionId> {
        get_or(self.milestone_period_expiring, block, Seq::empty())
    }

    /// The projects whose voting ends in `block`.
    pub open spec fn voting_list(self, block: BlockNumber) -> Seq<CollectionId> {
        get_or(self.voting_period_expiring, block, Seq::empty())
    }

    /// The holders of a project's NFTs.
    pub open spec fn holders(self, c: CollectionId) -> Seq<AccountId> {
        get_or(self.nft_holder, c, Seq::empty())
    }

    /// Who voted on the current milestone of a project.
    pub open spec fn voters(self, c: CollectionId) -> Seq<AccountId> {
        get_or(self.voted_user, c, Seq::empty())
    }

    /// The voting power of `who` in a project.
    pub open spec fn power_of(self, c: CollectionId, who: AccountId) -> u64 {
        get_or(self.voting_power, power_key(c, who), 0)
    }
}

/// The free places of a list that holds `len` of at most `max` entries.
pub open spec fn room(max: u32, len: nat) -> int {
    if len >= max {
        0
    } else {
        max - len
    }
}

/// The price of each NFT of a project, in order: the NFTs of each type in
/// turn, as many as the type has.
pub open spec fn unit_prices(types: Seq<NftDonationTypes>) -> Seq<Balance>
    decreases types.len(),
{
    if types.len() == 0 {
        Seq::empty()
    } else {
        unit_prices(types.drop_last()) + Seq::new(
            types.last().amount as nat,
            |j: int| types.last().price,
        )
    }
}

/// The prices of the types before `t` start the prices of all types.
proof fn lemma_unit_prices_prefix(types: Seq<NftDonationTypes>, t: int)
    requires
        0 <= t <= types.len(),
    ensures
        unit_prices(types.take(t)).len() <= unit_prices(types).len(),
        unit_prices(types.take(t)) == unit_prices(types).take(unit_prices(types.take(t)).len() as int),
    decreases types.len() - t,
{
    if t == types.len() {
        assert(types.take(t) =~= types);
        assert(unit_prices(types).take(unit_prices(types).len() as int) =~= unit_prices(types));
    } else {
        lemma_unit_prices_prefix(types, t + 1);
        assert(types.take(t + 1).drop_last() =~= types.take(t));
        let a = unit_prices(types.take(t));
        let b = unit_prices(types.take(t + 1));
        let all = unit_prices(types);
        assert(b == a + Seq::new(types[t].amount as nat, |j: int| types[t].price));
        assert(a =~= all.take(a.len() as int)) by {
            assert forall|k: int| 0 <= k < a.len() implies a[k] == all[k] by {
                assert(b[k] == a[k]);
                assert(all.take(b.len() as int)[k] == all[k]);
            }
        }
    }
}

/// What listing NFT number `k` of a new project in collection `c` meets:
/// an item already there, or no room in the listed NFTs (`ca` free places)
/// or in the project's list (`cb` free places).
pub open spec fn item_error(nfts: NftsState, c: CollectionId, ca: int, cb: int, k: int) -> Option<Error> {
    if nfts.items.contains_key(item_key(c, k as u32)) {
        Some(Error::Nfts(NftsError::AlreadyExists))
    } else if k >= ca {
        Some(Error::TooManyListedNfts)
    } else if k >= cb {
        Some(Error::TooManyNfts)
    } else {
        None
    }
}

/// The error of the first of the first `n` NFTs that meets one.
pub open spec fn first_item_error(nfts: NftsState, c: CollectionId, ca: int, cb: int, n: nat) -> Option<
    Error,
>
    decreases n,
{
    if n == 0 {
        None
    } else {
        match first_item_error(nfts, c, ca, cb, (n - 1) as nat) {
            Some(e) => Some(e),
            None => item_error(nfts, c, ca, cb, n - 1),
        }
    }
}

/// An error among the first NFTs is the first error among more of them.
proof fn lemma_first_item_error_stays(nfts: NftsState, c: CollectionId, ca: int, cb: int, k: nat, n: nat)
    requires
        k <= n,
        first_item_error(nfts, c, ca, cb, k) is Some,
    ensures
        first_item_error(nfts, c, ca, cb, n) == first_item_error(nfts, c, ca, cb, k),
    decreases n - k,
{
    if k < n {
        lemma_first_item_error_stays(nfts, c, ca, cb, k, (n - 1) as nat);
    }
}

/// A map with `v` stored under the first `n` items of collection `c`.
pub open spec fn minted<V>(m: Map<u128, V>, c: CollectionId, n: nat, v: V) -> Map<u128, V>
    decreases n,
{
    if n == 0 {
        m
    } else {
        minted(m, c, (n - 1) as nat, v).insert(item_key(c, (n - 1) as u32), v)
    }
}

/// The NFT details with item `j` of collection `c` listed by `owner` at
/// `prices[j]`.
pub open spec fn detailed(
    m: Map<u128, NftDetails>,
    c: CollectionId,
    owner: AccountId,
    prices: Seq<Balance>,
) -> Map<u128, NftDetails>
    decreases prices.len(),
{
    if prices.len() == 0 {
        m
    } else {
        detailed(m, c, owner, prices.drop_last()).insert(
            item_key(c, (prices.len() - 1) as u32),
            NftDetails {
                project_owner: owner,
                price: prices.last(),
                collection_id: c,
                item_id: (prices.len() - 1) as u32,
            },
        )
    }
}

/// The items `0..n` of collection `c`.
pub open spec fn item_range(n: nat) -> Seq<ItemId> {
    Seq::new(n, |j: int| j as u32)
}

/// The pairs `(c, 0)..(c, n)`.
pub open spec fn pair_range(c: CollectionId, n: nat) -> Seq<(CollectionId, ItemId)> {
    Seq::new(n, |j: int| (c, j as u32))
}

/// A new project with no funds yet.
pub open spec fn new_project(owner: AccountId, price: Balance, duration: u32) -> ProjectDetails {
    ProjectDetails {
        project_owner: owner,
        project_price: price,
        duration,
        milestones: duration,
        remaining_milestones: duration,
        project_balance: 0,
        launching_timestamp: 0,
        strikes: 0,
    }
}

/// The community projects: projects list NFTs for donations; once sold out
/// a project is paid milestone by milestone as the NFT holders approve.
pub struct Pallet {
    config: CpConfig,
    listed_nfts: Vec<(CollectionId, ItemId)>,
    ongoing_nft_details: HashMap<u128, NftDetails>,
    ongoing_projects: HashMap<CollectionId, ProjectDetails>,
    listed_nfts_of_collection: HashMap<CollectionId, Vec<ItemId>>,
    milestone_period_expiring: HashMap<BlockNumber, Vec<CollectionId>>,
    voting_period_expiring: HashMap<BlockNumber, Vec<CollectionId>>,
    ongoing_votes: HashMap<CollectionId, VoteStats>,
    voted_user: HashMap<CollectionId, Vec<AccountId>>,
    nft_holder: HashMap<CollectionId, Vec<AccountId>>,
    voting_power: HashMap<u128, u64>,
    events: Vec<Event>,
}

impl View for Pallet {
    type V = CpState;

    closed spec fn view(&self) -> CpState {
        CpState {
            config: self.config,
            listed_nfts: self.listed_nfts@,
            ongoing_nft_details: self.ongoing_nft_details@,
            ongoing_projects: self.ongoing_projects@,
            listed_nfts_of_collection: seq_map(self.listed_nfts_of_collection@),
            milestone_period_expiring: seq_map(self.milestone_period_expiring@),
            voting_period_expiring: seq_map(self.voting_period_expiring@),
            ongoing_votes: self.ongoing_votes@,
            voted_user: seq_map(self.voted_user@),
            nft_holder: seq_map(self.nft_holder@),
            voting_power: self.voting_power@,
            events: self.events@,
        }
    }
}

/// The prices of the NFTs of `types`, cut off after `limit` of them.
fn expand_prices(types: &Vec<NftDonationTypes>, limit: u64) -> (prices: Vec<Balance>)
    ensures
        prices@.len() == (if unit_prices(types@).len() < limit {
            unit_prices(types@).len()
        } else {
            limit as nat
        }),
        prices@ == unit_prices(types@).take(prices@.len() as int),
{
    let mut prices: Vec<Balance> = Vec::new();
    if limit == 0 {
        assert(prices@ =~= unit_prices(types@).take(0));
        return prices;
    }
    let mut t: usize = 0;
    assert(types@.take(0) =~= Seq::<NftDonationTypes>::empty());
    while t < types.len()
        invariant
            t <= types.len(),
            prices@ == unit_prices(types@.take(t as int)),
            prices@.len() < limit,
        decreases types.len() - t,
    {
        let ty = types[t];
        let mut y: u32 = 0;
        assert(types@.take(t as int + 1).drop_last() =~= types@.take(t as int));
        while y < ty.amount
            invariant
                y <= ty.amount,
                ty == types@[t as int],
                t < types.len(),
                prices@ == unit_prices(types@.take(t as int)) + Seq::new(y as nat, |j: int| ty.price),
                prices@.len() <= limit,
                prices@.len() < limit || y > 0,
            decreases ty.amount - y,
        {
            if prices.len() as u64 >= limit {
                proof {
                    lemma_unit_prices_prefix(types@, t as int + 1);
                    let b = unit_prices(types@.take(t as int + 1));
                    assert(types@.take(t as int + 1).drop_last() =~= types@.take(t as int));
                    assert(types@.take(t as int + 1).last() == ty);
                    assert(b =~= unit_prices(types@.take(t as int)) + Seq::new(
                        ty.amount as nat,
                        |j: int| ty.price,
                    ));
                    assert(prices@ =~= b.take(prices@.len() as int));
                    assert(b.take(prices@.len() as int) =~= unit_prices(types@).take(
                        prices@.len() as int,
                    ));
                }
                return prices;
            }
            prices.push(ty.price);
            y = y + 1;
            proof {
                assert(prices@ =~= unit_prices(types@.take(t as int)) + Seq::new(
                    y as nat,
                    |j: int| ty.price,
                ));
            }
        }
        if prices.len() as u64 >= limit {
            proof {
                lemma_unit_prices_prefix(types@, t as int + 1);
                assert(types@.take(t as int + 1).last() == ty);
                assert(prices@ =~= unit_prices(types@.take(t as int + 1)));
            }
            return prices;
        }
        proof {
            assert(types@.take(t as int + 1).last() == ty);
            assert(prices@ =~= unit_prices(types@.take(t as int + 1)));
        }
        t = t + 1;
    }
    assert(types@.take(t as int) =~= types@);
    assert(prices@.take(prices@.len() as int) =~= prices@);
    prices
}


impl Pallet {
    /// Community projects with empty storage.
    pub fn new(config: CpConfig) -> (p: Pallet)
        ensures
            p@ == (CpState {
                config,
                listed_nfts: Seq::empty(),
                ongoing_nft_details: Map::empty(),
                ongoing_projects: Map::empty(),
                listed_nfts_of_collection: Map::empty(),
                milestone_period_expiring: Map::empty(),
                voting_period_expiring: Map::empty(),
                ongoing_votes: Map::empty(),
                voted_user: Map::empty(),
                nft_holder: Map::empty(),
                voting_power: Map::empty(),
                events: Seq::empty(),
            }),
    {
        let p = Pallet {
            config,
            listed_nfts: Vec::new(),
            ongoing_nft_details: HashMap::new(),
            ongoing_projects: HashMap::new(),
            listed_nfts_of_collection: HashMap::new(),
            milestone_period_expiring: HashMap::new(),
            voting_period_expiring: HashMap::new(),
            ongoing_votes: HashMap::new(),
            voted_user: HashMap::new(),
            nft_holder: HashMap::new(),
            voting_power: HashMap::new(),
            events: Vec::new(),
        };
        assert(seq_map(p.listed_nfts_of_collection@) =~= Map::empty());
        assert(seq_map(p.milestone_period_expiring@) =~= Map::empty());
        assert(seq_map(p.voting_period_expiring@) =~= Map::empty());
        assert(seq_map(p.voted_user@) =~= Map::empty());
        assert(seq_map(p.nft_holder@) =~= Map::empty());
        p
    }

    /// The account of the pallet.
    pub fn account_id(&self) -> (r: AccountId)
        ensures
            r == self@.config.pallet_account,
    {
        self.config.pallet_account
    }

    /// What `list_project` answers.
    pub open spec fn list_project_outcome(
        s: CpState,
        nfts: NftsState,
        origin: Origin,
        nft_types: Seq<NftDonationTypes>,
        price: Balance,
    ) -> Result<(), Error> {
        let c = nfts.next_collection();
        if !(origin is Signed) {
            Err(Error::BadOrigin)
        } else if types_price_sum(nft_types) < price {
            Err(Error::PriceCannotBeReached)
        } else if nfts.collections.contains_key(c) {
            Err(Error::Nfts(NftsError::CollectionIdInUse))
        } else {
            match first_item_error(
                nfts,
                c,
                room(s.config.max_listed_nfts, s.listed_nfts.len()),
                room(s.config.max_nft_in_collection, s.collection_list(c).len()),
                unit_prices(nft_types).len(),
            ) {
                Some(e) => Err(e),
                None => Ok(()),
            }
        }
    }

    /// Lists a project: a new NFT collection owned by the signer holds one
    /// NFT per donation, those of each type in turn, held by the pallet's
    /// account and listed at the type's price. The project is to raise
    /// `price` over `duration` milestones; it is refused where one NFT of
    /// each type together costs less than `price`.
    pub fn list_project(
        &mut self,
        nfts: &mut Nfts,
        origin: Origin,
        nft_types: Vec<NftDonationTypes>,
        duration: u32,
        price: Balance,
        data: Vec<u8>,
    ) -> (r: Result<(), Error>)
        ensures
            r == Self::list_project_outcome(old(self)@, old(nfts)@, origin, nft_types@, price),
            r is Err ==> final(self)@ == old(self)@ && final(nfts)@ == old(nfts)@,
            r is Ok ==> {
                let s = old(self)@;
                let n0 = old(nfts)@;
                let who = origin->Signed_0;
                let c = n0.next_collection();
                let prices = unit_prices(nft_types@);
                let n = prices.len();
                let pallet = s.config.pallet_account;
                &&& final(nfts)@ == (NftsState {
                    next_id: n0.after_take_id().next_id,
                    collections: n0.collections.insert(c, who),
                    items: minted(n0.items, c, n, pallet),
                    metadata: minted(n0.metadata, c, n, data@),
                    collection_metadata: n0.collection_metadata.insert(c, data@),
                })
                &&& final(self)@ == (CpState {
                    listed_nfts: s.listed_nfts + pair_range(c, n),
                    ongoing_nft_details: detailed(s.ongoing_nft_details, c, who, prices),
                    ongoing_projects: s.ongoing_projects.insert(c, new_project(who, price, duration)),
                    listed_nfts_of_collection: s.listed_nfts_of_collection.insert(
                        c,
                        s.collection_list(c) + item_range(n),
                    ),
                    ..s
                })
            },
    {
        let who = match ensure_signed(origin) {
            Some(a) => a,
            None => {
                return Err(Error::BadOrigin);
            },
        };
        if types_price_total(&nft_types) < price {
            return Err(Error::PriceCannotBeReached);
        }
        let ghost s = self@;
        let ghost n0 = nfts@;
        let c = nfts.peek_next_collection_id();
        if nfts.collection_exists(c) {
            return Err(Error::Nfts(NftsError::CollectionIdInUse));
        }
        let max_listed = self.config.max_listed_nfts;
        let max_coll = self.config.max_nft_in_collection;
        let listed_len = self.listed_nfts.len();
        let mut coll = match self.listed_nfts_of_collection.get(&c) {
            Some(v) => v.clone(),
            None => Vec::new(),
        };
        assert(coll@ == s.collection_list(c));
        let ca: u64 = if listed_len as u64 >= max_listed as u64 {
            0
        } else {
            max_listed as u64 - listed_len as u64
        };
        let cb: u64 = if coll.len() as u64 >= max_coll as u64 {
            0
        } else {
            max_coll as u64 - coll.len() as u64
        };
        assert(ca == room(max_listed, s.listed_nfts.len()));
        assert(cb == room(max_coll, s.collection_list(c).len()));
        let limit: u64 = if ca < cb {
            ca + 1
        } else {
            cb + 1
        };
        let prices = expand_prices(&nft_types, limit);
        let ghost all = unit_prices(nft_types@);
        let mut j: usize = 0;
        while j < prices.len()
            invariant
                j <= prices.len(),
                prices@ == all.take(prices@.len() as int),
                first_item_error(n0, c, ca as int, cb as int, j as nat) is None,
                nfts@ == n0,
                n0 == old(nfts)@,
                s == old(self)@,
                self@ == s,
                all == unit_prices(nft_types@),
                prices@.len() <= all.len(),
                prices@.len() <= limit,
                limit <= u32::MAX + 1,
                c == n0.next_collection(),
                !n0.collections.contains_key(c),
                origin == Origin::Signed(who),
                max_listed == s.config.max_listed_nfts,
                max_coll == s.config.max_nft_in_collection,
                ca == room(max_listed, s.listed_nfts.len()),
                cb == room(max_coll, s.collection_list(c).len()),
                types_price_sum(nft_types@) >= price,
            decreases prices.len() - j,
        {
            let err = if nfts.owner(c, j as u32).is_some() {
                Some(Error::Nfts(NftsError::AlreadyExists))
            } else if j as u64 >= ca {
                Some(Error::TooManyListedNfts)
            } else if j as u64 >= cb {
                Some(Error::TooManyNfts)
            } else {
                None
            };
            assert(err == item_error(n0, c, ca as int, cb as int, j as int));
            if let Some(e) = err {
                proof {
                    assert(first_item_error(n0, c, ca as int, cb as int, (j + 1) as nat) == Some(e));
                    lemma_first_item_error_stays(n0, c, ca as int, cb as int, (j + 1) as nat, all.len());
                    assert(first_item_error(n0, c, ca as int, cb as int, all.len()) == Some(e));
                }
                return Err(e);
            }
            j = j + 1;
        }
        assert(prices@.len() == all.len()) by {
            if prices@.len() < all.len() {
                assert(prices@.len() == limit);
                let k = (limit - 1) as nat;
                assert(item_error(n0, c, ca as int, cb as int, k as int) is Some);
                assert(first_item_error(n0, c, ca as int, cb as int, (k + 1) as nat) is Some);
                lemma_first_item_error_stays(n0, c, ca as int, cb as int, (k + 1) as nat, j as nat);
            }
        }
        assert(prices@ =~= all);
        let pallet = self.config.pallet_account;
        let _ = nfts.take_next_collection_id();
        let _ = nfts.create_collection(c, who);
        let meta = data.clone();
        assert(meta@ =~= data@);
        nfts.set_collection_metadata(c, meta);
        assert(nfts@ == (NftsState {
            next_id: n0.after_take_id().next_id,
            collections: n0.collections.insert(c, who),
            collection_metadata: n0.collection_metadata.insert(c, data@),
            ..n0
        }));
        self.ongoing_projects.insert(
            c,
            ProjectDetails {
                project_owner: who,
                project_price: price,
                duration,
                milestones: duration,
                remaining_milestones: duration,
                project_balance: 0,
                launching_timestamp: 0,
                strikes: 0,
            },
        );
        let ghost n1 = nfts@;
        let ghost s1 = self@;
        let ghost coll0 = coll@;
        let mut k: usize = 0;
        while k < prices.len()
            invariant
                k <= prices.len(),
                prices@ == all,
                first_item_error(n0, c, ca as int, cb as int, prices@.len()) is None,
                nfts@ == (NftsState {
                    items: minted(n1.items, c, k as nat, pallet),
                    metadata: minted(n1.metadata, c, k as nat, data@),
                    ..n1
                }),
                n1.items == n0.items,
                n1.collections.contains_key(c),
                self@ == (CpState {
                    listed_nfts: s1.listed_nfts + pair_range(c, k as nat),
                    ongoing_nft_details: detailed(s1.ongoing_nft_details, c, who, prices@.take(k as int)),
                    ..s1
                }),
                coll@ == coll0 + item_range(k as nat),
                prices@.len() <= u32::MAX,
            decreases prices.len() - k,
        {
            proof {
                lemma_first_item_error_none(n0, c, ca as int, cb as int, prices@.len(), k as int);
                lemma_minted_fresh(n1.items, c, k as nat, pallet, k as u32);
            }
            let _ = nfts.mint(c, k as u32, pallet);
            let m = data.clone();
            assert(m@ =~= data@);
            nfts.set_metadata(c, k as u32, m);
            self.listed_nfts.push((c, k as u32));
            self.ongoing_nft_details.insert(
                pair_key(c as u64, k as u64),
                NftDetails { project_owner: who, price: prices[k], collection_id: c, item_id: k as u32 },
            );
            coll.push(k as u32);
            proof {
                assert(prices@.take(k as int + 1).drop_last() =~= prices@.take(k as int));
                assert(self@.listed_nfts =~= s1.listed_nfts + pair_range(c, k as nat + 1));
                assert(coll@ =~= coll0 + item_range(k as nat + 1));
            }
            k = k + 1;
        }
        assert(prices@.take(k as int) =~= prices@);
        let ghost final_coll = coll@;
        self.listed_nfts_of_collection.insert(c, coll);
        proof {
            lemma_seq_map_insert(old(self).listed_nfts_of_collection@, c, coll);
            assert(first_item_error(n0, c, ca as int, cb as int, all.len()) is None);
            assert(nfts@.items == minted(n0.items, c, all.len(), pallet));
            assert(nfts@.metadata == minted(n0.metadata, c, all.len(), data@));
            assert(self@.listed_nfts == s.listed_nfts + pair_range(c, all.len()));
            assert(self@.ongoing_nft_details == detailed(s.ongoing_nft_details, c, who, all));
            assert(self@.listed_nfts_of_collection == s.listed_nfts_of_collection.insert(
                c,
                s.collection_list(c) + item_range(all.len()),
            ));
        }
        Ok(())
    }
}

/// No error among the first `n` NFTs means none at any of them.
proof fn lemma_first_item_error_none(nfts: NftsState, c: CollectionId, ca: int, cb: int, n: nat, k: int)
    requires
        0 <= k < n,
        first_item_error(nfts, c, ca, cb, n) is None,
    ensures
        item_error(nfts, c, ca, cb, k) is None,
    decreases n,
{
    if k < n - 1 {
        lemma_first_item_error_none(nfts, c, ca, cb, (n - 1) as nat, k);
    }
}

/// Storing under the first `n` items of `c` leaves item `i >= n` as it was.
proof fn lemma_minted_fresh<V>(m: Map<u128, V>, c: CollectionId, n: nat, v: V, i: u32)
    requires
        n <= i,
    ensures
        minted(m, c, n, v).contains_key(item_key(c, i)) == m.contains_key(item_key(c, i)),
    decreases n,
{
    if n > 0 {
        lemma_minted_fresh(m, c, (n - 1) as nat, v, i);
        lemma_pair_key_injective(c as u64, (n - 1) as u32 as u64, c as u64, i as u64);
    }
}

/// The listed NFTs after taking out `(c, item)` for each item of
/// `remaining`, in order.
pub open spec fn unlisted(listed: Seq<(CollectionId, ItemId)>, c: CollectionId, remaining: Seq<ItemId>) -> Seq<
    (CollectionId, ItemId),
>
    decreases remaining.len(),
{
    if remaining.len() == 0 {
        listed
    } else {
        unlisted(listed, c, remaining.drop_last()).remove_value((c, remaining.last()))
    }
}

/// Whether each `(c, item)` for the items of `remaining` is still listed
/// when its turn to be taken out comes.
pub open spec fn unlisting_finds_all(listed: Seq<(CollectionId, ItemId)>, c: CollectionId, remaining: Seq<ItemId>) -> bool
    decreases remaining.len(),
{
    remaining.len() == 0 || (unlisting_finds_all(listed, c, remaining.drop_last()) && unlisted(
        listed,
        c,
        remaining.drop_last(),
    ).contains((c, remaining.last())))
}

/// The items after burning item `it` of `c` for each `it` of `remaining`.
pub open spec fn burned(items: Map<u128, AccountId>, c: CollectionId, remaining: Seq<ItemId>) -> Map<
    u128,
    AccountId,
>
    decreases remaining.len(),
{
    if remaining.len() == 0 {
        items
    } else {
        burned(items, c, remaining.drop_last()).remove(item_key(c, remaining.last()))
    }
}

/// The blocks of the first milestone period of a project of `duration`.
pub open spec fn launch_period(duration: u32) -> u32 {
    if duration > 12 {
        ((duration * 10) / 12) as u32
    } else {
        10
    }
}

/// The storage after launching sold-out project `c` at block `now`,
/// whatever the outcome: its unsold NFTs are burned and unlisted and its
/// first milestone period starts.
pub open spec fn launched(s: CpState, nfts: NftsState, c: CollectionId, now: BlockNumber) -> (
    CpState,
    NftsState,
) {
    let remaining = s.collection_list(c);
    let s1 = CpState {
        listed_nfts_of_collection: s.listed_nfts_of_collection.remove(c),
        listed_nfts: unlisted(s.listed_nfts, c, remaining),
        ..s
    };
    let n1 = NftsState { items: burned(nfts.items, c, remaining), ..nfts };
    if !s.ongoing_projects.contains_key(c) {
        (s1, n1)
    } else {
        let p = ProjectDetails { launching_timestamp: now, ..s.ongoing_projects[c] };
        let expiry = add_held_u64(now, launch_period(p.duration) as u64);
        let s2 = CpState { ongoing_projects: s1.ongoing_projects.insert(c, p), ..s1 };
        if s2.milestone_list(expiry).len() < s.config.max_ongoing_projects {
            (
                CpState {
                    milestone_period_expiring: s2.milestone_period_expiring.insert(
                        expiry,
                        s2.milestone_list(expiry).push(c),
                    ),
                    events: s2.events.push(Event::ProjectLaunched { collection_index: c }),
                    ..s2
                },
                n1,
            )
        } else {
            (s2, n1)
        }
    }
}

/// Whether launching project `c` runs without a panic: the project is there,
/// the length of its first milestone period is in range and each unsold NFT
/// is listed.
pub open spec fn launch_safe(s: CpState, c: CollectionId) -> bool {
    &&& s.ongoing_projects.contains_key(c)
    &&& (s.ongoing_projects[c].duration > 12 ==> s.ongoing_projects[c].duration * 10 <= u32::MAX)
    &&& unlisting_finds_all(s.listed_nfts, c, s.collection_list(c))
}

/// `a + b`, held at `u64::MAX`.
pub open spec fn add_held_u64(a: u64, b: u64) -> u64 {
    if a + b > u64::MAX {
        u64::MAX
    } else {
        (a + b) as u64
    }
}

/// The first position of `x` in `v`.
fn pair_position(v: &Vec<(CollectionId, ItemId)>, x: (CollectionId, ItemId)) -> (r: Option<usize>)
    ensures
        match r {
            Some(i) => i < v@.len() && v@[i as int] == x && forall|j: int| 0 <= j < i ==> v@[j] != x,
            None => !v@.contains(x),
        },
{
    let mut i: usize = 0;
    while i < v.len()
        invariant
            i <= v.len(),
            forall|j: int| 0 <= j < i ==> v@[j] != x,
        decreases v.len() - i,
    {
        let e = v[i];
        if e.0 == x.0 && e.1 == x.1 {
            return Some(i);
        }
        i = i + 1;
    }
    None
}

/// The first position of `x` in `v`.
fn item_position(v: &Vec<ItemId>, x: ItemId) -> (r: Option<usize>)
    ensures
        match r {
            Some(i) => i < v@.len() && v@[i as int] == x && forall|j: int| 0 <= j < i ==> v@[j] != x,
            None => !v@.contains(x),
        },
{
    let mut i: usize = 0;
    while i < v.len()
        invariant
            i <= v.len(),
            forall|j: int| 0 <= j < i ==> v@[j] != x,
        decreases v.len() - i,
    {
        if v[i] == x {
            return Some(i);
        }
        i = i + 1;
    }
    None
}

/// Whether an item is other than `x`.
pub open spec fn other_than(x: ItemId) -> spec_fn(ItemId) -> bool {
    |y: ItemId| y != x
}

/// The items of `v` other than `x`, in order.
fn items_other_than(v: &Vec<ItemId>, x: ItemId) -> (r: Vec<ItemId>)
    ensures
        r@ == v@.filter(other_than(x)),
{
    let mut r: Vec<ItemId> = Vec::new();
    let mut k: usize = 0;
    proof {
        reveal(Seq::filter);
        assert(v@.take(0) =~= Seq::<ItemId>::empty());
    }
    while k < v.len()
        invariant
            k <= v.len(),
            r@ == v@.take(k as int).filter(other_than(x)),
        decreases v.len() - k,
    {
        proof {
            reveal(Seq::filter);
            assert(v@.take(k as int + 1).drop_last() =~= v@.take(k as int));
        }
        if v[k] != x {
            r.push(v[k]);
        }
        k = k + 1;
    }
    assert(v@.take(k as int) =~= v@);
    r
}

/// What is left after taking out `x` holds no `x`.
proof fn lemma_filter_drops(s: Seq<ItemId>, x: ItemId)
    ensures
        !s.filter(other_than(x)).contains(x),
{
    if s.filter(other_than(x)).contains(x) {
        let j = choose|j: int| 0 <= j < s.filter(other_than(x)).len() && s.filter(other_than(x))[j] == x;
        s.lemma_filter_pred(other_than(x), j);
    }
}

/// Burning the items of `remaining` keeps an item that is not among them.
proof fn lemma_burned_keeps(items: Map<u128, AccountId>, c: CollectionId, remaining: Seq<ItemId>, i: ItemId)
    requires
        !remaining.contains(i),
    ensures
        burned(items, c, remaining).contains_key(item_key(c, i)) == items.contains_key(item_key(c, i)),
        burned(items, c, remaining)[item_key(c, i)] == items[item_key(c, i)],
    decreases remaining.len(),
{
    if remaining.len() > 0 {
        assert(!remaining.drop_last().contains(i)) by {
            if remaining.drop_last().contains(i) {
                let j = choose|j: int| 0 <= j < remaining.drop_last().len() && remaining.drop_last()[j] == i;
                assert(remaining[j] == i);
            }
        }
        assert(remaining.last() != i) by {
            assert(remaining[remaining.len() - 1] == remaining.last());
        }
        lemma_burned_keeps(items, c, remaining.drop_last(), i);
        lemma_pair_key_injective(c as u64, remaining.last() as u64, c as u64, i as u64);
    }
}

/// Removing at the first position of `x` is removing the value `x`.
proof fn lemma_remove_first<A>(s: Seq<A>, x: A, i: int)
    requires
        0 <= i < s.len(),
        s[i] == x,
        forall|j: int| 0 <= j < i ==> s[j] != x,
    ensures
        s.remove(i) == s.remove_value(x),
{
    s.index_of_first_ensures(x);
    let f = s.index_of_first(x)->Some_0;
    assert(f == i) by {
        if f < i {
            assert(s[f] == x);
        } else if f > i {
            assert(s[i] == x);
        }
    }
}

/// Removing a value that is not there leaves the sequence as it is.
proof fn lemma_remove_absent<A>(s: Seq<A>, x: A)
    requires
        !s.contains(x),
    ensures
        s.remove_value(x) == s,
{
    s.index_of_first_ensures(x);
}

impl Pallet {
    /// Takes `(c, item)` out of the listed NFTs, where it is listed.
    fn unlist(&mut self, c: CollectionId, item: ItemId)
        ensures
            final(self)@ == (CpState {
                listed_nfts: old(self)@.listed_nfts.remove_value((c, item)),
                ..old(self)@
            }),
    {
        match pair_position(&self.listed_nfts, (c, item)) {
            Some(idx) => {
                proof {
                    lemma_remove_first(self.listed_nfts@, (c, item), idx as int);
                }
                self.listed_nfts.remove(idx);
            },
            None => {
                proof {
                    lemma_remove_absent(self.listed_nfts@, (c, item));
                }
            },
        }
    }

    /// Launches sold-out project `c` at block `now`: burns and unlists its
    /// unsold NFTs and starts its first milestone period.
    fn launch_project(&mut self, nfts: &mut Nfts, c: CollectionId, now: BlockNumber) -> (r: Result<(), Error>)
        requires
            launch_safe(old(self)@, c),
        ensures
            (final(self)@, final(nfts)@) == launched(old(self)@, old(nfts)@, c, now),
    {
        let ghost s = self@;
        let ghost n0 = nfts@;
        let remaining = match self.listed_nfts_of_collection.remove(&c) {
            Some(v) => v,
            None => Vec::new(),
        };
        proof {
            lemma_seq_map_remove(old(self).listed_nfts_of_collection@, c);
        }
        assert(remaining@ == s.collection_list(c));
        let ghost s1 = self@;
        let mut k: usize = 0;
        assert(remaining@.take(0) =~= Seq::<ItemId>::empty());
        while k < remaining.len()
            invariant
                k <= remaining.len(),
                self@ == (CpState {
                    listed_nfts: unlisted(s1.listed_nfts, c, remaining@.take(k as int)),
                    ..s1
                }),
                nfts@ == (NftsState { items: burned(n0.items, c, remaining@.take(k as int)), ..n0 }),
            decreases remaining.len() - k,
        {
            let item = remaining[k];
            let _ = nfts.force_burn(c, item);
            self.unlist(c, item);
            proof {
                assert(remaining@.take(k as int + 1).drop_last() =~= remaining@.take(k as int));
                if !burned(n0.items, c, remaining@.take(k as int)).contains_key(item_key(c, item)) {
                    assert(burned(n0.items, c, remaining@.take(k as int)).remove(item_key(c, item))
                        =~= burned(n0.items, c, remaining@.take(k as int)));
                }
            }
            k = k + 1;
        }
        assert(remaining@.take(k as int) =~= remaining@);
        let mut project = match self.ongoing_projects.get(&c) {
            Some(p) => *p,
            None => {
                return Err(Error::InvalidIndex);
            },
        };
        project.launching_timestamp = now;
        let period: u32 = if project.duration > 12 {
            project.duration * 10 / 12
        } else {
            10
        };
        self.ongoing_projects.insert(c, project);
        let expiry = now.saturating_add(period as u64);
        if !push_bounded(&mut self.milestone_period_expiring, expiry, c, self.config.max_ongoing_projects) {
            return Err(Error::TooManyProjects);
        }
        self.events.push(Event::ProjectLaunched { collection_index: c });
        Ok(())
    }
}

/// Appends `item` to the list under `key` unless it holds `max` items
/// already; answers whether it did.
fn push_bounded(m: &mut HashMap<u64, Vec<u32>>, key: u64, item: u32, max: u32) -> (pushed: bool)
    ensures
        pushed == (get_or(seq_map(old(m)@), key, Seq::empty()).len() < max),
        pushed ==> seq_map(final(m)@) == seq_map(old(m)@).insert(
            key,
            get_or(seq_map(old(m)@), key, Seq::empty()).push(item),
        ),
        !pushed ==> final(m)@ == old(m)@,
{
    let mut list = match m.get(&key) {
        Some(v) => v.clone(),
        None => Vec::new(),
    };
    assert(list@ == get_or(seq_map(old(m)@), key, Seq::<u32>::empty()));
    if list.len() as u64 >= max as u64 {
        return false;
    }
    list.push(item);
    m.insert(key, list);
    proof {
        lemma_seq_map_insert(old(m)@, key, list);
    }
    true
}

impl Pallet {
    /// What `buy_nft` answers.
    pub open spec fn buy_nft_outcome(
        s: CpState,
        nfts: NftsState,
        assets: AssetsState,
        origin: Origin,
        c: CollectionId,
        i: ItemId,
    ) -> Result<(), Error> {
        let key = item_key(c, i);
        match origin {
            Origin::Root => Err(Error::BadOrigin),
            Origin::Signed(who) => if !s.ongoing_nft_details.contains_key(key) {
                Err(Error::NftNotFound)
            } else if !s.ongoing_projects.contains_key(c) {
                Err(Error::InvalidIndex)
            } else if assets.transfer_outcome(
                PAYMENT_ASSET,
                who,
                s.config.pallet_account,
                s.ongoing_nft_details[key].price,
            ) is Err {
                Err(Error::NotEnoughFunds)
            } else if nfts.owner_of(c, i) is None {
                Err(Error::Nfts(NftsError::UnknownItem))
            } else if !s.holders(c).contains(who) && s.holders(c).len() >= s.config.max_nft_holder {
                Err(Error::TooManyVoters)
            } else {
                Ok(())
            },
        }
    }

    /// The storage before launching or unlisting: the NFT is sold and its
    /// price added to the project's balance.
    pub open spec fn sold(s: CpState, c: CollectionId, i: ItemId) -> CpState {
        let key = item_key(c, i);
        let p = s.ongoing_projects[c];
        CpState {
            ongoing_projects: s.ongoing_projects.insert(
                c,
                ProjectDetails {
                    project_balance: (p.project_balance + s.ongoing_nft_details[key].price) as Balance,
                    ..p
                },
            ),
            ongoing_nft_details: s.ongoing_nft_details.remove(key),
            ..s
        }
    }

    /// The storage after the NFT just sold leaves the listings of a
    /// project that it sells out: `(c, i)` is unlisted and the project's list
    /// keeps only its unsold NFTs.
    pub open spec fn unlisted_before_launch(s: CpState, c: CollectionId, i: ItemId) -> CpState {
        CpState {
            listed_nfts: s.listed_nfts.remove_value((c, i)),
            listed_nfts_of_collection: s.listed_nfts_of_collection.insert(
                c,
                s.collection_list(c).filter(other_than(i)),
            ),
            ..s
        }
    }

    /// Whether `buy_nft` runs without a panic: the payment, the project's
    /// balance and the buyer's voting power stay in range, a project that
    /// sells out can be launched, and an NFT of a project that does not is
    /// listed.
    pub open spec fn buy_nft_safe(
        s: CpState,
        nfts: NftsState,
        assets: AssetsState,
        origin: Origin,
        c: CollectionId,
        i: ItemId,
    ) -> bool {
        let key = item_key(c, i);
        match origin {
            Origin::Root => true,
            Origin::Signed(who) => s.ongoing_nft_details.contains_key(key) && s.ongoing_projects.contains_key(c)
                ==> {
                let price = s.ongoing_nft_details[key].price;
                let p = s.ongoing_projects[c];
                &&& Self::buy_nft_outcome(s, nfts, assets, origin, c, i) is Ok ==> {
                    &&& p.project_balance + price <= u128::MAX
                    &&& price <= u64::MAX
                    &&& s.power_of(c, who) + price <= u64::MAX
                    &&& if p.project_balance + price >= p.project_price {
                        launch_safe(Self::unlisted_before_launch(Self::sold(s, c, i), c, i), c)
                    } else {
                        s.listed_nfts.contains((c, i)) && s.collection_list(c).contains(i)
                    }
                }
            },
        }
    }

    /// Buys NFT `i` of project `c` at block `now`: the buyer pays its price
    /// in the payment asset to the pallet's account, gets the
    /// NFT and voting power of its price, and the NFT is unlisted; a project
    /// whose balance reaches its price is then launched, which burns its
    /// unsold NFTs and leaves the buyer the one it bought.
    pub fn buy_nft(
        &mut self,
        nfts: &mut Nfts,
        assets: &mut Assets,
        origin: Origin,
        c: CollectionId,
        i: ItemId,
        now: BlockNumber,
    ) -> (r: Result<(), Error>)
        requires
            Self::buy_nft_safe(old(self)@, old(nfts)@, old(assets)@, origin, c, i),
        ensures
            r == Self::buy_nft_outcome(old(self)@, old(nfts)@, old(assets)@, origin, c, i),
            r is Err ==> final(self)@ == old(self)@ && final(nfts)@ == old(nfts)@ && final(assets)@ == old(
                assets,
            )@,
            r is Ok ==> {
                let s = old(self)@;
                let who = origin->Signed_0;
                let key = item_key(c, i);
                let price = s.ongoing_nft_details[key].price;
                let s1 = Self::sold(s, c, i);
                let p1 = s1.ongoing_projects[c];
                let n1 = NftsState { items: old(nfts)@.items.insert(key, who), ..old(nfts)@ };
                let (s2, n2) = if p1.project_balance >= p1.project_price {
                    launched(Self::unlisted_before_launch(s1, c, i), n1, c, now)
                } else {
                    (
                        CpState {
                            listed_nfts: s1.listed_nfts.remove_value((c, i)),
                            listed_nfts_of_collection: s1.listed_nfts_of_collection.insert(
                                c,
                                s1.collection_list(c).remove_value(i),
                            ),
                            ..s1
                        },
                        n1,
                    )
                };
                &&& final(assets)@ == old(assets)@.after_transfer(
                    PAYMENT_ASSET,
                    who,
                    s.config.pallet_account,
                    price,
                )
                &&& final(nfts)@ == n2
                &&& final(nfts)@.owner_of(c, i) == Some(who)
                &&& final(self)@ == (CpState {
                    nft_holder: if s.holders(c).contains(who) {
                        s2.nft_holder
                    } else {
                        s2.nft_holder.insert(c, s.holders(c).push(who))
                    },
                    voting_power: s2.voting_power.insert(
                        power_key(c, who),
                        (s.power_of(c, who) + price) as u64,
                    ),
                    events: s2.events.push(
                        Event::NftBought { collection_index: c, item_index: i, buyer: who, price },
                    ),
                    ..s2
                })
            },
    {
        let who = match ensure_signed(origin) {
            Some(a) => a,
            None => {
                return Err(Error::BadOrigin);
            },
        };
        let ghost s = self@;
        let key = pair_key(c as u64, i as u64);
        let nft = match self.ongoing_nft_details.get(&key) {
            Some(n) => *n,
            None => {
                return Err(Error::NftNotFound);
            },
        };
        let mut project = match self.ongoing_projects.get(&c) {
            Some(p) => *p,
            None => {
                return Err(Error::InvalidIndex);
            },
        };
        let pallet = self.config.pallet_account;
        let pay = nft.price;
        if assets.check_transfer(PAYMENT_ASSET, who, pallet, pay).is_err() {
            return Err(Error::NotEnoughFunds);
        }
        if nfts.owner(c, i).is_none() {
            return Err(Error::Nfts(NftsError::UnknownItem));
        }
        let holders = match self.nft_holder.get(&c) {
            Some(v) => v.clone(),
            None => Vec::new(),
        };
        assert(holders@ == s.holders(c));
        let is_holder = vec_contains(&holders, who);
        if !is_holder && holders.len() as u64 >= self.config.max_nft_holder as u64 {
            return Err(Error::TooManyVoters);
        }
        let _ = assets.transfer(PAYMENT_ASSET, who, pallet, pay);
        let _ = nfts.transfer(c, i, who);
        self.ongoing_nft_details.remove(&key);
        project.project_balance = project.project_balance + nft.price;
        self.ongoing_projects.insert(c, project);
        assert(self@ == Self::sold(s, c, i));
        if project.project_balance >= project.project_price {
            self.unlist(c, i);
            let listed = match self.listed_nfts_of_collection.get(&c) {
                Some(v) => v.clone(),
                None => Vec::new(),
            };
            assert(listed@ == Self::sold(s, c, i).collection_list(c));
            let unsold = items_other_than(&listed, i);
            let ghost m0 = self.listed_nfts_of_collection@;
            self.listed_nfts_of_collection.insert(c, unsold);
            proof {
                lemma_seq_map_insert(m0, c, unsold);
                lemma_filter_drops(listed@, i);
                lemma_burned_keeps(nfts@.items, c, unsold@, i);
            }
            assert(self@ == Self::unlisted_before_launch(Self::sold(s, c, i), c, i));
            let _ = self.launch_project(nfts, c, now);
        } else {
            self.unlist(c, i);
            let mut items = match self.listed_nfts_of_collection.get(&c) {
                Some(v) => v.clone(),
                None => Vec::new(),
            };
            let ghost before = items@;
            match item_position(&items, i) {
                Some(idx) => {
                    proof {
                        lemma_remove_first(items@, i, idx as int);
                    }
                    items.remove(idx);
                },
                None => {
                    proof {
                        lemma_remove_absent(items@, i);
                    }
                },
            }
            assert(items@ == before.remove_value(i));
            let ghost m0 = self.listed_nfts_of_collection@;
            self.listed_nfts_of_collection.insert(c, items);
            proof {
                lemma_seq_map_insert(m0, c, items);
            }
        }
        if !is_holder {
            let mut h = holders;
            h.push(who);
            let ghost m0 = self.nft_holder@;
            self.nft_holder.insert(c, h);
            proof {
                lemma_seq_map_insert(m0, c, h);
            }
        }
        let power = match self.voting_power.get(&pair_key(c as u64, who)) {
            Some(v) => *v,
            None => 0,
        };
        assert(power == s.power_of(c, who));
        self.voting_power.insert(pair_key(c as u64, who), power + nft.price as u64);
        self.events.push(Event::NftBought { collection_index: c, item_index: i, buyer: who, price: nft.price });
        Ok(())
    }
}

impl Pallet {
    /// What `vote_on_milestone` answers.
    pub open spec fn vote_on_milestone_outcome(s: CpState, origin: Origin, c: CollectionId) -> Result<(), Error> {
        match origin {
            Origin::Root => Err(Error::BadOrigin),
            Origin::Signed(who) => if !s.ongoing_votes.contains_key(c) {
                Err(Error::NoOngoingVotingPeriod)
            } else if !s.holders(c).contains(who) {
                Err(Error::InsufficientPermission)
            } else if s.voters(c).contains(who) {
                Err(Error::AlreadyVoted)
            } else if s.voters(c).len() >= s.config.max_nft_holder {
                Err(Error::TooManyVoters)
            } else {
                Ok(())
            },
        }
    }

    /// The tally after `who` votes on the current milestone of `c`.
    pub open spec fn tallied(s: CpState, c: CollectionId, who: AccountId, vote: Vote) -> VoteStats {
        let v = s.ongoing_votes[c];
        match vote {
            Vote::Yes => VoteStats { yes_votes: (v.yes_votes + s.power_of(c, who)) as u64, ..v },
            Vote::No => VoteStats { no_votes: (v.no_votes + s.power_of(c, who)) as u64, ..v },
        }
    }

    /// A holder of the project's NFTs votes on its current milestone with
    /// its voting power, once per milestone.
    pub fn vote_on_milestone(&mut self, origin: Origin, c: CollectionId, vote: Vote) -> (r: Result<(), Error>)
        requires
            (Self::vote_on_milestone_outcome(old(self)@, origin, c) is Ok || Self::vote_on_milestone_outcome(
                old(self)@,
                origin,
                c,
            ) == Err::<(), Error>(Error::TooManyVoters)) ==> {
                let v = old(self)@.ongoing_votes[c];
                let power = old(self)@.power_of(c, origin->Signed_0);
                match vote {
                    Vote::Yes => v.yes_votes + power <= u64::MAX,
                    Vote::No => v.no_votes + power <= u64::MAX,
                }
            },
        ensures
            r == Self::vote_on_milestone_outcome(old(self)@, origin, c),
            r is Err ==> final(self)@ == old(self)@,
            r is Ok ==> {
                let s = old(self)@;
                let who = origin->Signed_0;
                final(self)@ == (CpState {
                    ongoing_votes: s.ongoing_votes.insert(c, Self::tallied(s, c, who, vote)),
                    voted_user: s.voted_user.insert(c, s.voters(c).push(who)),
                    events: s.events.push(
                        Event::VotedOnMilestone { collection_index: c, voter: who, vote },
                    ),
                    ..s
                })
            },
    {
        let who = match ensure_signed(origin) {
            Some(a) => a,
            None => {
                return Err(Error::BadOrigin);
            },
        };
        let ghost s = self@;
        let mut current = match self.ongoing_votes.get(&c) {
            Some(v) => *v,
            None => {
                return Err(Error::NoOngoingVotingPeriod);
            },
        };
        let holders = match self.nft_holder.get(&c) {
            Some(v) => v.clone(),
            None => Vec::new(),
        };
        assert(holders@ == s.holders(c));
        if !vec_contains(&holders, who) {
            return Err(Error::InsufficientPermission);
        }
        let mut voted = match self.voted_user.get(&c) {
            Some(v) => v.clone(),
            None => Vec::new(),
        };
        assert(voted@ == s.voters(c));
        if vec_contains(&voted, who) {
            return Err(Error::AlreadyVoted);
        }
        let power = match self.voting_power.get(&pair_key(c as u64, who)) {
            Some(v) => *v,
            None => 0,
        };
        match vote {
            Vote::Yes => {
                current.yes_votes = current.yes_votes + power;
            },
            Vote::No => {
                current.no_votes = current.no_votes + power;
            },
        }
        if voted.len() as u64 >= self.config.max_nft_holder as u64 {
            return Err(Error::TooManyVoters);
        }
        voted.push(who);
        let ghost m0 = self.voted_user@;
        self.voted_user.insert(c, voted);
        proof {
            lemma_seq_map_insert(m0, c, voted);
        }
        self.ongoing_votes.insert(c, current);
        self.events.push(Event::VotedOnMilestone { collection_index: c, voter: who, vote });
        Ok(())
    }
}

/// The storage of the community projects and the balances they pay from.
pub struct CpWorld {
    pub cp: CpState,
    pub assets: AssetsState,
}

/// The storage after the voting period of project `c` starts at block `n`.
pub open spec fn voting_started(s: CpState, c: CollectionId, n: BlockNumber) -> CpState {
    let expiry = add_held_u64(n, 10);
    let s1 = CpState {
        ongoing_votes: s.ongoing_votes.insert(c, VoteStats { yes_votes: 0, no_votes: 0 }),
        ..s
    };
    if s1.voting_list(expiry).len() < s.config.max_ongoing_projects {
        CpState {
            voting_period_expiring: s1.voting_period_expiring.insert(
                expiry,
                s1.voting_list(expiry).push(c),
            ),
            events: s1.events.push(Event::VotingPeriodStarted { collection_index: c }),
            ..s1
        }
    } else {
        s1
    }
}

/// The storage after the next milestone period of project `c` starts at
/// block `n`.
pub open spec fn milestone_started(s: CpState, c: CollectionId, n: BlockNumber) -> CpState {
    let expiry = add_held_u64(n, 10);
    if s.milestone_list(expiry).len() < s.config.max_ongoing_projects {
        CpState {
            milestone_period_expiring: s.milestone_period_expiring.insert(
                expiry,
                s.milestone_list(expiry).push(c),
            ),
            events: s.events.push(Event::MilestonePeriodStarted { collection_id: c }),
            ..s
        }
    } else {
        s
    }
}

/// What is left of the funds of a project: its balance less the shares of
/// the milestones paid.
pub open spec fn remaining_funds(p: ProjectDetails) -> Balance {
    if p.milestones == 0 || p.remaining_milestones > p.milestones {
        p.project_balance
    } else {
        (p.project_balance - milestone_share(p) * (p.milestones - p.remaining_milestones)) as Balance
    }
}

/// The refund of a holder with voting power `power` out of `balance`: its
/// share of `left`, rounded down.
pub open spec fn refund_of(left: Balance, power: u64, balance: Balance) -> Balance {
    if balance == 0 {
        0
    } else {
        ((left * power) / (balance as int)) as Balance
    }
}

/// The assets after the pallet's account refunds the holders `hs` of
/// project `c` their shares of `left`; a refund that fails is skipped.
pub open spec fn refunded(
    a: AssetsState,
    s: CpState,
    c: CollectionId,
    left: Balance,
    balance: Balance,
    hs: Seq<AccountId>,
) -> AssetsState
    decreases hs.len(),
{
    if hs.len() == 0 {
        a
    } else {
        let a1 = refunded(a, s, c, left, balance, hs.drop_last());
        let h = hs.last();
        let amount = refund_of(left, s.power_of(c, h), balance);
        if a1.transfer_outcome(PAYMENT_ASSET, s.config.pallet_account, h, amount) is Ok {
            a1.after_transfer(PAYMENT_ASSET, s.config.pallet_account, h, amount)
        } else {
            a1
        }
    }
}

/// The storage after project `c` is deleted: what is left of its funds is
/// refunded to its holders in proportion to their voting power.
pub open spec fn deleted(w: CpWorld, c: CollectionId) -> CpWorld {
    let s = w.cp;
    if s.ongoing_projects.contains_key(c) {
        let p = s.ongoing_projects[c];
        CpWorld {
            cp: CpState {
                ongoing_projects: s.ongoing_projects.remove(c),
                events: s.events.push(Event::ProjectDeleted { collection_id: c }),
                ..s
            },
            assets: refunded(w.assets, s, c, remaining_funds(p), p.project_balance, s.holders(c)),
        }
    } else {
        w
    }
}

/// Whether the refunds of project `c` stay in range: its balance times the
/// voting power of each holder fits a `Balance`.
pub open spec fn refund_safe(s: CpState, c: CollectionId) -> bool {
    s.ongoing_projects.contains_key(c) ==> forall|h: AccountId|
        #[trigger] s.holders(c).contains(h) ==> s.ongoing_projects[c].project_balance * s.power_of(c, h)
            <= u128::MAX
}

/// The refunds of project `c` stay in range while its holders, their
/// voting power and its balance stay.
proof fn lemma_refund_safe_kept(s: CpState, t: CpState, c: CollectionId)
    requires
        refund_safe(s, c),
        t.nft_holder == s.nft_holder,
        t.voting_power == s.voting_power,
        t.ongoing_projects.contains_key(c) ==> s.ongoing_projects.contains_key(c)
            && t.ongoing_projects[c].project_balance == s.ongoing_projects[c].project_balance,
    ensures
        refund_safe(t, c),
{
    if t.ongoing_projects.contains_key(c) {
        assert forall|h: AccountId| #[trigger] t.holders(c).contains(h) implies t.ongoing_projects[c].project_balance
            * t.power_of(c, h) <= u128::MAX by {
            assert(s.holders(c).contains(h));
        }
    }
}

/// What is left of a project's funds is at most its balance.
proof fn lemma_remaining_within_balance(p: ProjectDetails)
    ensures
        remaining_funds(p) <= p.project_balance,
        p.milestones > 0 && p.remaining_milestones <= p.milestones ==> milestone_share(p) * (p.milestones
            - p.remaining_milestones) <= p.project_balance,
{
    if p.milestones > 0 && p.remaining_milestones <= p.milestones {
        let b = p.project_balance as int;
        let m = p.milestones as int;
        let k = (p.milestones - p.remaining_milestones) as int;
        assert((b / m) * k <= (b / m) * m) by (nonlinear_arith)
            requires
                0 <= k <= m,
                m > 0,
                b >= 0,
        ;
        assert((b / m) * m <= b) by (nonlinear_arith)
            requires
                m > 0,
                b >= 0,
        ;
    }
}

/// The share of a project's balance paid out per milestone.
pub open spec fn milestone_share(p: ProjectDetails) -> Balance {
    (p.project_balance as int / p.milestones as int) as Balance
}

/// The storage after the funds of a milestone of project `c` are paid to
/// its owner, whatever the outcome: where the payment fails, the project is
/// gone.
pub open spec fn funds_distributed(w: CpWorld, c: CollectionId) -> CpWorld {
    let s = w.cp;
    if !s.ongoing_projects.contains_key(c) {
        w
    } else {
        let p = s.ongoing_projects[c];
        let amount = milestone_share(p);
        let pay = amount;
        let taken = CpState { ongoing_projects: s.ongoing_projects.remove(c), ..s };
        if w.assets.transfer_outcome(PAYMENT_ASSET, s.config.pallet_account, p.project_owner, pay) is Err {
            CpWorld { cp: taken, assets: w.assets }
        } else {
            CpWorld {
                cp: CpState {
                    ongoing_projects: s.ongoing_projects.insert(
                        c,
                        ProjectDetails {
                            remaining_milestones: (p.remaining_milestones - 1) as u32,
                            strikes: 0,
                            ..p
                        },
                    ),
                    events: s.events.push(
                        Event::FundsDestributed { collection_index: c, owner: p.project_owner, amount },
                    ),
                    ..s
                },
                assets: w.assets.after_transfer(
                    PAYMENT_ASSET,
                    s.config.pallet_account,
                    p.project_owner,
                    pay,
                ),
            }
        }
    }
}

/// The storage after project `c` gets a strike; at three it is deleted.
pub open spec fn struck(w: CpWorld, c: CollectionId) -> CpWorld {
    let s = w.cp;
    let p = s.ongoing_projects[c];
    let s1 = CpState {
        ongoing_projects: s.ongoing_projects.insert(
            c,
            ProjectDetails { strikes: (p.strikes + 1) as u8, ..p },
        ),
        ..s
    };
    if p.strikes + 1 >= 3 {
        deleted(CpWorld { cp: s1, assets: w.assets }, c)
    } else {
        CpWorld { cp: s1, assets: w.assets }
    }
}

/// The storage after the voting on the milestone of project `c` ends at
/// block `n`: an approved milestone is paid, a rejected one is a strike;
/// then the next milestone period starts, or the project ends when none is
/// left.
pub open spec fn voting_step(w: CpWorld, c: CollectionId, n: BlockNumber) -> CpWorld {
    let s = w.cp;
    let w1 = if s.ongoing_votes.contains_key(c) {
        let v = s.ongoing_votes[c];
        let s0 = CpState { ongoing_votes: s.ongoing_votes.remove(c), ..s };
        if v.yes_votes > v.no_votes {
            funds_distributed(CpWorld { cp: s0, assets: w.assets }, c)
        } else {
            struck(CpWorld { cp: s0, assets: w.assets }, c)
        }
    } else {
        w
    };
    let s1 = w1.cp;
    let w2 = if s1.ongoing_projects.contains_key(c) {
        if s1.ongoing_projects[c].remaining_milestones >= 1 {
            CpWorld { cp: milestone_started(s1, c, n), assets: w1.assets }
        } else {
            deleted(w1, c)
        }
    } else {
        w1
    };
    let s2 = w2.cp;
    CpWorld { cp: CpState { voted_user: s2.voted_user.remove(c), ..s2 }, assets: w2.assets }
}

/// Whether the voting step of project `c` runs without a panic: a project
/// whose milestone is approved has milestones, a payout in range and a
/// milestone left once paid; one whose milestone is rejected is there with
/// fewer than the most strikes.
pub open spec fn voting_step_safe(w: CpWorld, c: CollectionId) -> bool {
    let s = w.cp;
    &&& refund_safe(s, c)
    &&& s.ongoing_votes.contains_key(c) ==> {
        let v = s.ongoing_votes[c];
        if v.yes_votes > v.no_votes {
            distribute_safe(w, c)
        } else {
            s.ongoing_projects.contains_key(c) && s.ongoing_projects[c].strikes < 255
        }
    }
}

/// Whether paying a milestone of project `c` runs without a panic: the
/// project has milestones, the payout is in range and, once paid, a
/// milestone was left.
pub open spec fn distribute_safe(w: CpWorld, c: CollectionId) -> bool {
    let s = w.cp;
    s.ongoing_projects.contains_key(c) ==> {
        let p = s.ongoing_projects[c];
        &&& p.milestones > 0
        &&& (w.assets.transfer_outcome(
            PAYMENT_ASSET,
            s.config.pallet_account,
            p.project_owner,
            milestone_share(p),
        ) is Ok ==> p.remaining_milestones >= 1)
    }
}

/// The storage after the milestone periods of `items` end, in order.
pub open spec fn milestones_fold(s: CpState, items: Seq<CollectionId>, n: BlockNumber) -> CpState
    decreases items.len(),
{
    if items.len() == 0 {
        s
    } else {
        voting_started(milestones_fold(s, items.drop_last(), n), items.last(), n)
    }
}

/// The storage after the votings of `items` end, in order.
pub open spec fn votings_fold(w: CpWorld, items: Seq<CollectionId>, n: BlockNumber) -> CpWorld
    decreases items.len(),
{
    if items.len() == 0 {
        w
    } else {
        voting_step(votings_fold(w, items.drop_last(), n), items.last(), n)
    }
}

/// Whether each voting of `items` ends without a panic.
pub open spec fn votings_safe(w: CpWorld, items: Seq<CollectionId>, n: BlockNumber) -> bool
    decreases items.len(),
{
    items.len() == 0 || (votings_safe(w, items.drop_last(), n) && voting_step_safe(
        votings_fold(w, items.drop_last(), n),
        items.last(),
    ))
}

/// The storage at the start of the votings in the block hook of block `n`.
pub open spec fn before_votings(w: CpWorld, n: BlockNumber) -> CpWorld {
    let s1 = CpState {
        milestone_period_expiring: w.cp.milestone_period_expiring.remove(n),
        ..w.cp
    };
    let s2 = milestones_fold(s1, w.cp.milestone_list(n), n);
    CpWorld {
        cp: CpState { voting_period_expiring: s2.voting_period_expiring.remove(n), ..s2 },
        assets: w.assets,
    }
}

/// The storage after the block hook of block `n`: the milestone periods
/// ending in `n` open their votings, then the votings ending in `n` are
/// decided.
pub open spec fn after_block(w: CpWorld, n: BlockNumber) -> CpWorld {
    let s1 = CpState {
        milestone_period_expiring: w.cp.milestone_period_expiring.remove(n),
        ..w.cp
    };
    let s2 = milestones_fold(s1, w.cp.milestone_list(n), n);
    votings_fold(before_votings(w, n), s2.voting_list(n), n)
}

/// The weight of the block hook that handles `k` periods.
pub open spec fn hook_weight(db: RuntimeDbWeight, k: nat) -> Weight
    decreases k,
{
    if k == 0 {
        db_reads_writes(db, 1, 1)
    } else {
        add_weights(hook_weight(db, (k - 1) as nat), db_reads_writes(db, 1, 1))
    }
}

impl Pallet {
    /// Opens the voting on the current milestone of project `c` at block
    /// `n`, to end ten blocks later.
    fn start_voting_period(&mut self, c: CollectionId, n: BlockNumber) -> (r: Result<(), Error>)
        ensures
            final(self)@ == voting_started(old(self)@, c, n),
    {
        self.ongoing_votes.insert(c, VoteStats { yes_votes: 0, no_votes: 0 });
        let expiry = n.saturating_add(10);
        if !push_bounded(&mut self.voting_period_expiring, expiry, c, self.config.max_ongoing_projects) {
            return Err(Error::TooManyProjects);
        }
        self.events.push(Event::VotingPeriodStarted { collection_index: c });
        Ok(())
    }

    /// Starts the next milestone period of project `c` at block `n`, to end
    /// ten blocks later.
    fn start_milestone_period(&mut self, c: CollectionId, n: BlockNumber) -> (r: Result<(), Error>)
        ensures
            final(self)@ == milestone_started(old(self)@, c, n),
    {
        let expiry = n.saturating_add(10);
        if !push_bounded(&mut self.milestone_period_expiring, expiry, c, self.config.max_ongoing_projects) {
            return Err(Error::TooManyProjects);
        }
        self.events.push(Event::MilestonePeriodStarted { collection_id: c });
        Ok(())
    }

    /// What is left of the funds of project `p`.
    fn remaining_of(p: &ProjectDetails) -> (r: Balance)
        ensures
            r == remaining_funds(*p),
    {
        proof {
            lemma_remaining_within_balance(*p);
        }
        if p.milestones == 0 || p.remaining_milestones > p.milestones {
            p.project_balance
        } else {
            let share = p.project_balance / p.milestones as u128;
            let paid_rounds = (p.milestones - p.remaining_milestones) as u128;
            p.project_balance - share * paid_rounds
        }
    }

    /// Refunds the holders of project `c` their shares of `left` out of
    /// `balance`, in the order they became holders.
    fn refund_holders(&self, assets: &mut Assets, c: CollectionId, left: Balance, balance: Balance)
        requires
            left <= balance,
            forall|h: AccountId| #[trigger] self@.holders(c).contains(h) ==> balance * self@.power_of(c, h)
                <= u128::MAX,
        ensures
            final(assets)@ == refunded(old(assets)@, self@, c, left, balance, self@.holders(c)),
    {
        let holders = self.nft_holder(c);
        let pallet = self.config.pallet_account;
        let mut i: usize = 0;
        while i < holders.len()
            invariant
                i <= holders.len(),
                holders@ == self@.holders(c),
                pallet == self@.config.pallet_account,
                left <= balance,
                forall|h: AccountId| #[trigger] self@.holders(c).contains(h) ==> balance * self@.power_of(c, h)
                    <= u128::MAX,
                assets@ == refunded(old(assets)@, self@, c, left, balance, holders@.take(i as int)),
            decreases holders.len() - i,
        {
            let h = holders[i];
            let power: u64 = match self.voting_power(c, h) {
                Some(x) => x,
                None => 0,
            };
            assert(power == self@.power_of(c, h));
            assert(holders@.contains(h)) by {
                assert(holders@[i as int] == h);
            }
            let amount: Balance = if balance == 0 {
                0
            } else {
                assert(left * power <= balance * power) by (nonlinear_arith)
                    requires
                        left <= balance,
                        power >= 0,
                ;
                left * (power as u128) / balance
            };
            assert(amount == refund_of(left, power, balance));
            let _ = assets.transfer(PAYMENT_ASSET, pallet, h, amount);
            proof {
                assert(holders@.take(i as int + 1).drop_last() =~= holders@.take(i as int));
                assert(holders@.take(i as int + 1).last() == h);
            }
            i = i + 1;
        }
        assert(holders@.take(i as int) =~= holders@);
    }

    /// Ends project `c`; what is left of its funds is refunded to its
    /// holders in proportion to their voting power.
    fn delete_project(&mut self, assets: &mut Assets, c: CollectionId) -> (r: Result<(), Error>)
        requires
            refund_safe(old(self)@, c),
        ensures
            (CpWorld { cp: final(self)@, assets: final(assets)@ }) == deleted(
                CpWorld { cp: old(self)@, assets: old(assets)@ },
                c,
            ),
            r is Err <==> !old(self)@.ongoing_projects.contains_key(c),
    {
        let p = match self.ongoing_projects.get(&c) {
            Some(p) => *p,
            None => {
                return Err(Error::InvalidIndex);
            },
        };
        let left = Self::remaining_of(&p);
        proof {
            lemma_remaining_within_balance(p);
        }
        self.refund_holders(assets, c, left, p.project_balance);
        self.ongoing_projects.remove(&c);
        self.events.push(Event::ProjectDeleted { collection_id: c });
        Ok(())
    }

    /// Pays the share of a milestone of project `c` to its owner.
    fn distribute_funds(&mut self, assets: &mut Assets, c: CollectionId) -> (r: Result<(), Error>)
        requires
            distribute_safe(CpWorld { cp: old(self)@, assets: old(assets)@ }, c),
        ensures
            (CpWorld { cp: final(self)@, assets: final(assets)@ }) == funds_distributed(
                CpWorld { cp: old(self)@, assets: old(assets)@ },
                c,
            ),
    {
        let project = match self.ongoing_projects.remove(&c) {
            Some(p) => p,
            None => {
                proof {
                    assert(self.ongoing_projects@ =~= old(self).ongoing_projects@);
                }
                return Err(Error::InvalidIndex);
            },
        };
        let amount = project.project_balance / project.milestones as u128;
        let pay = amount;
        match assets.transfer(PAYMENT_ASSET, self.config.pallet_account, project.project_owner, pay) {
            Ok(()) => {},
            Err(_) => {
                return Err(Error::NotEnoughFunds);
            },
        }
        let updated = ProjectDetails {
            remaining_milestones: project.remaining_milestones - 1,
            strikes: 0,
            ..project
        };
        self.ongoing_projects.insert(c, updated);
        proof {
            assert(self.ongoing_projects@ =~= old(self)@.ongoing_projects.insert(c, updated));
        }
        self.events.push(
            Event::FundsDestributed { collection_index: c, owner: project.project_owner, amount },
        );
        Ok(())
    }

    /// Gives project `c` a strike; at three strikes it ends.
    fn ckeck_strikes(&mut self, assets: &mut Assets, c: CollectionId) -> (r: Result<(), Error>)
        requires
            old(self)@.ongoing_projects.contains_key(c),
            old(self)@.ongoing_projects[c].strikes < 255,
            refund_safe(old(self)@, c),
        ensures
            (CpWorld { cp: final(self)@, assets: final(assets)@ }) == struck(
                CpWorld { cp: old(self)@, assets: old(assets)@ },
                c,
            ),
    {
        let mut project = match self.ongoing_projects.get(&c) {
            Some(p) => *p,
            None => {
                return Err(Error::InvalidIndex);
            },
        };
        project.strikes = project.strikes + 1;
        self.ongoing_projects.insert(c, project);
        proof {
            lemma_refund_safe_kept(old(self)@, self@, c);
        }
        if project.strikes >= 3 {
            let _ = self.delete_project(assets, c);
        }
        Ok(())
    }

    /// Ends the voting on the milestone of project `c` at block `n`.
    fn process_voting(&mut self, assets: &mut Assets, c: CollectionId, n: BlockNumber)
        requires
            voting_step_safe(CpWorld { cp: old(self)@, assets: old(assets)@ }, c),
        ensures
            (CpWorld { cp: final(self)@, assets: final(assets)@ }) == voting_step(
                CpWorld { cp: old(self)@, assets: old(assets)@ },
                c,
                n,
            ),
    {
        let ghost s = self@;
        let voting_result = self.ongoing_votes.remove(&c);
        match voting_result {
            Some(v) => {
                if v.yes_votes > v.no_votes {
                    let _ = self.distribute_funds(assets, c);
                } else {
                    proof {
                        lemma_refund_safe_kept(s, self@, c);
                    }
                    let _ = self.ckeck_strikes(assets, c);
                }
            },
            None => {
                proof {
                    assert(self.ongoing_votes@ =~= old(self).ongoing_votes@);
                }
            },
        }
        match self.ongoing_projects.get(&c) {
            Some(project) => {
                if project.remaining_milestones >= 1 {
                    let _ = self.start_milestone_period(c, n);
                } else {
                    proof {
                        lemma_refund_safe_kept(s, self@, c);
                    }
                    let _ = self.delete_project(assets, c);
                }
            },
            None => {},
        }
        let ghost m0 = self.voted_user@;
        self.voted_user.remove(&c);
        proof {
            lemma_seq_map_remove(m0, c);
        }
    }

    /// The block hook of block `n`: the milestone periods ending in `n` open
    /// their votings, then the votings ending in `n` are decided. Answers
    /// the weight of the work done.
    pub fn on_initialize(&mut self, assets: &mut Assets, db: RuntimeDbWeight, n: BlockNumber) -> (weight:
        Weight)
        requires
            votings_safe(
                before_votings(CpWorld { cp: old(self)@, assets: old(assets)@ }, n),
                milestones_fold(
                    CpState {
                        milestone_period_expiring: old(self)@.milestone_period_expiring.remove(n),
                        ..old(self)@
                    },
                    old(self)@.milestone_list(n),
                    n,
                ).voting_list(n),
                n,
            ),
        ensures
            (CpWorld { cp: final(self)@, assets: final(assets)@ }) == after_block(
                CpWorld { cp: old(self)@, assets: old(assets)@ },
                n,
            ),
            weight == hook_weight(
                db,
                old(self)@.milestone_list(n).len() + milestones_fold(
                    CpState {
                        milestone_period_expiring: old(self)@.milestone_period_expiring.remove(n),
                        ..old(self)@
                    },
                    old(self)@.milestone_list(n),
                    n,
                ).voting_list(n).len(),
            ),
    {
        let mut weight = db.reads_writes(1, 1);
        let ghost m0 = self.milestone_period_expiring@;
        let ended_milestone = match self.milestone_period_expiring.remove(&n) {
            Some(v) => v,
            None => Vec::new(),
        };
        proof {
            lemma_seq_map_remove(m0, n);
        }
        let ghost items = ended_milestone@;
        let ghost s1 = self@;
        let mut i: usize = 0;
        assert(items.take(0) =~= Seq::<CollectionId>::empty());
        while i < ended_milestone.len()
            invariant
                i <= ended_milestone.len(),
                ended_milestone@ == items,
                self@ == milestones_fold(s1, items.take(i as int), n),
                assets@ == old(assets)@,
                weight == hook_weight(db, i as nat),
            decreases ended_milestone.len() - i,
        {
            weight = weight.saturating_add(db.reads_writes(1, 1));
            let _ = self.start_voting_period(ended_milestone[i], n);
            proof {
                assert(items.take(i as int + 1).drop_last() =~= items.take(i as int));
            }
            i = i + 1;
        }
        assert(items.take(i as int) =~= items);
        let ghost m1 = self.voting_period_expiring@;
        let ended_voting = match self.voting_period_expiring.remove(&n) {
            Some(v) => v,
            None => Vec::new(),
        };
        proof {
            lemma_seq_map_remove(m1, n);
        }
        let ghost vitems = ended_voting@;
        let ghost w0 = CpWorld { cp: self@, assets: assets@ };
        assert(w0 == before_votings(CpWorld { cp: old(self)@, assets: old(assets)@ }, n));
        let mut k: usize = 0;
        assert(vitems.take(0) =~= Seq::<CollectionId>::empty());
        while k < ended_voting.len()
            invariant
                k <= ended_voting.len(),
                ended_voting@ == vitems,
                votings_safe(w0, vitems, n),
                (CpWorld { cp: self@, assets: assets@ }) == votings_fold(w0, vitems.take(k as int), n),
                weight == hook_weight(db, (items.len() + k) as nat),
            decreases ended_voting.len() - k,
        {
            weight = weight.saturating_add(db.reads_writes(1, 1));
            proof {
                assert(vitems.take(k as int + 1).drop_last() =~= vitems.take(k as int));
                lemma_votings_safe_prefix(w0, vitems, (k + 1) as int, n);
            }
            self.process_voting(assets, ended_voting[k], n);
            k = k + 1;
        }
        assert(vitems.take(k as int) =~= vitems);
        weight
    }
}

/// The votings of a prefix of safe items are safe.
proof fn lemma_votings_safe_prefix(w: CpWorld, items: Seq<CollectionId>, k: int, n: BlockNumber)
    requires
        0 <= k <= items.len(),
        votings_safe(w, items, n),
    ensures
        votings_safe(w, items.take(k), n),
    decreases items.len(),
{
    if k == items.len() {
        assert(items.take(k) =~= items);
    } else {
        assert(items.drop_last().take(k) =~= items.take(k));
        lemma_votings_safe_prefix(w, items.drop_last(), k, n);
    }
}

/// Converts a `u64` into a balance; every `u64` fits.
pub fn u64_to_balance_option(input: u64) -> (r: Result<Balance, Error>)
    ensures
        r == Ok::<Balance, Error>(input as Balance),
{
    Ok(input as Balance)
}

impl Pallet {
    /// The NFTs listed, oldest first.
    pub fn listed_nfts(&self) -> (r: Vec<(CollectionId, ItemId)>)
        ensures
            r@ == self@.listed_nfts,
    {
        let mut out: Vec<(CollectionId, ItemId)> = Vec::new();
        let mut i: usize = 0;
        while i < self.listed_nfts.len()
            invariant
                i <= self.listed_nfts.len(),
                out@ == self@.listed_nfts.take(i as int),
            decreases self.listed_nfts.len() - i,
        {
            out.push(self.listed_nfts[i]);
            proof {
                assert(out@ =~= self@.listed_nfts.take(i as int + 1));
            }
            i = i + 1;
        }
        assert(self@.listed_nfts.take(i as int) =~= self@.listed_nfts);
        out
    }

    /// An NFT for sale.
    pub fn ongoing_nft_details(&self, c: CollectionId, i: ItemId) -> (r: Option<NftDetails>)
        ensures
            r == (if self@.ongoing_nft_details.contains_key(item_key(c, i)) {
                Some(self@.ongoing_nft_details[item_key(c, i)])
            } else {
                None::<NftDetails>
            }),
    {
        match self.ongoing_nft_details.get(&pair_key(c as u64, i as u64)) {
            Some(d) => Some(*d),
            None => None,
        }
    }

    /// A project.
    pub fn ongoing_projects(&self, c: CollectionId) -> (r: Option<ProjectDetails>)
        ensures
            r == (if self@.ongoing_projects.contains_key(c) {
                Some(self@.ongoing_projects[c])
            } else {
                None::<ProjectDetails>
            }),
    {
        match self.ongoing_projects.get(&c) {
            Some(p) => Some(*p),
            None => None,
        }
    }

    /// The NFTs of a project still listed.
    pub fn listed_nfts_of_collection(&self, c: CollectionId) -> (r: Vec<ItemId>)
        ensures
            r@ == self@.collection_list(c),
    {
        match self.listed_nfts_of_collection.get(&c) {
            Some(v) => v.clone(),
            None => Vec::new(),
        }
    }

    /// The tally of the milestone vote of a project.
    pub fn ongoing_votes(&self, c: CollectionId) -> (r: Option<VoteStats>)
        ensures
            r == (if self@.ongoing_votes.contains_key(c) {
                Some(self@.ongoing_votes[c])
            } else {
                None::<VoteStats>
            }),
    {
        match self.ongoing_votes.get(&c) {
            Some(v) => Some(*v),
            None => None,
        }
    }

    /// Who voted on the current milestone of a project.
    pub fn voted_user(&self, c: CollectionId) -> (r: Vec<AccountId>)
        ensures
            r@ == self@.voters(c),
    {
        match self.voted_user.get(&c) {
            Some(v) => v.clone(),
            None => Vec::new(),
        }
    }

    /// The holders of a project's NFTs.
    pub fn nft_holder(&self, c: CollectionId) -> (r: Vec<AccountId>)
        ensures
            r@ == self@.holders(c),
    {
        match self.nft_holder.get(&c) {
            Some(v) => v.clone(),
            None => Vec::new(),
        }
    }

    /// The voting power of `who` in a project, if it has any.
    pub fn voting_power(&self, c: CollectionId, who: AccountId) -> (r: Option<u64>)
        ensures
            r == (if self@.voting_power.contains_key(power_key(c, who)) {
                Some(self@.voting_power[power_key(c, who)])
            } else {
                None::<u64>
            }),
    {
        match self.voting_power.get(&pair_key(c as u64, who)) {
            Some(v) => Some(*v),
            None => None,
        }
    }

    /// The projects whose milestone period ends in `block`.
    pub fn milestone_period_expiring(&self, block: BlockNumber) -> (r: Vec<CollectionId>)
        ensures
            r@ == self@.milestone_list(block),
    {
        match self.milestone_period_expiring.get(&block) {
            Some(v) => v.clone(),
            None => Vec::new(),
        }
    }

    /// The projects whose voting ends in `block`.
    pub fn voting_period_expiring(&self, block: BlockNumber) -> (r: Vec<CollectionId>)
        ensures
            r@ == self@.voting_list(block),
    {
        match self.voting_period_expiring.get(&block) {
            Some(v) => v.clone(),
            None => Vec::new(),
        }
    }

    /// The events deposited so far, oldest first.
    pub fn events(&self) -> (r: &Vec<Event>)
        ensures
            r@ == self@.events,
    {
        &self.events
    }
}
/// Deciding the voting on project `c` closes it.
proof fn lemma_voting_step_closes(w: CpWorld, c: CollectionId, n: BlockNumber)
    ensures
        voting_step(w, c, n).cp.ongoing_votes == w.cp.ongoing_votes.remove(c),
{
    if !w.cp.ongoing_votes.contains_key(c) {
        assert(w.cp.ongoing_votes.remove(c) =~= w.cp.ongoing_votes);
    }
}

/// Deciding the votings on the projects `items` closes exactly them.
proof fn lemma_votings_fold_closes(w: CpWorld, items: Seq<CollectionId>, n: BlockNumber)
    ensures
        forall|c: CollectionId|
            #[trigger] votings_fold(w, items, n).cp.ongoing_votes.contains_key(c) <==> (
            w.cp.ongoing_votes.contains_key(c) && !items.contains(c)),
    decreases items.len(),
{
    if items.len() > 0 {
        let rest = items.drop_last();
        lemma_votings_fold_closes(w, rest, n);
        lemma_voting_step_closes(votings_fold(w, rest, n), items.last(), n);
        assert forall|c: CollectionId| items.contains(c) <==> (rest.contains(c) || c == items.last()) by {
            if items.contains(c) {
                let k = choose|k: int| 0 <= k < items.len() && items[k] == c;
                if k < items.len() - 1 {
                    assert(rest[k] == c);
                }
            }
            if rest.contains(c) {
                let k = choose|k: int| 0 <= k < rest.len() && rest[k] == c;
                assert(items[k] == c);
            }
            if c == items.last() {
                assert(items[items.len() - 1] == c);
            }
        }
    }
}

/// Opening votings only adds to the lists of votings that end in a block.
proof fn lemma_milestones_fold_keeps_votings(s: CpState, items: Seq<CollectionId>, n: BlockNumber, b: BlockNumber)
    ensures
        forall|c: CollectionId|
            s.voting_list(b).contains(c) ==> #[trigger] milestones_fold(s, items, n).voting_list(b).contains(c),
    decreases items.len(),
{
    if items.len() > 0 {
        let rest = items.drop_last();
        lemma_milestones_fold_keeps_votings(s, rest, n, b);
        let m = milestones_fold(s, rest, n);
        assert forall|c: CollectionId| m.voting_list(b).contains(c) implies #[trigger] voting_started(
            m,
            items.last(),
            n,
        ).voting_list(b).contains(c) by {
            let k = choose|k: int| 0 <= k < m.voting_list(b).len() && m.voting_list(b)[k] == c;
            let e = add_held_u64(n, 10);
            let m1 = CpState {
                ongoing_votes: m.ongoing_votes.insert(items.last(), VoteStats { yes_votes: 0, no_votes: 0 }),
                ..m
            };
            if b == e && m1.voting_list(e).len() < m.config.max_ongoing_projects {
                assert(m1.voting_list(e).push(items.last())[k] == c);
            }
        }
    }
}

/// The block hook of block `n` decides every voting on a milestone that
/// ends in `n`: none of their tallies is open after it.
pub proof fn law_block_hook_closes_ended_votings(w: CpWorld, n: BlockNumber)
    ensures
        forall|c: CollectionId|
            w.cp.voting_list(n).contains(c) ==> !(#[trigger] after_block(w, n).cp.ongoing_votes.contains_key(c)),
{
    let s1 = CpState { milestone_period_expiring: w.cp.milestone_period_expiring.remove(n), ..w.cp };
    let s2 = milestones_fold(s1, w.cp.milestone_list(n), n);
    lemma_milestones_fold_keeps_votings(s1, w.cp.milestone_list(n), n, n);
    assert(s1.voting_list(n) == w.cp.voting_list(n));
    lemma_votings_fold_closes(before_votings(w, n), s2.voting_list(n), n);
}
} // verus!
