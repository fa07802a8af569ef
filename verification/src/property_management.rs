use std::collections::HashMap;
use vstd::prelude::*;

use crate::assets::AssetId;
use crate::common::{
    view_map,
    ensure_signed, get_or, lemma_seq_map_insert, seq_map, vec_contains, vec_position, AccountId,
    Balance, Origin,
};
use crate::ledger::{Ledger, LedgerError, LedgerState};
use crate::marketplace::{self, MarketState};
use crate::nfts::{item_key, CollectionId, ItemId};

verus! {

broadcast use vstd::std_specs::hash::group_hash_axioms;

/// A letting agent: the region it works in and the properties it manages.
#[derive(Clone, Debug, PartialEq, Eq)]
pub struct LettingAgentInfo {
    pub account: AccountId,
    pub location: u32,
    pub assigned_properties: Vec<u32>,
    pub deposited: bool,
}

/// A letting agent, with its properties as a sequence.
pub struct LettingAgentInfoView {
    pub account: AccountId,
    pub location: u32,
    pub assigned_properties: Seq<u32>,
    pub deposited: bool,
}

impl LettingAgentInfo {
    /// A copy of this record.
    pub fn duplicate(&self) -> (r: LettingAgentInfo)
        ensures
            r@ == self@,
    {
        LettingAgentInfo {
            account: self.account,
            location: self.location,
            assigned_properties: self.assigned_properties.clone(),
            deposited: self.deposited,
        }
    }
}

impl View for LettingAgentInfo {
    type V = LettingAgentInfoView;

    open spec fn view(&self) -> LettingAgentInfoView {
        LettingAgentInfoView {
            account: self.account,
            location: self.location,
            assigned_properties: self.assigned_properties@,
            deposited: self.deposited,
        }
    }
}

/// Events of the property management.
#[derive(Clone, Copy, Debug, PartialEq, Eq, Structural)]
pub enum Event {
    /// A new letting agent got set.
    LettingAgentAdded { location: u32, who: AccountId },
    /// A letting agent deposited the necessary funds.
    Deposited { who: AccountId },
    /// A letting agent has been added to a property.
    LettingAgentSet { asset_id: u32, who: AccountId },
    /// The rental income has been distributed.
    IncomeDistributed { asset_id: u32, amount: Balance },
    /// A user withdrew funds.
    WithdrawFunds { who: AccountId, amount: Balance },
}

/// Why a property management call was refused.
#[derive(Clone, Copy, Debug, PartialEq, Eq, Structural)]
pub enum Error {
    /// The origin may not make this call.
    BadOrigin,
    NoneValue,
    StorageOverflow,
    /// Error by convertion to balance type.
    ConversionError,
    /// Error by dividing a number.
    DivisionError,
    /// Error by multiplying a number.
    MultiplyError,
    ArithmeticOverflow,
    /// One person in the list is not an owner of the property.
    UserNotPropertyOwner,
    /// The call has no funds stored.
    UserHasNoFundsStored,
    /// The pallet has not enough funds.
    NotEnoughFunds,
    /// The letting agent already has too many assigned properties.
    TooManyAssignedProperties,
    /// No letting agent could be selected.
    NoLettingAgentFound,
    /// The location is not registered.
    LocationUnknown,
    /// The location has already the maximum amount of letting agents.
    TooManyLettingAgents,
    /// The user is not a property owner and has no permission to deposit.
    NoPermission,
    /// The letting agent of this property is already set.
    LettingAgentAlreadySet,
    /// The nft could not be found.
    NoNftFound,
    /// The account is not a letting agent of this location.
    AgentNotFound,
    /// The letting already deposited the necessary amount.
    AlreadyDeposited,
    /// A movement of the native currency was refused.
    Ledger(LedgerError),
}

/// The storage of the property management, read as mathematical maps.
/// Letting agents work in a location, which is a region of the marketplace.
pub struct PmState {
    pub pallet_account: AccountId,
    pub min_staking_amount: Balance,
    pub max_properties: u32,
    pub max_letting_agents: u32,
    pub letting_storage: Map<u32, AccountId>,
    pub stored_funds: Map<AccountId, Balance>,
    pub letting_info: Map<AccountId, LettingAgentInfoView>,
    pub letting_agent_locations: Map<u32, Seq<AccountId>>,
    pub property_reserve: Map<u32, Balance>,
    pub property_debts: Map<u32, Balance>,
    pub events: Seq<Event>,
}

/// Whether `a` comes before `b` in the lexicographic order of sequences.
pub open spec fn lex_lt(a: Seq<u32>, b: Seq<u32>) -> bool
    decreases a.len(),
{
    if b.len() == 0 {
        false
    } else if a.len() == 0 {
        true
    } else if a[0] != b[0] {
        a[0] < b[0]
    } else {
        lex_lt(a.drop_first(), b.drop_first())
    }
}

/// No sequence comes before itself.
pub proof fn lemma_lex_lt_irreflexive(a: Seq<u32>)
    ensures
        !lex_lt(a, a),
    decreases a.len(),
{
    if a.len() > 0 {
        lemma_lex_lt_irreflexive(a.drop_first());
    }
}

/// The lexicographic order is transitive.
pub proof fn lemma_lex_lt_transitive(a: Seq<u32>, b: Seq<u32>, c: Seq<u32>)
    requires
        lex_lt(a, b),
        lex_lt(b, c),
    ensures
        lex_lt(a, c),
    decreases a.len(),
{
    if a.len() > 0 && b.len() > 0 && c.len() > 0 && a[0] == b[0] && b[0] == c[0] {
        lemma_lex_lt_transitive(a.drop_first(), b.drop_first(), c.drop_first());
    }
}

impl PmState {
    /// The letting agents of a location that deposited, in order.
    pub open spec fn agents(self, location: u32) -> Seq<AccountId> {
        get_or(self.letting_agent_locations, location, Seq::empty())
    }

    /// The funds stored for `who`.
    pub open spec fn funds_of(self, who: AccountId) -> Balance {
        get_or(self.stored_funds, who, 0)
    }

    /// The reserve held for a property.
    pub open spec fn reserve_of(self, asset: u32) -> Balance {
        get_or(self.property_reserve, asset, 0)
    }

    /// The debts of a property.
    pub open spec fn debts_of(self, asset: u32) -> Balance {
        get_or(self.property_debts, asset, 0)
    }

    /// The properties assigned to a letting agent.
    pub open spec fn assigned(self, agent: AccountId) -> Seq<u32> {
        self.letting_info[agent].assigned_properties
    }

    /// Every agent of a location is a known letting agent.
    pub open spec fn wf(self) -> bool {
        forall|loc: u32, i: int|
            0 <= i < self.agents(loc).len() ==> self.letting_info.contains_key(
                #[trigger] self.agents(loc)[i],
            )
    }

    /// The position, among the first `n` agents of `agents`, of the first
    /// one whose list of assigned properties comes first in the
    /// lexicographic order of lists (the order in which the lists of
    /// property ids themselves are compared, not their lengths).
    pub open spec fn lex_least_index(self, agents: Seq<AccountId>, n: nat) -> int
        decreases n,
    {
        if n <= 1 {
            0
        } else {
            let m = self.lex_least_index(agents, (n - 1) as nat);
            if lex_lt(self.assigned(agents[n - 1]), self.assigned(agents[m])) {
                n - 1
            } else {
                m
            }
        }
    }

    /// The agent of a location that gets the next property there.
    pub open spec fn chosen_agent(self, location: u32) -> AccountId {
        let agents = self.agents(location);
        agents[self.lex_least_index(agents, agents.len())]
    }

    /// What selecting a letting agent for `asset_id` in `location` answers.
    pub open spec fn select_outcome(self, location: u32) -> Result<(), Error> {
        if self.agents(location).len() == 0 {
            Err(Error::NoLettingAgentFound)
        } else if self.assigned(self.chosen_agent(location)).len() >= self.max_properties {
            Err(Error::TooManyAssignedProperties)
        } else {
            Ok(())
        }
    }

    /// The storage after the agent chosen in `location` takes `asset_id`.
    pub open spec fn after_select(self, location: u32, asset_id: u32) -> PmState {
        let agent = self.chosen_agent(location);
        let info = self.letting_info[agent];
        PmState {
            letting_storage: self.letting_storage.insert(asset_id, agent),
            letting_info: self.letting_info.insert(
                agent,
                LettingAgentInfoView {
                    assigned_properties: info.assigned_properties.push(asset_id),
                    ..info
                },
            ),
            events: self.events.push(Event::LettingAgentSet { asset_id, who: agent }),
            ..self
        }
    }
}

impl PmState {
    /// The storage after an attempt to choose an agent of `location` for
    /// `asset_id`, whatever its outcome: where the agent has too many
    /// properties, the property still records it.
    pub open spec fn after_select_attempt(self, location: u32, asset_id: u32) -> PmState {
        if self.agents(location).len() == 0 {
            self
        } else if self.assigned(self.chosen_agent(location)).len() >= self.max_properties {
            PmState {
                letting_storage: self.letting_storage.insert(asset_id, self.chosen_agent(location)),
                ..self
            }
        } else {
            self.after_select(location, asset_id)
        }
    }

    /// The storage after taking `agent` out of the agents of `location`,
    /// where it is one of them.
    pub open spec fn after_remove_agent(self, location: u32, agent: AccountId) -> PmState {
        if self.agents(location).contains(agent) {
            PmState {
                letting_agent_locations: self.letting_agent_locations.insert(
                    location,
                    self.agents(location).remove_value(agent),
                ),
                ..self
            }
        } else {
            self
        }
    }
}

/// The chosen index lies among the first `n` agents, and no agent among
/// them has a list of assigned properties that comes before its list.
pub proof fn lemma_lex_least(s: PmState, agents: Seq<AccountId>, n: nat)
    requires
        1 <= n,
    ensures
        0 <= s.lex_least_index(agents, n) < n,
        forall|j: int|
            0 <= j < n ==> !lex_lt(
                #[trigger] s.assigned(agents[j]),
                s.assigned(agents[s.lex_least_index(agents, n)]),
            ),
    decreases n,
{
    let m = s.lex_least_index(agents, n);
    if n == 1 {
        lemma_lex_lt_irreflexive(s.assigned(agents[0]));
    } else {
        lemma_lex_least(s, agents, (n - 1) as nat);
        let p = s.lex_least_index(agents, (n - 1) as nat);
        let x = s.assigned(agents[n - 1]);
        if lex_lt(x, s.assigned(agents[p])) {
            assert forall|j: int| 0 <= j < n implies !lex_lt(
                #[trigger] s.assigned(agents[j]),
                x,
            ) by {
                if j == n - 1 {
                    lemma_lex_lt_irreflexive(x);
                } else if lex_lt(s.assigned(agents[j]), x) {
                    lemma_lex_lt_transitive(s.assigned(agents[j]), x, s.assigned(agents[p]));
                }
            }
        }
    }
}

/// The chosen letting agent of a location is one of its agents, and no
/// agent's list of assigned properties comes before the chosen agent's list
/// in the lexicographic order of lists.
pub proof fn law_chosen_agent_is_lex_least(s: PmState, location: u32)
    requires
        s.agents(location).len() > 0,
    ensures
        s.agents(location).contains(s.chosen_agent(location)),
        forall|j: int|
            0 <= j < s.agents(location).len() ==> !lex_lt(
                #[trigger] s.assigned(s.agents(location)[j]),
                s.assigned(s.chosen_agent(location)),
            ),
{
    let agents = s.agents(location);
    lemma_lex_least(s, agents, agents.len());
    assert(agents[s.lex_least_index(agents, agents.len())] == s.chosen_agent(location));
}

/// Well-formedness depends only on the letting agents and their locations.
proof fn lemma_wf_same_agents(a: PmState, b: PmState)
    requires
        a.wf(),
        a.letting_info == b.letting_info,
        a.letting_agent_locations == b.letting_agent_locations,
    ensures
        b.wf(),
{
    assert forall|loc: u32, i: int|
        0 <= i < b.agents(loc).len() implies b.letting_info.contains_key(
        #[trigger] b.agents(loc)[i],
    ) by {
        assert(a.agents(loc) == b.agents(loc));
    }
}

/// The property management: letting agents, their deposits and the rental
/// income stored for property owners.
pub struct Pallet {
    pallet_account: AccountId,
    min_staking_amount: Balance,
    max_properties: u32,
    max_letting_agents: u32,
    letting_storage: HashMap<u32, AccountId>,
    stored_funds: HashMap<AccountId, Balance>,
    letting_info: HashMap<AccountId, LettingAgentInfo>,
    letting_agent_locations: HashMap<u32, Vec<AccountId>>,
    property_reserve: HashMap<u32, Balance>,
    property_debts: HashMap<u32, Balance>,
    events: Vec<Event>,
}

impl View for Pallet {
    type V = PmState;

    closed spec fn view(&self) -> PmState {
        PmState {
            pallet_account: self.pallet_account,
            min_staking_amount: self.min_staking_amount,
            max_properties: self.max_properties,
            max_letting_agents: self.max_letting_agents,
            letting_storage: self.letting_storage@,
            stored_funds: self.stored_funds@,
            letting_info: view_map(self.letting_info@),
            letting_agent_locations: seq_map(self.letting_agent_locations@),
            property_reserve: self.property_reserve@,
            property_debts: self.property_debts@,
            events: self.events@,
        }
    }
}

/// Converts a `u64` into a balance; every `u64` fits.
pub fn u64_to_balance_option(input: u64) -> (r: Result<Balance, Error>)
    ensures
        r == Ok::<Balance, Error>(input as Balance),
{
    Ok(input as Balance)
}

/// Whether `a` comes before `b` in the lexicographic order.
pub fn lex_less(a: &Vec<u32>, b: &Vec<u32>) -> (r: bool)
    ensures
        r == lex_lt(a@, b@),
{
    let mut i: usize = 0;
    assert(a@.skip(0) =~= a@);
    assert(b@.skip(0) =~= b@);
    while i < a.len() && i < b.len()
        invariant
            i <= a.len(),
            i <= b.len(),
            lex_lt(a@, b@) == lex_lt(a@.skip(i as int), b@.skip(i as int)),
        decreases a.len() - i,
    {
        if a[i] != b[i] {
            assert(a@.skip(i as int)[0] == a@[i as int]);
            assert(b@.skip(i as int)[0] == b@[i as int]);
            return a[i] < b[i];
        }
        assert(a@.skip(i as int).drop_first() =~= a@.skip(i as int + 1));
        assert(b@.skip(i as int).drop_first() =~= b@.skip(i as int + 1));
        i = i + 1;
    }
    i < b.len()
}

impl Pallet {
    /// A property management with empty storage.
    pub fn new(
        pallet_account: AccountId,
        min_staking_amount: Balance,
        max_properties: u32,
        max_letting_agents: u32,
    ) -> (p: Pallet)
        ensures
            p@ == (PmState {
                pallet_account,
                min_staking_amount,
                max_properties,
                max_letting_agents,
                letting_storage: Map::empty(),
                stored_funds: Map::empty(),
                letting_info: Map::empty(),
                letting_agent_locations: Map::empty(),
                property_reserve: Map::empty(),
                property_debts: Map::empty(),
                events: Seq::empty(),
            }),
            p@.wf(),
    {
        let p = Pallet {
            pallet_account,
            min_staking_amount,
            max_properties,
            max_letting_agents,
            letting_storage: HashMap::new(),
            stored_funds: HashMap::new(),
            letting_info: HashMap::new(),
            letting_agent_locations: HashMap::new(),
            property_reserve: HashMap::new(),
            property_debts: HashMap::new(),
            events: Vec::new(),
        };
        assert(view_map(p.letting_info@) =~= Map::empty());
        assert(seq_map(p.letting_agent_locations@) =~= Map::empty());
        p
    }

    /// The account of the property management.
    pub fn account_id(&self) -> (r: AccountId)
        ensures
            r == self@.pallet_account,
    {
        self.pallet_account
    }

    /// What `add_letting_agent` answers.
    pub open spec fn add_letting_agent_outcome(market: MarketState, origin: Origin, location: u32) -> Result<
        (),
        Error,
    > {
        if !(origin is Root) {
            Err(Error::BadOrigin)
        } else if !market.region_collections.contains_key(location) {
            Err(Error::LocationUnknown)
        } else {
            Ok(())
        }
    }

    /// Registers a letting agent for a location, with no properties and no
    /// deposit yet. Only the root origin may call.
    pub fn add_letting_agent(
        &mut self,
        market: &marketplace::Pallet,
        origin: Origin,
        location: u32,
        letting_agent: AccountId,
    ) -> (r: Result<(), Error>)
        requires
            old(self)@.wf(),
        ensures
            final(self)@.wf(),
            r == Self::add_letting_agent_outcome(market@, origin, location),
            r is Err ==> final(self)@ == old(self)@,
            r is Ok ==> final(self)@ == (PmState {
                letting_info: old(self)@.letting_info.insert(
                    letting_agent,
                    LettingAgentInfoView {
                        account: letting_agent,
                        location,
                        assigned_properties: Seq::empty(),
                        deposited: false,
                    },
                ),
                events: old(self)@.events.push(Event::LettingAgentAdded { location, who: letting_agent }),
                ..old(self)@
            }),
    {
        match origin {
            Origin::Root => {},
            Origin::Signed(_) => {
                return Err(Error::BadOrigin);
            },
        }
        if market.region_collections(location).is_none() {
            return Err(Error::LocationUnknown);
        }
        let info = LettingAgentInfo {
            account: letting_agent,
            location,
            assigned_properties: Vec::new(),
            deposited: false,
        };
        self.letting_info.insert(letting_agent, info);
        self.events.push(Event::LettingAgentAdded { location, who: letting_agent });
        proof {
            assert(view_map(self.letting_info@) =~= old(self)@.letting_info.insert(
                letting_agent,
                info@,
            ));
            assert(self@.letting_agent_locations == old(self)@.letting_agent_locations);
            assert forall|loc: u32, i: int|
                0 <= i < self@.agents(loc).len() implies self@.letting_info.contains_key(
                #[trigger] self@.agents(loc)[i],
            ) by {
                assert(old(self)@.agents(loc) == self@.agents(loc));
            }
        }
        Ok(())
    }

    /// What `letting_agent_deposit` answers.
    pub open spec fn deposit_outcome(s: PmState, ledger: LedgerState, origin: Origin) -> Result<
        (),
        Error,
    > {
        match origin {
            Origin::Root => Err(Error::BadOrigin),
            Origin::Signed(who) => match ledger.reserve_outcome(who, s.min_staking_amount) {
                Err(e) => Err(Error::Ledger(e)),
                Ok(()) => if !s.letting_info.contains_key(who) {
                    Err(Error::NoPermission)
                } else if s.agents(s.letting_info[who].location).contains(who) {
                    Err(Error::AlreadyDeposited)
                } else if s.agents(s.letting_info[who].location).len() >= s.max_letting_agents {
                    Err(Error::TooManyLettingAgents)
                } else {
                    Ok(())
                },
            },
        }
    }

    /// A registered letting agent reserves the staking amount, which can be
    /// slashed, and joins the agents of its location.
    pub fn letting_agent_deposit(&mut self, ledger: &mut Ledger, origin: Origin) -> (r: Result<(), Error>)
        requires
            old(self)@.wf(),
        ensures
            final(self)@.wf(),
            r == Self::deposit_outcome(old(self)@, old(ledger)@, origin),
            r is Err ==> final(self)@ == old(self)@ && final(ledger)@ == old(ledger)@,
            r is Ok ==> {
                let s = old(self)@;
                let who = origin->Signed_0;
                let info = s.letting_info[who];
                &&& final(ledger)@ == old(ledger)@.after_reserve(who, s.min_staking_amount)
                &&& final(self)@ == (PmState {
                    letting_info: s.letting_info.insert(
                        who,
                        LettingAgentInfoView { deposited: true, ..info },
                    ),
                    letting_agent_locations: s.letting_agent_locations.insert(
                        info.location,
                        s.agents(info.location).push(who),
                    ),
                    events: s.events.push(Event::Deposited { who }),
                    ..s
                })
            },
    {
        let who = match ensure_signed(origin) {
            Some(a) => a,
            None => {
                return Err(Error::BadOrigin);
            },
        };
        let ghost s = self@;
        match ledger.check_reserve(who, self.min_staking_amount) {
            Ok(()) => {},
            Err(e) => {
                return Err(Error::Ledger(e));
            },
        }
        let mut info = match self.letting_info.get(&who) {
            Some(i) => i.duplicate(),
            None => {
                return Err(Error::NoPermission);
            },
        };
        assert(info@ == s.letting_info[who]);
        let location = info.location;
        let mut agents = match self.letting_agent_locations.get(&location) {
            Some(v) => v.clone(),
            None => Vec::new(),
        };
        assert(agents@ == s.agents(location));
        if vec_contains(&agents, who) {
            return Err(Error::AlreadyDeposited);
        }
        if agents.len() as u64 >= self.max_letting_agents as u64 {
            return Err(Error::TooManyLettingAgents);
        }
        let _ = ledger.reserve(who, self.min_staking_amount);
        agents.push(who);
        let ghost new_agents = agents@;
        self.letting_agent_locations.insert(location, agents);
        info.deposited = true;
        self.letting_info.insert(who, info);
        self.events.push(Event::Deposited { who });
        proof {
            lemma_seq_map_insert(old(self).letting_agent_locations@, location, agents);
            assert(view_map(self.letting_info@) =~= s.letting_info.insert(who, info@));
            assert(seq_map(self.letting_agent_locations@) =~= s.letting_agent_locations.insert(
                location,
                new_agents,
            ));
            assert forall|loc: u32, i: int|
                0 <= i < self@.agents(loc).len() implies self@.letting_info.contains_key(
                #[trigger] self@.agents(loc)[i],
            ) by {
                if loc == location {
                    if i < s.agents(loc).len() {
                        assert(s.agents(loc)[i] == self@.agents(loc)[i]);
                    }
                } else {
                    assert(s.agents(loc) == self@.agents(loc));
                }
            }
        }
        Ok(())
    }
}


impl Pallet {
    /// The letting agent of `location` chosen for `asset_id`: the agents
    /// are compared by their lists of assigned properties, in the
    /// lexicographic order of lists, and the first one whose list comes
    /// first takes the property.
    pub fn selects_letting_agent(&mut self, location: u32, asset_id: u32) -> (r: Result<(), Error>)
        requires
            old(self)@.wf(),
        ensures
            final(self)@.wf(),
            r == old(self)@.select_outcome(location),
            r == Err::<(), Error>(Error::NoLettingAgentFound) ==> final(self)@ == old(self)@,
            r == Err::<(), Error>(Error::TooManyAssignedProperties) ==> final(self)@ == (PmState {
                letting_storage: old(self)@.letting_storage.insert(
                    asset_id,
                    old(self)@.chosen_agent(location),
                ),
                ..old(self)@
            }),
            r is Ok ==> final(self)@ == old(self)@.after_select(location, asset_id),
    {
        let ghost s = self@;
        let agents = match self.letting_agent_locations.get(&location) {
            Some(v) => v.clone(),
            None => Vec::new(),
        };
        assert(agents@ == s.agents(location));
        if agents.len() == 0 {
            return Err(Error::NoLettingAgentFound);
        }
        let mut best: usize = 0;
        let mut i: usize = 1;
        while i < agents.len()
            invariant
                1 <= i <= agents.len(),
                best < i,
                best as int == s.lex_least_index(agents@, i as nat),
                agents@ == s.agents(location),
                s.wf(),
                self@ == s,
            decreases agents.len() - i,
        {
            assert(s.letting_info.contains_key(s.agents(location)[i as int]));
            assert(s.letting_info.contains_key(s.agents(location)[best as int]));
            let cand = match self.letting_info.get(&agents[i]) {
                Some(x) => x,
                None => {
                    return Err(Error::AgentNotFound);
                },
            };
            let cur = match self.letting_info.get(&agents[best]) {
                Some(x) => x,
                None => {
                    return Err(Error::AgentNotFound);
                },
            };
            assert(cand@ == s.letting_info[agents@[i as int]]);
            assert(cur@ == s.letting_info[agents@[best as int]]);
            if lex_less(&cand.assigned_properties, &cur.assigned_properties) {
                best = i;
            }
            i = i + 1;
        }
        let agent = agents[best];
        assert(agent == s.chosen_agent(location));
        assert(s.letting_info.contains_key(s.agents(location)[best as int]));
        let mut info = match self.letting_info.get(&agent) {
            Some(x) => x.duplicate(),
            None => {
                return Err(Error::AgentNotFound);
            },
        };
        assert(info@ == s.letting_info[agent]);
        self.letting_storage.insert(asset_id, agent);
        if info.assigned_properties.len() as u64 >= self.max_properties as u64 {
            proof {
                lemma_wf_same_agents(s, self@);
            }
            return Err(Error::TooManyAssignedProperties);
        }
        info.assigned_properties.push(asset_id);
        let ghost new_info = info@;
        self.letting_info.insert(agent, info);
        self.events.push(Event::LettingAgentSet { asset_id, who: agent });
        proof {
            assert(view_map(self.letting_info@) =~= s.letting_info.insert(agent, new_info));
            assert(self@ == s.after_select(location, asset_id));
            assert forall|loc: u32, j: int|
                0 <= j < self@.agents(loc).len() implies self@.letting_info.contains_key(
                #[trigger] self@.agents(loc)[j],
            ) by {
                assert(s.agents(loc) == self@.agents(loc));
            }
        }
        Ok(())
    }

    /// Takes a letting agent out of the agents of a location; it keeps the
    /// properties it has.
    pub fn remove_bad_letting_agent(&mut self, location: u32, agent: AccountId) -> (r: Result<(), Error>)
        requires
            old(self)@.wf(),
        ensures
            final(self)@.wf(),
            r == (if old(self)@.agents(location).contains(agent) {
                Ok::<(), Error>(())
            } else {
                Err(Error::AgentNotFound)
            }),
            r is Err ==> final(self)@ == old(self)@,
            r is Ok ==> final(self)@ == (PmState {
                letting_agent_locations: old(self)@.letting_agent_locations.insert(
                    location,
                    old(self)@.agents(location).remove_value(agent),
                ),
                ..old(self)@
            }),
    {
        let ghost s = self@;
        let mut agents = match self.letting_agent_locations.get(&location) {
            Some(v) => v.clone(),
            None => Vec::new(),
        };
        let ghost o = agents@;
        assert(o == s.agents(location));
        let idx = match vec_position(&agents, agent) {
            Some(i) => i,
            None => {
                return Err(Error::AgentNotFound);
            },
        };
        proof {
            o.index_of_first_ensures(agent);
            let f = o.index_of_first(agent)->Some_0;
            assert(f == idx as int) by {
                if f < idx as int {
                    assert(o[f] == agent);
                } else if f > idx as int {
                    assert(o[idx as int] == agent);
                }
            }
        }
        agents.remove(idx);
        let ghost rest = agents@;
        assert(rest == o.remove_value(agent));
        self.letting_agent_locations.insert(location, agents);
        proof {
            lemma_seq_map_insert(old(self).letting_agent_locations@, location, agents);
            assert forall|loc: u32, j: int|
                0 <= j < self@.agents(loc).len() implies self@.letting_info.contains_key(
                #[trigger] self@.agents(loc)[j],
            ) by {
                if loc == location {
                    if j < idx {
                        assert(self@.agents(loc)[j] == s.agents(loc)[j]);
                    } else {
                        assert(self@.agents(loc)[j] == s.agents(loc)[j + 1]);
                    }
                } else {
                    assert(s.agents(loc) == self@.agents(loc));
                }
            }
        }
        Ok(())
    }

    /// What `set_letting_agent` answers.
    pub open spec fn set_letting_agent_outcome(
        s: PmState,
        market: MarketState,
        origin: Origin,
        collection_id: CollectionId,
        item_id: ItemId,
    ) -> Result<(), Error> {
        if !(origin is Signed) {
            Err(Error::BadOrigin)
        } else if !market.registered_nft_details.contains_key(item_key(collection_id, item_id)) {
            Err(Error::NoNftFound)
        } else {
            let d = market.registered_nft_details[item_key(collection_id, item_id)];
            if s.letting_storage.contains_key(d.asset_id) {
                Err(Error::LettingAgentAlreadySet)
            } else {
                s.select_outcome(d.region)
            }
        }
    }

    /// Gives a registered property without a letting agent the agent of its
    /// region chosen by `selects_letting_agent`.
    pub fn set_letting_agent(
        &mut self,
        market: &marketplace::Pallet,
        origin: Origin,
        collection_id: CollectionId,
        item_id: ItemId,
    ) -> (r: Result<(), Error>)
        requires
            old(self)@.wf(),
        ensures
            final(self)@.wf(),
            r == Self::set_letting_agent_outcome(old(self)@, market@, origin, collection_id, item_id),
            r is Err ==> final(self)@ == old(self)@,
            r is Ok ==> {
                let d = market@.registered_nft_details[item_key(collection_id, item_id)];
                final(self)@ == old(self)@.after_select(d.region, d.asset_id)
            },
    {
        if ensure_signed(origin).is_none() {
            return Err(Error::BadOrigin);
        }
        let (region, asset_id) = match market.registered_nft_details(collection_id, item_id) {
            Some(d) => (d.region, d.asset_id),
            None => {
                return Err(Error::NoNftFound);
            },
        };
        if self.letting_storage.contains_key(&asset_id) {
            return Err(Error::LettingAgentAlreadySet);
        }
        let r = self.selects_letting_agent(region, asset_id);
        if r.is_err() {
            self.letting_storage.remove(&asset_id);
            proof {
                assert(self@.letting_storage =~= old(self)@.letting_storage);
                lemma_wf_same_agents(old(self)@, self@);
            }
        }
        r
    }
}

/// The share of a rental income of `amount` due for `tokens` tokens of a
/// property: one percent of the income per token, rounded down; `None` where
/// the product leaves the range of `Balance`.
pub open spec fn income_share(tokens: u32, amount: Balance) -> Option<Balance> {
    if tokens * amount <= u128::MAX {
        Some(((tokens * amount) / 100) as Balance)
    } else {
        None
    }
}

/// The stored funds after crediting each owner in `owners`, in order, its
/// share of an income of `amount` of property `asset`; the first overflow
/// answers its error.
pub open spec fn credit_shares(
    funds: Map<AccountId, Balance>,
    market: MarketState,
    owners: Seq<AccountId>,
    asset: AssetId,
    amount: Balance,
) -> Result<Map<AccountId, Balance>, Error>
    decreases owners.len(),
{
    if owners.len() == 0 {
        Ok(funds)
    } else {
        match credit_shares(funds, market, owners.drop_last(), asset, amount) {
            Err(e) => Err(e),
            Ok(f) => {
                let who = owners.last();
                match income_share(market.owner_tokens(asset, who), amount) {
                    None => Err(Error::MultiplyError),
                    Some(share) => if get_or(f, who, 0) + share > u128::MAX {
                        Err(Error::ArithmeticOverflow)
                    } else {
                        Ok(f.insert(who, (get_or(f, who, 0) + share) as Balance))
                    },
                }
            },
        }
    }
}

/// Crediting an income of `amount` of property `asset` to `owners` adds to
/// the stored funds of each account its share, one percent of the income
/// per token it holds (rounded down), once for each time it is among
/// `owners`; the funds of everybody else stay. Stored funds thus never
/// shrink, and funds stored earlier and not yet withdrawn are kept.
pub proof fn law_income_credited(
    funds: Map<AccountId, Balance>,
    market: MarketState,
    owners: Seq<AccountId>,
    asset: AssetId,
    amount: Balance,
)
    requires
        credit_shares(funds, market, owners, asset, amount) is Ok,
    ensures
        forall|w: AccountId| #[trigger] get_or(credit_shares(funds, market, owners, asset, amount)->Ok_0, w, 0)
            == get_or(funds, w, 0) + owners.to_multiset().count(w) * (market.owner_tokens(asset, w) * amount
            / 100),
    decreases owners.len(),
{
    if owners.len() > 0 {
        law_income_credited(funds, market, owners.drop_last(), asset, amount);
    }
    assert forall|w: AccountId| #[trigger] get_or(credit_shares(funds, market, owners, asset, amount)->Ok_0, w, 0)
        == get_or(funds, w, 0) + owners.to_multiset().count(w) * (market.owner_tokens(asset, w) * amount / 100) by {
        lemma_income_credited_to(funds, market, owners, asset, amount, w);
    }
}

/// One step of `law_income_credited`, for one account `w`.
#[verifier::spinoff_prover]
proof fn lemma_income_credited_to(
    funds: Map<AccountId, Balance>,
    market: MarketState,
    owners: Seq<AccountId>,
    asset: AssetId,
    amount: Balance,
    w: AccountId,
)
    requires
        credit_shares(funds, market, owners, asset, amount) is Ok,
        owners.len() > 0 ==> get_or(credit_shares(funds, market, owners.drop_last(), asset, amount)->Ok_0, w, 0)
            == get_or(funds, w, 0) + owners.drop_last().to_multiset().count(w) * (market.owner_tokens(asset, w)
            * amount / 100),
    ensures
        get_or(credit_shares(funds, market, owners, asset, amount)->Ok_0, w, 0) == get_or(funds, w, 0)
            + owners.to_multiset().count(w) * (market.owner_tokens(asset, w) * amount / 100),
{
    let sh = market.owner_tokens(asset, w) * amount / 100;
    if owners.len() == 0 {
        owners.to_multiset_ensures();
        assert(!owners.contains(w));
        assert(owners.to_multiset().count(w) == 0);
    } else {
        let rest = owners.drop_last();
        let who = owners.last();
        let c = rest.to_multiset().count(w);
        rest.to_multiset_ensures();
        assert(rest.push(who) =~= owners);
        assert(owners.to_multiset() =~= rest.to_multiset().insert(who));
        if w == who {
            assert(owners.to_multiset().count(w) == c + 1);
            assert((c + 1) * sh == c * sh + sh) by (nonlinear_arith);
        } else {
            assert(owners.to_multiset().count(w) == c);
        }
    }
}

/// Once crediting a prefix of the owners fails, crediting all of them fails
/// with the same error.
proof fn lemma_credit_error_stays(
    funds: Map<AccountId, Balance>,
    market: MarketState,
    owners: Seq<AccountId>,
    n: int,
    asset: AssetId,
    amount: Balance,
)
    requires
        0 <= n <= owners.len(),
        credit_shares(funds, market, owners.take(n), asset, amount) is Err,
    ensures
        credit_shares(funds, market, owners, asset, amount) == credit_shares(
            funds,
            market,
            owners.take(n),
            asset,
            amount,
        ),
    decreases owners.len(),
{
    if n == owners.len() {
        assert(owners.take(n) =~= owners);
    } else {
        assert(owners.drop_last().take(n) =~= owners.take(n));
        lemma_credit_error_stays(funds, market, owners.drop_last(), n, asset, amount);
    }
}

impl Pallet {
    /// What `distribute_income` answers.
    pub open spec fn distribute_income_outcome(
        s: PmState,
        ledger: LedgerState,
        market: MarketState,
        origin: Origin,
        asset_id: u32,
        amount: Balance,
    ) -> Result<(), Error> {
        match origin {
            Origin::Root => Err(Error::BadOrigin),
            Origin::Signed(who) => if ledger.transfer_outcome(
                who,
                s.pallet_account,
                amount,
                true,
            ) is Err {
                Err(Error::NotEnoughFunds)
            } else {
                match credit_shares(s.stored_funds, market, market.owners(asset_id), asset_id, amount) {
                    Err(e) => Err(e),
                    Ok(_) => Ok(()),
                }
            },
        }
    }

    /// The letting agent pays a rental income of `amount` into the pallet's
    /// account, and each owner of the property is credited one percent of
    /// it per token held.
    pub fn distribute_income(
        &mut self,
        ledger: &mut Ledger,
        market: &marketplace::Pallet,
        origin: Origin,
        asset_id: u32,
        amount: Balance,
    ) -> (r: Result<(), Error>)
        requires
            old(self)@.wf(),
        ensures
            final(self)@.wf(),
            r == Self::distribute_income_outcome(old(self)@, old(ledger)@, market@, origin, asset_id, amount),
            r is Err ==> final(self)@ == old(self)@ && final(ledger)@ == old(ledger)@,
            r is Ok ==> {
                let s = old(self)@;
                &&& final(ledger)@ == old(ledger)@.after_transfer(origin->Signed_0, s.pallet_account, amount)
                &&& final(self)@ == (PmState {
                    stored_funds: credit_shares(s.stored_funds, market@, market@.owners(asset_id), asset_id, amount)->Ok_0,
                    events: s.events.push(Event::IncomeDistributed { asset_id, amount }),
                    ..s
                })
                &&& forall|w: AccountId| #[trigger] final(self)@.funds_of(w) == s.funds_of(w)
                    + market@.owners(asset_id).to_multiset().count(w) * (market@.owner_tokens(asset_id, w)
                    * amount / 100)
            },
    {
        let who = match ensure_signed(origin) {
            Some(a) => a,
            None => {
                return Err(Error::BadOrigin);
            },
        };
        let ghost s = self@;
        let one = match u64_to_balance_option(1) {
            Ok(b) => b,
            Err(e) => {
                return Err(e);
            },
        };
        let payment = match amount.checked_mul(one) {
            Some(p) => p,
            None => {
                return Err(Error::MultiplyError);
            },
        };
        if ledger.check_transfer(who, self.pallet_account, payment, true).is_err() {
            return Err(Error::NotEnoughFunds);
        }
        let owners = market.property_owner(asset_id);
        let ghost ow = owners@;
        let mut pending: HashMap<AccountId, Balance> = HashMap::new();
        let mut i: usize = 0;
        assert(ow.take(0) =~= Seq::<AccountId>::empty());
        assert(s.stored_funds.union_prefer_right(pending@) =~= s.stored_funds);
        while i < owners.len()
            invariant
                i <= owners.len(),
                owners@ == ow,
                ow == market@.owners(asset_id),
                self@ == s,
                s == old(self)@,
                s.wf(),
                origin == Origin::Signed(who),
                old(ledger)@.transfer_outcome(who, s.pallet_account, amount, true) is Ok,
                credit_shares(s.stored_funds, market@, ow.take(i as int), asset_id, amount) == Ok::<
                    Map<AccountId, Balance>,
                    Error,
                >(s.stored_funds.union_prefer_right(pending@)),
                forall|k: AccountId| pending@.contains_key(k) <==> ow.take(i as int).contains(k),
            decreases owners.len() - i,
        {
            let owner = owners[i];
            let tokens = market.property_owner_token(asset_id, owner);
            let base = match u64_to_balance_option(tokens as u64) {
                Ok(b) => b,
                Err(e) => {
                    return Err(e);
                },
            };
            let ghost f = s.stored_funds.union_prefer_right(pending@);
            assert(ow.take(i as int + 1).drop_last() =~= ow.take(i as int));
            assert(ow.take(i as int + 1).last() == owner);
            let product = match base.checked_mul(amount) {
                Some(p) => p,
                None => {
                    proof {
                        lemma_credit_error_stays(s.stored_funds, market@, ow, i as int + 1, asset_id, amount);
                    }
                    return Err(Error::MultiplyError);
                },
            };
            let share = product / 100;
            let old_funds: Balance = match pending.get(&owner) {
                Some(v) => *v,
                None => match self.stored_funds.get(&owner) {
                    Some(v) => *v,
                    None => 0,
                },
            };
            assert(old_funds == get_or(f, owner, 0));
            let new_funds = match old_funds.checked_add(share) {
                Some(v) => v,
                None => {
                    proof {
                        lemma_credit_error_stays(s.stored_funds, market@, ow, i as int + 1, asset_id, amount);
                    }
                    return Err(Error::ArithmeticOverflow);
                },
            };
            pending.insert(owner, new_funds);
            proof {
                assert(s.stored_funds.union_prefer_right(pending@) =~= f.insert(owner, new_funds));
                assert forall|k: AccountId| pending@.contains_key(k) <==> ow.take(i as int + 1).contains(k) by {
                    if ow.take(i as int).contains(k) {
                        let j = choose|j: int| 0 <= j < i && ow.take(i as int)[j] == k;
                        assert(ow.take(i as int + 1)[j] == k);
                    }
                    let t1 = ow.take(i as int + 1);
                    if t1.contains(k) && k != owner {
                        let j = choose|j: int| 0 <= j <= i && t1[j] == k;
                        assert(ow.take(i as int)[j] == k);
                    }
                    if k == owner {
                        assert(ow.take(i as int + 1)[i as int] == k);
                    }
                }
            }
            i = i + 1;
        }
        assert(ow.take(i as int) =~= ow);
        let ghost target = s.stored_funds.union_prefer_right(pending@);
        let mut k: usize = 0;
        while k < owners.len()
            invariant
                k <= owners.len(),
                owners@ == ow,
                forall|x: AccountId| pending@.contains_key(x) <==> ow.contains(x),
                target == s.stored_funds.union_prefer_right(pending@),
                self@ == (PmState { stored_funds: self@.stored_funds, ..s }),
                forall|x: AccountId|
                    #[trigger] self@.stored_funds.contains_key(x) <==> (s.stored_funds.contains_key(x)
                        || ow.take(k as int).contains(x)),
                forall|x: AccountId|
                    #[trigger] self@.stored_funds.contains_key(x) ==> self@.stored_funds[x] == (if ow.take(
                        k as int,
                    ).contains(x) {
                        pending@[x]
                    } else {
                        s.stored_funds[x]
                    }),
            decreases owners.len() - k,
        {
            let owner = owners[k];
            assert(ow.contains(owner));
            let v = match pending.get(&owner) {
                Some(v) => *v,
                None => 0,
            };
            self.stored_funds.insert(owner, v);
            proof {
                assert forall|x: AccountId| #[trigger] ow.take(k as int + 1).contains(x) <==> (ow.take(k as int).contains(x) || x == owner) by {
                    if ow.take(k as int).contains(x) {
                        let j = choose|j: int| 0 <= j < k && ow.take(k as int)[j] == x;
                        assert(ow.take(k as int + 1)[j] == x);
                    }
                    let t1 = ow.take(k as int + 1);
                    if t1.contains(x) && x != owner {
                        let j = choose|j: int| 0 <= j <= k && t1[j] == x;
                        assert(ow.take(k as int)[j] == x);
                    }
                    if x == owner {
                        assert(ow.take(k as int + 1)[k as int] == x);
                    }
                }
            }
            k = k + 1;
        }
        assert(ow.take(k as int) =~= ow);
        assert(self@.stored_funds =~= target);
        assert(payment == amount);
        let _ = ledger.transfer(who, self.pallet_account, payment, true);
        self.events.push(Event::IncomeDistributed { asset_id, amount });
        proof {
            lemma_wf_same_agents(s, self@);
            law_income_credited(s.stored_funds, market@, market@.owners(asset_id), asset_id, amount);
        }
        Ok(())
    }

    /// What `withdraw_funds` answers.
    pub open spec fn withdraw_funds_outcome(s: PmState, ledger: LedgerState, origin: Origin) -> Result<
        (),
        Error,
    > {
        match origin {
            Origin::Root => Err(Error::BadOrigin),
            Origin::Signed(who) => if s.funds_of(who) == 0 {
                Err(Error::UserHasNoFundsStored)
            } else if ledger.transfer_outcome(s.pallet_account, who, s.funds_of(who), true) is Err {
                Err(Error::NotEnoughFunds)
            } else {
                Ok(())
            },
        }
    }

    /// An owner takes out all the funds stored for it.
    pub fn withdraw_funds(&mut self, ledger: &mut Ledger, origin: Origin) -> (r: Result<(), Error>)
        requires
            old(self)@.wf(),
        ensures
            final(self)@.wf(),
            r == Self::withdraw_funds_outcome(old(self)@, old(ledger)@, origin),
            r is Err ==> final(self)@ == old(self)@ && final(ledger)@ == old(ledger)@,
            r is Ok ==> {
                let s = old(self)@;
                let who = origin->Signed_0;
                &&& final(ledger)@ == old(ledger)@.after_transfer(s.pallet_account, who, s.funds_of(who))
                &&& final(self)@ == (PmState {
                    stored_funds: s.stored_funds.remove(who),
                    events: s.events.push(Event::WithdrawFunds { who, amount: s.funds_of(who) }),
                    ..s
                })
            },
    {
        let who = match ensure_signed(origin) {
            Some(a) => a,
            None => {
                return Err(Error::BadOrigin);
            },
        };
        let user_funds = self.stored_funds(who);
        if user_funds == 0 {
            return Err(Error::UserHasNoFundsStored);
        }
        match ledger.transfer(self.pallet_account, who, user_funds, true) {
            Ok(()) => {},
            Err(_) => {
                return Err(Error::NotEnoughFunds);
            },
        }
        self.stored_funds.remove(&who);
        self.events.push(Event::WithdrawFunds { who, amount: user_funds });
        proof {
            lemma_wf_same_agents(old(self)@, self@);
        }
        Ok(())
    }

    /// The letting agent of a property.
    pub fn letting_storage(&self, asset_id: u32) -> (r: Option<AccountId>)
        ensures
            r == (if self@.letting_storage.contains_key(asset_id) {
                Some(self@.letting_storage[asset_id])
            } else {
                None::<AccountId>
            }),
    {
        match self.letting_storage.get(&asset_id) {
            Some(a) => Some(*a),
            None => None,
        }
    }

    /// The funds stored for `who`.
    pub fn stored_funds(&self, who: AccountId) -> (r: Balance)
        ensures
            r == self@.funds_of(who),
    {
        match self.stored_funds.get(&who) {
            Some(b) => *b,
            None => 0,
        }
    }

    /// The record of a letting agent.
    pub fn letting_info(&self, who: AccountId) -> (r: Option<&LettingAgentInfo>)
        ensures
            match r {
                Some(i) => self@.letting_info.contains_key(who) && i@ == self@.letting_info[who],
                None => !self@.letting_info.contains_key(who),
            },
    {
        self.letting_info.get(&who)
    }

    /// The letting agents of a location.
    pub fn letting_agent_locations(&self, location: u32) -> (r: Vec<AccountId>)
        ensures
            r@ == self@.agents(location),
    {
        match self.letting_agent_locations.get(&location) {
            Some(v) => v.clone(),
            None => Vec::new(),
        }
    }

    /// The events deposited so far, oldest first.
    pub fn events(&self) -> (r: &Vec<Event>)
        ensures
            r@ == self@.events,
    {
        &self.events
    }
}

impl Pallet {
    /// The reserve held for a property.
    pub fn property_reserve(&self, asset_id: u32) -> (r: Balance)
        ensures
            r == self@.reserve_of(asset_id),
    {
        match self.property_reserve.get(&asset_id) {
            Some(b) => *b,
            None => 0,
        }
    }

    /// The debts of a property.
    pub fn property_debts(&self, asset_id: u32) -> (r: Balance)
        ensures
            r == self@.debts_of(asset_id),
    {
        match self.property_debts.get(&asset_id) {
            Some(b) => *b,
            None => 0,
        }
    }

    /// Takes `amount` out of the reserve of a property; the reserve must
    /// cover it.
    pub fn decrease_reserves(&mut self, asset_id: u32, amount: Balance) -> (r: Result<(), Error>)
        requires
            old(self)@.wf(),
        ensures
            final(self)@.wf(),
            r == (if amount <= old(self)@.reserve_of(asset_id) {
                Ok::<(), Error>(())
            } else {
                Err(Error::NotEnoughFunds)
            }),
            r is Err ==> final(self)@ == old(self)@,
            r is Ok ==> final(self)@ == (PmState {
                property_reserve: old(self)@.property_reserve.insert(
                    asset_id,
                    (old(self)@.reserve_of(asset_id) - amount) as Balance,
                ),
                ..old(self)@
            }),
    {
        let reserve = self.property_reserve(asset_id);
        if amount > reserve {
            return Err(Error::NotEnoughFunds);
        }
        self.property_reserve.insert(asset_id, reserve - amount);
        proof {
            lemma_wf_same_agents(old(self)@, self@);
        }
        Ok(())
    }

    /// Adds `amount` to the debts of a property.
    pub fn increase_debts(&mut self, asset_id: u32, amount: Balance) -> (r: Result<(), Error>)
        requires
            old(self)@.wf(),
        ensures
            final(self)@.wf(),
            r == (if old(self)@.debts_of(asset_id) + amount <= u128::MAX {
                Ok::<(), Error>(())
            } else {
                Err(Error::ArithmeticOverflow)
            }),
            r is Err ==> final(self)@ == old(self)@,
            r is Ok ==> final(self)@ == (PmState {
                property_debts: old(self)@.property_debts.insert(
                    asset_id,
                    (old(self)@.debts_of(asset_id) + amount) as Balance,
                ),
                ..old(self)@
            }),
    {
        let debts = self.property_debts(asset_id);
        match debts.checked_add(amount) {
            Some(d) => {
                self.property_debts.insert(asset_id, d);
                proof {
                    lemma_wf_same_agents(old(self)@, self@);
                }
                Ok(())
            },
            None => Err(Error::ArithmeticOverflow),
        }
    }
}
} // verus!
