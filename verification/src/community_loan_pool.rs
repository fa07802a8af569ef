use std::collections::HashMap;
use vstd::prelude::*;

use crate::arith::{permill_mul, permill_of};
use crate::common::{ensure_signed, AccountId, Balance, Origin};
use crate::ledger::{Ledger, LedgerState};
use crate::nfts::{CollectionId, ItemId};

verus! {

broadcast use vstd::std_specs::hash::group_hash_axioms;

/// Index of a loan proposal.
pub type ProposalIndex = u32;

/// A loan proposal: who asks, for how much, for whom, and the bond the
/// proposer reserved.
#[derive(Clone, Copy, Debug, PartialEq, Eq, Structural)]
pub struct Proposal {
    pub proposer: AccountId,
    pub amount: Balance,
    pub beneficiary: AccountId,
    pub bond: Balance,
}

/// Events of the loan pool.
#[derive(Clone, Copy, Debug, PartialEq, Eq, Structural)]
pub enum Event {
    /// New Proposal
    Proposed { proposal_index: ProposalIndex },
    /// Proposal has been approved
    Approved { proposal_index: ProposalIndex },
    /// Proposal has been rejected
    Rejected { proposal_index: ProposalIndex },
}

/// Why a call of the loan pool was refused.
#[derive(Clone, Copy, Debug, PartialEq, Eq, Structural)]
pub enum Error {
    /// The origin may not make this call.
    BadOrigin,
    /// Proposer's balance is too low
    InsufficientProposersBalance,
    /// Loan pool's balance is too low
    InsufficientLoanPoolBalance,
    /// No proposal index
    InvalidIndex,
    /// There are too many loan proposals
    InsufficientPermission,
}

/// The bond rules of the loan pool.
#[derive(Clone, Copy, Debug, PartialEq, Eq, Structural)]
pub struct LoanPoolConfig {
    /// The account of the loan pool.
    pub pallet_account: AccountId,
    /// The share of a proposal's amount bonded, in parts per million.
    pub proposal_bond: u32,
    /// The least bond.
    pub proposal_bond_minimum: Balance,
    /// The greatest bond, if any.
    pub proposal_bond_maximum: Option<Balance>,
}

/// The storage of the loan pool, read as mathematical maps.
pub struct LoanPoolState {
    pub config: LoanPoolConfig,
    pub proposal_count: ProposalIndex,
    pub proposals: Map<ProposalIndex, Proposal>,
    pub events: Seq<Event>,
}

/// The bond of a proposal of `value`: the bond share of the value, at least
/// the minimum and at most the maximum.
pub open spec fn bond_of(config: LoanPoolConfig, value: Balance) -> Balance {
    let share = permill_of(config.proposal_bond, value);
    let r = if config.proposal_bond_minimum >= share {
        config.proposal_bond_minimum as int
    } else {
        share
    };
    (match config.proposal_bond_maximum {
        Some(m) => if r <= m {
            r
        } else {
            m as int
        },
        None => r,
    }) as Balance
}

/// The loan pool: loan proposals, bonded by their proposers, approved or
/// rejected by privileged origins.
pub struct Pallet {
    config: LoanPoolConfig,
    proposal_count: ProposalIndex,
    proposals: HashMap<ProposalIndex, Proposal>,
    events: Vec<Event>,
}

impl View for Pallet {
    type V = LoanPoolState;

    closed spec fn view(&self) -> LoanPoolState {
        LoanPoolState {
            config: self.config,
            proposal_count: self.proposal_count,
            proposals: self.proposals@,
            events: self.events@,
        }
    }
}

impl Pallet {
    /// A loan pool with no proposals; the bond share is at most one.
    pub fn new(config: LoanPoolConfig) -> (p: Pallet)
        requires
            config.proposal_bond <= 1_000_000,
        ensures
            p@ == (LoanPoolState {
                config,
                proposal_count: 0,
                proposals: Map::empty(),
                events: Seq::empty(),
            }),
    {
        Pallet { config, proposal_count: 0, proposals: HashMap::new(), events: Vec::new() }
    }

    /// The account of the loan pool.
    pub fn account_id(&self) -> (r: AccountId)
        ensures
            r == self@.config.pallet_account,
    {
        self.config.pallet_account
    }

    /// The bond a proposal of `value` reserves.
    pub fn calculate_bond(&self, value: Balance) -> (r: Balance)
        requires
            self@.config.proposal_bond <= 1_000_000,
        ensures
            r == bond_of(self@.config, value),
    {
        let share = permill_mul(self.config.proposal_bond, value);
        let mut r = if self.config.proposal_bond_minimum >= share {
            self.config.proposal_bond_minimum
        } else {
            share
        };
        if let Some(m) = self.config.proposal_bond_maximum {
            if m < r {
                r = m;
            }
        }
        r
    }

    /// What `propose` answers.
    pub open spec fn propose_outcome(s: LoanPoolState, ledger: LedgerState, origin: Origin, amount: Balance) -> Result<
        (),
        Error,
    > {
        match origin {
            Origin::Root => Err(Error::BadOrigin),
            Origin::Signed(who) => if ledger.reserve_outcome(who, bond_of(s.config, amount)) is Err {
                Err(Error::InsufficientProposersBalance)
            } else {
                Ok(())
            },
        }
    }

    /// Applies for a loan of `amount` for `beneficiary`; the proposer
    /// reserves the bond, which a rejection slashes and an approval returns.
    /// Proposals are numbered from 1.
    pub fn propose(
        &mut self,
        ledger: &mut Ledger,
        origin: Origin,
        amount: Balance,
        beneficiary: AccountId,
    ) -> (r: Result<(), Error>)
        requires
            old(self)@.config.proposal_bond <= 1_000_000,
            Self::propose_outcome(old(self)@, old(ledger)@, origin, amount) is Ok ==> old(
                self,
            )@.proposal_count < u32::MAX,
        ensures
            r == Self::propose_outcome(old(self)@, old(ledger)@, origin, amount),
            r is Err ==> final(self)@ == old(self)@ && final(ledger)@ == old(ledger)@,
            r is Ok ==> {
                let s = old(self)@;
                let who = origin->Signed_0;
                let bond = bond_of(s.config, amount);
                &&& final(ledger)@ == old(ledger)@.after_reserve(who, bond)
                &&& final(self)@ == (LoanPoolState {
                    proposals: s.proposals.insert(
                        (s.proposal_count + 1) as u32,
                        Proposal { proposer: who, amount, beneficiary, bond },
                    ),
                    proposal_count: (s.proposal_count + 1) as u32,
                    events: s.events.push(Event::Proposed { proposal_index: (s.proposal_count + 1) as u32 }),
                    ..s
                })
            },
    {
        let who = match ensure_signed(origin) {
            Some(a) => a,
            None => {
                return Err(Error::BadOrigin);
            },
        };
        let bond = self.calculate_bond(amount);
        match ledger.reserve(who, bond) {
            Ok(()) => {},
            Err(_) => {
                return Err(Error::InsufficientProposersBalance);
            },
        }
        let proposal_index = self.proposal_count + 1;
        self.proposals.insert(proposal_index, Proposal { proposer: who, amount, beneficiary, bond });
        self.proposal_count = proposal_index;
        self.events.push(Event::Proposed { proposal_index });
        Ok(())
    }

    /// What rejecting or approving proposal `index` answers.
    pub open spec fn decide_outcome(s: LoanPoolState, origin: Origin, index: ProposalIndex) -> Result<
        (),
        Error,
    > {
        if !(origin is Root) {
            Err(Error::BadOrigin)
        } else if !s.proposals.contains_key(index) {
            Err(Error::InvalidIndex)
        } else {
            Ok(())
        }
    }

    /// Rejects a proposal; its bond is slashed. Only the root origin may
    /// call.
    pub fn reject_proposal(&mut self, ledger: &mut Ledger, origin: Origin, proposal_index: ProposalIndex) -> (r:
        Result<(), Error>)
        ensures
            r == Self::decide_outcome(old(self)@, origin, proposal_index),
            r is Err ==> final(self)@ == old(self)@ && final(ledger)@ == old(ledger)@,
            r is Ok ==> {
                let s = old(self)@;
                let p = s.proposals[proposal_index];
                &&& final(ledger)@ == old(ledger)@.after_slash_reserved(p.proposer, p.bond)
                &&& final(self)@ == (LoanPoolState {
                    proposals: s.proposals.remove(proposal_index),
                    events: s.events.push(Event::Rejected { proposal_index }),
                    ..s
                })
            },
    {
        match origin {
            Origin::Root => {},
            Origin::Signed(_) => {
                return Err(Error::BadOrigin);
            },
        }
        let proposal = match self.proposals.remove(&proposal_index) {
            Some(p) => p,
            None => {
                proof {
                    assert(self.proposals@ =~= old(self).proposals@);
                }
                return Err(Error::InvalidIndex);
            },
        };
        let _ = ledger.slash_reserved(proposal.proposer, proposal.bond);
        self.events.push(Event::Rejected { proposal_index });
        Ok(())
    }

    /// What approving proposal `index` answers: refused as a decision is,
    /// or where the loan pool cannot pay the loan to `dest`.
    pub open spec fn approve_outcome(
        s: LoanPoolState,
        ledger: LedgerState,
        origin: Origin,
        index: ProposalIndex,
        dest: AccountId,
    ) -> Result<(), Error> {
        match Self::decide_outcome(s, origin, index) {
            Err(e) => Err(e),
            Ok(()) => if ledger.transfer_outcome(
                s.config.pallet_account,
                dest,
                s.proposals[index].amount,
                true,
            ) is Err {
                Err(Error::InsufficientLoanPoolBalance)
            } else {
                Ok(())
            },
        }
    }

    /// Approves a proposal: the loan pool pays the proposal's amount to the
    /// loan contract `dest` and the bond is returned to the proposer. Only
    /// the root origin may call. Where the loan pool's account cannot pay
    /// the amount to `dest` (keeping its own account alive), the call fails
    /// with `InsufficientLoanPoolBalance` and changes nothing: the approval
    /// is meant to deposit the amount, so it is not approved without it.
    /// The collateral NFT of the loan is not created: creating a collection
    /// and minting in it need a signed origin, and the calls' failures are
    /// ignored.
    pub fn approve_proposal(
        &mut self,
        ledger: &mut Ledger,
        origin: Origin,
        proposal_index: ProposalIndex,
        collection_id: CollectionId,
        collateral_price: Balance,
        item_id: ItemId,
        dest: AccountId,
        admin: AccountId,
    ) -> (r: Result<(), Error>)
        requires
            Self::approve_outcome(old(self)@, old(ledger)@, origin, proposal_index, dest) is Ok ==> {
                let p = old(self)@.proposals[proposal_index];
                let l1 = old(ledger)@.after_transfer(old(self)@.config.pallet_account, dest, p.amount);
                l1.free_of(p.proposer) + l1.reserved_of(p.proposer) <= u128::MAX
            },
        ensures
            r == Self::approve_outcome(old(self)@, old(ledger)@, origin, proposal_index, dest),
            r is Err ==> final(self)@ == old(self)@ && final(ledger)@ == old(ledger)@,
            r is Ok ==> {
                let s = old(self)@;
                let p = s.proposals[proposal_index];
                &&& final(ledger)@ == old(ledger)@.after_transfer(s.config.pallet_account, dest, p.amount)
                    .after_unreserve(p.proposer, p.bond)
                &&& final(self)@ == (LoanPoolState {
                    proposals: s.proposals.remove(proposal_index),
                    events: s.events.push(Event::Approved { proposal_index }),
                    ..s
                })
            },
    {
        match origin {
            Origin::Root => {},
            Origin::Signed(_) => {
                return Err(Error::BadOrigin);
            },
        }
        let proposal = match self.proposals.get(&proposal_index) {
            Some(p) => *p,
            None => {
                return Err(Error::InvalidIndex);
            },
        };
        match ledger.transfer(self.config.pallet_account, dest, proposal.amount, true) {
            Ok(()) => {},
            Err(_) => {
                return Err(Error::InsufficientLoanPoolBalance);
            },
        }
        self.proposals.remove(&proposal_index);
        let _ = ledger.unreserve(proposal.proposer, proposal.bond);
        self.events.push(Event::Approved { proposal_index });
        Ok(())
    }

    /// The number of proposals made.
    pub fn proposal_count(&self) -> (r: ProposalIndex)
        ensures
            r == self@.proposal_count,
    {
        self.proposal_count
    }

    /// A proposal.
    pub fn proposals(&self, index: ProposalIndex) -> (r: Option<Proposal>)
        ensures
            r == (if self@.proposals.contains_key(index) {
                Some(self@.proposals[index])
            } else {
                None::<Proposal>
            }),
    {
        match self.proposals.get(&index) {
            Some(p) => Some(*p),
            None => None,
        }
    }

    /// The events deposited so far, oldest first.
    pub fn events(&self) -> (r: &Vec<Event>)
        ensures
            r@ == self@.events,
    {
        &self.events
    }
}

/// The bond lies between the minimum and the maximum, where the minimum
/// does not exceed the maximum.
pub proof fn law_bond_within_limits(config: LoanPoolConfig, value: Balance)
    requires
        config.proposal_bond <= 1_000_000,
        match config.proposal_bond_maximum {
            Some(m) => config.proposal_bond_minimum <= m,
            None => true,
        },
    ensures
        config.proposal_bond_minimum <= bond_of(config, value),
        match config.proposal_bond_maximum {
            Some(m) => bond_of(config, value) <= m,
            None => true,
        },
{
    assert(0 <= permill_of(config.proposal_bond, value) <= value) by (nonlinear_arith)
        requires
            config.proposal_bond <= 1_000_000,
            permill_of(config.proposal_bond, value) == (value * config.proposal_bond) / 1_000_000 + (
            if (value * config.proposal_bond) % 1_000_000 > 500_000 {
                1int
            } else {
                0int
            }),
    ;
}

/// An approved proposal gives the proposer back what proposing took: its
/// free and reserved balances are as before.
pub proof fn law_approval_returns_bond(ledger: LedgerState, who: AccountId, bond: Balance)
    requires
        ledger.reserve_outcome(who, bond) is Ok,
    ensures
        ledger.after_reserve(who, bond).after_unreserve(who, bond).free_of(who) == ledger.free_of(who),
        ledger.after_reserve(who, bond).after_unreserve(who, bond).reserved_of(who)
            == ledger.reserved_of(who),
{
}

/// A rejected proposal costs the proposer its bond: the free balance stays
/// as proposing left it and the bond leaves the reserve.
pub proof fn law_rejection_slashes_bond(ledger: LedgerState, who: AccountId, bond: Balance)
    requires
        ledger.reserve_outcome(who, bond) is Ok,
    ensures
        ledger.after_reserve(who, bond).after_slash_reserved(who, bond).free_of(who) == ledger.free_of(
            who,
        ) - bond,
        ledger.after_reserve(who, bond).after_slash_reserved(who, bond).reserved_of(who)
            == ledger.reserved_of(who),
{
}

} // verus!
