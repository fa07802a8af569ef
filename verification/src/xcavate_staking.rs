use std::collections::HashMap;
use vstd::prelude::*;

use crate::common::{ensure_signed, get_or, AccountId, Balance, Origin};
use crate::ledger::{Ledger, LedgerState};

verus! {

broadcast use vstd::std_specs::hash::group_hash_axioms;

/// The stake of an account: the amount locked and when it was last staked,
/// in seconds.
#[derive(Clone, Copy, Debug, PartialEq, Eq, Structural)]
pub struct LedgerAccount {
    pub locked: Balance,
    pub timestamp: u64,
}

/// Events of the staking.
#[derive(Clone, Copy, Debug, PartialEq, Eq, Structural)]
pub enum Event {
    Locked(AccountId, Balance),
    ExtendedLock(AccountId, Balance),
    Unlocked(AccountId, Balance),
}

/// Why a staking call was refused.
#[derive(Clone, Copy, Debug, PartialEq, Eq, Structural)]
pub enum Error {
    /// The origin may not make this call.
    BadOrigin,
    StakingWithNoValue,
    UnstakingWithNoValue,
    UnlockPeriodNotReached,
    NoStakedAmount,
    /// The caller has no stake.
    NoStaker,
}


/// The storage of the staking, read as mathematical maps.
pub struct StakingState {
    /// The free balance an account keeps out of its stake.
    pub minimum_remaining_amount: Balance,
    pub ledger: Map<AccountId, LedgerAccount>,
    pub total_stake: Balance,
    pub events: Seq<Event>,
}

/// No stake.
pub open spec fn no_stake() -> LedgerAccount {
    LedgerAccount { locked: 0, timestamp: 0 }
}

/// `a - b`, held at zero.
pub open spec fn sub_held(a: Balance, b: Balance) -> Balance {
    if a < b {
        0
    } else {
        (a - b) as Balance
    }
}

/// `a + b`, held at `u128::MAX`.
pub open spec fn add_held(a: Balance, b: Balance) -> Balance {
    if a + b > u128::MAX {
        u128::MAX
    } else {
        (a + b) as Balance
    }
}

impl StakingState {
    /// The stake of `who`.
    pub open spec fn stake_of(self, who: AccountId) -> LedgerAccount {
        get_or(self.ledger, who, no_stake())
    }

    /// What `who` can stake on top of its stake: its free balance less the
    /// amount it keeps and less what it staked.
    pub open spec fn available(self, ledger: LedgerState, who: AccountId) -> Balance {
        sub_held(sub_held(ledger.free_of(who), self.minimum_remaining_amount), self.stake_of(who).locked)
    }

    /// The storage and balances after the stake of `who` becomes `account`:
    /// a stake of nothing is removed with its lock, any other is stored and
    /// locks its amount.
    pub open spec fn updated(self, ledger: LedgerState, who: AccountId, account: LedgerAccount) -> (
        StakingState,
        LedgerState,
    ) {
        if account.locked == 0 {
            (StakingState { ledger: self.ledger.remove(who), ..self }, ledger.after_set_lock(who, 0))
        } else {
            (
                StakingState { ledger: self.ledger.insert(who, account), ..self },
                ledger.after_set_lock(who, account.locked),
            )
        }
    }
}

/// Staking of the native currency: staked funds are locked on the staker's
/// account.
pub struct Pallet {
    minimum_remaining_amount: Balance,
    ledger: HashMap<AccountId, LedgerAccount>,
    total_stake: Balance,
    events: Vec<Event>,
}

impl View for Pallet {
    type V = StakingState;

    closed spec fn view(&self) -> StakingState {
        StakingState {
            minimum_remaining_amount: self.minimum_remaining_amount,
            ledger: self.ledger@,
            total_stake: self.total_stake,
            events: self.events@,
        }
    }
}

impl Pallet {
    /// A staking with no stakes.
    pub fn new(minimum_remaining_amount: Balance) -> (p: Pallet)
        ensures
            p@ == (StakingState {
                minimum_remaining_amount,
                ledger: Map::empty(),
                total_stake: 0,
                events: Seq::empty(),
            }),
    {
        Pallet { minimum_remaining_amount, ledger: HashMap::new(), total_stake: 0, events: Vec::new() }
    }

    /// The stake of `who`.
    pub fn ledger(&self, who: AccountId) -> (r: LedgerAccount)
        ensures
            r == self@.stake_of(who),
    {
        match self.ledger.get(&who) {
            Some(a) => *a,
            None => LedgerAccount { locked: 0, timestamp: 0 },
        }
    }

    /// The sum of all stakes.
    pub fn total_stake(&self) -> (r: Balance)
        ensures
            r == self@.total_stake,
    {
        self.total_stake
    }

    /// The events deposited so far, oldest first.
    pub fn events(&self) -> (r: &Vec<Event>)
        ensures
            r@ == self@.events,
    {
        &self.events
    }

    /// What `who` can stake on top of its stake `account`.
    fn available_staking_balance(&self, currency: &Ledger, who: AccountId, account: LedgerAccount) -> (r:
        Balance)
        requires
            account == self@.stake_of(who),
        ensures
            r == self@.available(currency@, who),
    {
        let free = currency.free_balance(who);
        let kept = if free < self.minimum_remaining_amount {
            0
        } else {
            free - self.minimum_remaining_amount
        };
        if kept < account.locked {
            0
        } else {
            kept - account.locked
        }
    }

    /// Stores the stake of `who` and locks its amount, or removes a stake of
    /// nothing with its lock.
    fn update_ledger(&mut self, currency: &mut Ledger, who: AccountId, account: LedgerAccount)
        ensures
            (final(self)@, final(currency)@) == old(self)@.updated(old(currency)@, who, account),
    {
        if account.locked == 0 {
            self.ledger.remove(&who);
            currency.set_lock(who, 0);
        } else {
            currency.set_lock(who, account.locked);
            self.ledger.insert(who, account);
        }
    }

    /// What `stake` answers.
    pub open spec fn stake_outcome(s: StakingState, ledger: LedgerState, origin: Origin, value: Balance) -> Result<
        (),
        Error,
    > {
        match origin {
            Origin::Root => Err(Error::BadOrigin),
            Origin::Signed(who) => if value == 0 || s.available(ledger, who) == 0 {
                Err(Error::StakingWithNoValue)
            } else {
                Ok(())
            },
        }
    }

    /// The amount `stake` locks: what was asked, at most what is available.
    pub open spec fn staked_amount(s: StakingState, ledger: LedgerState, who: AccountId, value: Balance) -> Balance {
        if value <= s.available(ledger, who) {
            value
        } else {
            s.available(ledger, who)
        }
    }

    /// Stakes up to `value` at time `now` (in seconds): as much of it as
    /// the free balance allows beyond the amount kept and the current stake.
    pub fn stake(&mut self, currency: &mut Ledger, origin: Origin, value: Balance, now: u64) -> (r: Result<
        (),
        Error,
    >)
        requires
            Self::stake_outcome(old(self)@, old(currency)@, origin, value) is Ok ==> old(self)@.total_stake
                + Self::staked_amount(old(self)@, old(currency)@, origin->Signed_0, value) <= u128::MAX,
        ensures
            r == Self::stake_outcome(old(self)@, old(currency)@, origin, value),
            r is Err ==> final(self)@ == old(self)@ && final(currency)@ == old(currency)@,
            r is Ok ==> {
                let s = old(self)@;
                let who = origin->Signed_0;
                let amount = Self::staked_amount(s, old(currency)@, who, value);
                let account = LedgerAccount {
                    locked: add_held(s.stake_of(who).locked, amount),
                    timestamp: now,
                };
                let (s1, l1) = s.updated(old(currency)@, who, account);
                &&& final(currency)@ == l1
                &&& final(self)@ == (StakingState {
                    total_stake: (s.total_stake + amount) as Balance,
                    events: s1.events.push(Event::Locked(who, value)),
                    ..s1
                })
            },
    {
        let who = match ensure_signed(origin) {
            Some(a) => a,
            None => {
                return Err(Error::BadOrigin);
            },
        };
        let mut account = self.ledger(who);
        let available = self.available_staking_balance(currency, who, account);
        let value_to_stake = if value <= available {
            value
        } else {
            available
        };
        if value_to_stake == 0 {
            return Err(Error::StakingWithNoValue);
        }
        account.locked = account.locked.saturating_add(value_to_stake);
        account.timestamp = now;
        self.update_ledger(currency, who, account);
        self.total_stake = self.total_stake + value_to_stake;
        self.events.push(Event::Locked(who, value));
        Ok(())
    }

    /// Extends the lock on the balance of the caller to at least `value`;
    /// a `value` of nothing changes nothing.
    pub fn extend_lock(&mut self, currency: &mut Ledger, origin: Origin, value: Balance) -> (r: Result<
        (),
        Error,
    >)
        ensures
            r == (if origin is Signed {
                Ok::<(), Error>(())
            } else {
                Err(Error::BadOrigin)
            }),
            r is Err ==> final(self)@ == old(self)@ && final(currency)@ == old(currency)@,
            r is Ok ==> {
                let who = origin->Signed_0;
                &&& final(currency)@ == (if value == 0 || value <= old(currency)@.lock_of(who) {
                    old(currency)@
                } else {
                    old(currency)@.after_set_lock(who, value)
                })
                &&& final(self)@ == (StakingState {
                    events: old(self)@.events.push(Event::ExtendedLock(who, value)),
                    ..old(self)@
                })
            },
    {
        let who = match ensure_signed(origin) {
            Some(a) => a,
            None => {
                return Err(Error::BadOrigin);
            },
        };
        if value != 0 && value > currency.locked_balance(who) {
            currency.set_lock(who, value);
        }
        self.events.push(Event::ExtendedLock(who, value));
        Ok(())
    }

    /// What `unstake` answers.
    pub open spec fn unstake_outcome(s: StakingState, origin: Origin, value: Balance) -> Result<(), Error> {
        match origin {
            Origin::Root => Err(Error::BadOrigin),
            Origin::Signed(who) => if value == 0 {
                Err(Error::UnstakingWithNoValue)
            } else if s.stake_of(who).locked == 0 {
                Err(Error::NoStaker)
            } else {
                Ok(())
            },
        }
    }

    /// The amount `unstake` unlocks: what was asked, at most the stake.
    pub open spec fn unstaked_amount(s: StakingState, who: AccountId, value: Balance) -> Balance {
        if value <= s.stake_of(who).locked {
            value
        } else {
            s.stake_of(who).locked
        }
    }

    /// Unstakes up to `value` of the caller's stake; unstaking all of it
    /// removes the stake and its lock.
    pub fn unstake(&mut self, currency: &mut Ledger, origin: Origin, value: Balance) -> (r: Result<
        (),
        Error,
    >)
        ensures
            r == Self::unstake_outcome(old(self)@, origin, value),
            r is Err ==> final(self)@ == old(self)@ && final(currency)@ == old(currency)@,
            r is Ok ==> {
                let s = old(self)@;
                let who = origin->Signed_0;
                let amount = Self::unstaked_amount(s, who, value);
                let account = LedgerAccount { locked: (s.stake_of(who).locked - amount) as Balance, ..s.stake_of(who) };
                let (s1, l1) = s.updated(old(currency)@, who, account);
                &&& final(currency)@ == l1
                &&& final(self)@ == (StakingState {
                    total_stake: sub_held(s.total_stake, amount),
                    events: s1.events.push(Event::Unlocked(who, value)),
                    ..s1
                })
            },
    {
        let who = match ensure_signed(origin) {
            Some(a) => a,
            None => {
                return Err(Error::BadOrigin);
            },
        };
        if value == 0 {
            return Err(Error::UnstakingWithNoValue);
        }
        let mut account = self.ledger(who);
        if account.locked == 0 {
            return Err(Error::NoStaker);
        }
        let amount = if value <= account.locked {
            value
        } else {
            account.locked
        };
        account.locked = account.locked - amount;
        self.update_ledger(currency, who, account);
        self.total_stake = self.total_stake.saturating_sub(amount);
        self.events.push(Event::Unlocked(who, value));
        Ok(())
    }

    /// Claims the rewards of the caller; a caller with no stake is refused,
    /// and nothing changes.
    pub fn claim_rewards(&self, origin: Origin) -> (r: Result<(), Error>)
        ensures
            r == (match origin {
                Origin::Root => Err(Error::BadOrigin),
                Origin::Signed(who) => if self@.stake_of(who).locked == 0 {
                    Err(Error::NoStakedAmount)
                } else {
                    Ok::<(), Error>(())
                },
            }),
    {
        let who = match ensure_signed(origin) {
            Some(a) => a,
            None => {
                return Err(Error::BadOrigin);
            },
        };
        let account = self.ledger(who);
        if account.locked == 0 {
            return Err(Error::NoStakedAmount);
        }
        Ok(())
    }
}

/// Staking never locks more than the staker's free balance beyond the
/// amount it keeps: the new stake is at most what was staked plus what was
/// available.
pub proof fn law_stake_within_free_balance(s: StakingState, ledger: LedgerState, who: AccountId, value: Balance)
    ensures
        Pallet::staked_amount(s, ledger, who, value) <= value,
        Pallet::staked_amount(s, ledger, who, value) + s.stake_of(who).locked <= ledger.free_of(who)
            || s.stake_of(who).locked > ledger.free_of(who),
{
}

/// Unstaking everything staked removes the stake and the lock.
pub proof fn law_unstake_all_unlocks(s: StakingState, ledger: LedgerState, who: AccountId)
    ensures
        ({
            let account = LedgerAccount { locked: sub_held(s.stake_of(who).locked, s.stake_of(who).locked), ..s.stake_of(who) };
            let (s1, l1) = s.updated(ledger, who, account);
            &&& !s1.ledger.contains_key(who)
            &&& l1.lock_of(who) == 0
        }),
{
}

} // verus!
