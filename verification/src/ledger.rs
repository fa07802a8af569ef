use std::collections::HashMap;
use vstd::prelude::*;

use crate::common::{get_or, AccountId, Balance};

verus! {

broadcast use vstd::std_specs::hash::group_hash_axioms;

/// Why a movement of funds was refused.
#[derive(Clone, Copy, Debug, PartialEq, Eq, Structural)]
pub enum LedgerError {
    /// The free balance does not cover the amount.
    InsufficientBalance,
    /// The sender would be left below the minimum balance it must keep.
    Expendability,
    /// The amount would reach into the locked part of the free balance.
    LiquidityRestrictions,
    /// A balance would leave the range of `Balance`.
    Overflow,
}

/// The balances of one currency read as maps: for each account a free and a
/// reserved part and a lock on the free part; absent accounts hold nothing.
pub struct LedgerState {
    pub free: Map<AccountId, Balance>,
    pub reserved: Map<AccountId, Balance>,
    pub locks: Map<AccountId, Balance>,
    /// The least free balance a transfer that keeps the sender alive leaves.
    pub min_balance: Balance,
}

impl LedgerState {
    pub open spec fn free_of(self, who: AccountId) -> Balance {
        get_or(self.free, who, 0)
    }

    pub open spec fn reserved_of(self, who: AccountId) -> Balance {
        get_or(self.reserved, who, 0)
    }

    pub open spec fn lock_of(self, who: AccountId) -> Balance {
        get_or(self.locks, who, 0)
    }

    /// What a transfer of `amount` from `from` to `to` answers.
    pub open spec fn transfer_outcome(self, from: AccountId, to: AccountId, amount: Balance, keep_alive: bool) -> Result<
        (),
        LedgerError,
    > {
        if self.free_of(from) < amount {
            Err(LedgerError::InsufficientBalance)
        } else if self.free_of(from) - amount < self.lock_of(from) {
            Err(LedgerError::LiquidityRestrictions)
        } else if keep_alive && self.free_of(from) - amount < self.min_balance {
            Err(LedgerError::Expendability)
        } else if from != to && self.free_of(to) + amount > u128::MAX {
            Err(LedgerError::Overflow)
        } else {
            Ok(())
        }
    }

    /// The balances after a transfer that goes through.
    pub open spec fn after_transfer(self, from: AccountId, to: AccountId, amount: Balance) -> LedgerState {
        if from == to {
            self
        } else {
            LedgerState {
                free: self.free.insert(from, (self.free_of(from) - amount) as Balance).insert(
                    to,
                    (self.free_of(to) + amount) as Balance,
                ),
                ..self
            }
        }
    }

    /// What reserving `amount` of the free balance of `who` answers.
    pub open spec fn reserve_outcome(self, who: AccountId, amount: Balance) -> Result<(), LedgerError> {
        if self.free_of(who) < amount {
            Err(LedgerError::InsufficientBalance)
        } else if self.free_of(who) - amount < self.lock_of(who) {
            Err(LedgerError::LiquidityRestrictions)
        } else if self.reserved_of(who) + amount > u128::MAX {
            Err(LedgerError::Overflow)
        } else {
            Ok(())
        }
    }

    /// The balances after a reservation that goes through.
    pub open spec fn after_reserve(self, who: AccountId, amount: Balance) -> LedgerState {
        LedgerState {
            free: self.free.insert(who, (self.free_of(who) - amount) as Balance),
            reserved: self.reserved.insert(who, (self.reserved_of(who) + amount) as Balance),
            ..self
        }
    }

    /// The part of `amount` that is reserved for `who`.
    pub open spec fn reserved_part(self, who: AccountId, amount: Balance) -> Balance {
        if amount <= self.reserved_of(who) {
            amount
        } else {
            self.reserved_of(who)
        }
    }

    /// The balances after releasing up to `amount` of the reserve of `who`.
    pub open spec fn after_unreserve(self, who: AccountId, amount: Balance) -> LedgerState {
        let moved = self.reserved_part(who, amount);
        LedgerState {
            free: self.free.insert(who, (self.free_of(who) + moved) as Balance),
            reserved: self.reserved.insert(who, (self.reserved_of(who) - moved) as Balance),
            ..self
        }
    }

    /// The balances after destroying up to `amount` of the reserve of `who`.
    pub open spec fn after_slash_reserved(self, who: AccountId, amount: Balance) -> LedgerState {
        LedgerState {
            reserved: self.reserved.insert(
                who,
                (self.reserved_of(who) - self.reserved_part(who, amount)) as Balance,
            ),
            ..self
        }
    }

    /// The balances after setting the lock of `who` to `amount` (zero
    /// removes the lock).
    pub open spec fn after_set_lock(self, who: AccountId, amount: Balance) -> LedgerState {
        LedgerState {
            locks: if amount == 0 {
                self.locks.remove(who)
            } else {
                self.locks.insert(who, amount)
            },
            ..self
        }
    }
}

/// Balances of one fungible currency.
pub struct Ledger {
    free: HashMap<AccountId, Balance>,
    reserved: HashMap<AccountId, Balance>,
    locks: HashMap<AccountId, Balance>,
    min_balance: Balance,
}

impl View for Ledger {
    type V = LedgerState;

    closed spec fn view(&self) -> LedgerState {
        LedgerState {
            free: self.free@,
            reserved: self.reserved@,
            locks: self.locks@,
            min_balance: self.min_balance,
        }
    }
}

impl Ledger {
    /// An empty ledger.
    pub fn new(min_balance: Balance) -> (l: Ledger)
        ensures
            l@ == (LedgerState {
                free: Map::empty(),
                reserved: Map::empty(),
                locks: Map::empty(),
                min_balance,
            }),
    {
        Ledger { free: HashMap::new(), reserved: HashMap::new(), locks: HashMap::new(), min_balance }
    }

    /// The free balance of `who`.
    pub fn free_balance(&self, who: AccountId) -> (b: Balance)
        ensures
            b == self@.free_of(who),
    {
        match self.free.get(&who) {
            Some(b) => *b,
            None => 0,
        }
    }

    /// The reserved balance of `who`.
    pub fn reserved_balance(&self, who: AccountId) -> (b: Balance)
        ensures
            b == self@.reserved_of(who),
    {
        match self.reserved.get(&who) {
            Some(b) => *b,
            None => 0,
        }
    }

    /// The amount locked on the free balance of `who`.
    pub fn locked_balance(&self, who: AccountId) -> (b: Balance)
        ensures
            b == self@.lock_of(who),
    {
        match self.locks.get(&who) {
            Some(b) => *b,
            None => 0,
        }
    }

    /// Sets the free balance of `who` to `amount`.
    pub fn set_free_balance(&mut self, who: AccountId, amount: Balance)
        ensures
            final(self)@ == (LedgerState { free: old(self)@.free.insert(who, amount), ..old(self)@ }),
    {
        self.free.insert(who, amount);
    }

    /// What a transfer of `amount` from `from` to `to` would answer.
    pub fn check_transfer(&self, from: AccountId, to: AccountId, amount: Balance, keep_alive: bool) -> (r:
        Result<(), LedgerError>)
        ensures
            r == self@.transfer_outcome(from, to, amount, keep_alive),
    {
        let f = self.free_balance(from);
        if f < amount {
            return Err(LedgerError::InsufficientBalance);
        }
        if f - amount < self.locked_balance(from) {
            return Err(LedgerError::LiquidityRestrictions);
        }
        if keep_alive && f - amount < self.min_balance {
            return Err(LedgerError::Expendability);
        }
        if from != to && self.free_balance(to) > u128::MAX - amount {
            return Err(LedgerError::Overflow);
        }
        Ok(())
    }

    /// What reserving `amount` for `who` would answer.
    pub fn check_reserve(&self, who: AccountId, amount: Balance) -> (r: Result<(), LedgerError>)
        ensures
            r == self@.reserve_outcome(who, amount),
    {
        let f = self.free_balance(who);
        if f < amount {
            return Err(LedgerError::InsufficientBalance);
        }
        if f - amount < self.locked_balance(who) {
            return Err(LedgerError::LiquidityRestrictions);
        }
        if self.reserved_balance(who) > u128::MAX - amount {
            return Err(LedgerError::Overflow);
        }
        Ok(())
    }

    /// Moves `amount` of free balance from `from` to `to`. With `keep_alive`
    /// the sender must keep at least the minimum balance.
    pub fn transfer(&mut self, from: AccountId, to: AccountId, amount: Balance, keep_alive: bool) -> (r:
        Result<(), LedgerError>)
        ensures
            r == old(self)@.transfer_outcome(from, to, amount, keep_alive),
            r is Ok ==> final(self)@ == old(self)@.after_transfer(from, to, amount),
            r is Err ==> final(self)@ == old(self)@,
    {
        let f = self.free_balance(from);
        if f < amount {
            return Err(LedgerError::InsufficientBalance);
        }
        if f - amount < self.locked_balance(from) {
            return Err(LedgerError::LiquidityRestrictions);
        }
        if keep_alive && f - amount < self.min_balance {
            return Err(LedgerError::Expendability);
        }
        if from != to {
            let t = self.free_balance(to);
            if t > u128::MAX - amount {
                return Err(LedgerError::Overflow);
            }
            self.free.insert(from, f - amount);
            self.free.insert(to, t + amount);
        }
        Ok(())
    }

    /// Moves `amount` from the free to the reserved balance of `who`.
    pub fn reserve(&mut self, who: AccountId, amount: Balance) -> (r: Result<(), LedgerError>)
        ensures
            r == old(self)@.reserve_outcome(who, amount),
            r is Ok ==> final(self)@ == old(self)@.after_reserve(who, amount),
            r is Err ==> final(self)@ == old(self)@,
    {
        let f = self.free_balance(who);
        if f < amount {
            return Err(LedgerError::InsufficientBalance);
        }
        if f - amount < self.locked_balance(who) {
            return Err(LedgerError::LiquidityRestrictions);
        }
        let res = self.reserved_balance(who);
        if res > u128::MAX - amount {
            return Err(LedgerError::Overflow);
        }
        self.free.insert(who, f - amount);
        self.reserved.insert(who, res + amount);
        Ok(())
    }

    /// Moves up to `amount` from the reserved back to the free balance of
    /// `who`; answers the part of `amount` that was not reserved.
    pub fn unreserve(&mut self, who: AccountId, amount: Balance) -> (rest: Balance)
        requires
            old(self)@.free_of(who) + old(self)@.reserved_of(who) <= u128::MAX,
        ensures
            rest == amount - old(self)@.reserved_part(who, amount),
            final(self)@ == old(self)@.after_unreserve(who, amount),
    {
        let res = self.reserved_balance(who);
        let moved = if amount <= res {
            amount
        } else {
            res
        };
        let f = self.free_balance(who);
        self.reserved.insert(who, res - moved);
        self.free.insert(who, f + moved);
        amount - moved
    }

    /// Destroys up to `amount` of the reserved balance of `who`; answers the
    /// amount destroyed.
    pub fn slash_reserved(&mut self, who: AccountId, amount: Balance) -> (slashed: Balance)
        ensures
            slashed == old(self)@.reserved_part(who, amount),
            final(self)@ == old(self)@.after_slash_reserved(who, amount),
    {
        let res = self.reserved_balance(who);
        let slashed = if amount <= res {
            amount
        } else {
            res
        };
        self.reserved.insert(who, res - slashed);
        slashed
    }

    /// Sets the lock on the free balance of `who` to `amount`; zero removes it.
    pub fn set_lock(&mut self, who: AccountId, amount: Balance)
        ensures
            final(self)@ == old(self)@.after_set_lock(who, amount),
    {
        if amount == 0 {
            self.locks.remove(&who);
        } else {
            self.locks.insert(who, amount);
        }
    }
}

/// A transfer neither creates nor destroys funds: the sender loses what the
/// receiver gains and every other balance stays.
pub proof fn law_transfer_conserves(s: LedgerState, from: AccountId, to: AccountId, amount: Balance)
    requires
        s.transfer_outcome(from, to, amount, false) is Ok,
    ensures
        ({
            let t = s.after_transfer(from, to, amount);
            &&& t.free_of(from) + t.free_of(to) == s.free_of(from) + s.free_of(to)
            &&& forall|x: AccountId|
                x != from && x != to ==> #[trigger] t.free_of(x) == s.free_of(x)
            &&& t.reserved == s.reserved
            &&& t.locks == s.locks
        }),
{
}

/// Reserving and then releasing the same amount restores the balances.
pub proof fn law_unreserve_undoes_reserve(s: LedgerState, who: AccountId, amount: Balance)
    requires
        s.reserve_outcome(who, amount) is Ok,
    ensures
        s.after_reserve(who, amount).after_unreserve(who, amount).free_of(who) == s.free_of(who),
        s.after_reserve(who, amount).after_unreserve(who, amount).reserved_of(who) == s.reserved_of(
            who,
        ),
        forall|x: AccountId|
            x != who ==> #[trigger] s.after_reserve(who, amount).after_unreserve(who, amount).free_of(
                x,
            ) == s.free_of(x),
{
}

} // verus!
