use std::collections::HashMap;
use vstd::prelude::*;

use crate::common::{get_or, pair_key, spec_pair_key, AccountId, Balance};

verus! {

broadcast use vstd::std_specs::hash::group_hash_axioms;

/// Identifier of a fungible asset.
pub type AssetId = u32;

/// Why an operation on assets was refused.
#[derive(Clone, Copy, Debug, PartialEq, Eq, Structural)]
pub enum AssetsError {
    /// No asset with this id exists.
    Unknown,
    /// An asset with this id exists already.
    InUse,
    /// The account does not hold enough of the asset.
    BalanceLow,
    /// A balance or the supply would leave the range of `Balance`.
    Overflow,
}

/// The key of an account's balance in an asset.
pub open spec fn balance_key(asset: AssetId, who: AccountId) -> u128 {
    spec_pair_key(asset as u64, who)
}

/// Balances of many fungible assets, read as maps: the supply of each
/// existing asset, and each balance keyed by `balance_key`.
pub struct AssetsState {
    pub supply: Map<AssetId, Balance>,
    pub balances: Map<u128, Balance>,
}

impl AssetsState {
    /// Whether the asset exists.
    pub open spec fn has_asset(self, asset: AssetId) -> bool {
        self.supply.contains_key(asset)
    }

    /// The supply of an asset (zero for an asset that does not exist).
    pub open spec fn supply_of(self, asset: AssetId) -> Balance {
        get_or(self.supply, asset, 0)
    }

    /// The balance of `who` in `asset`.
    pub open spec fn balance_of(self, asset: AssetId, who: AccountId) -> Balance {
        get_or(self.balances, balance_key(asset, who), 0)
    }

    /// What a transfer of `amount` of `asset` from `from` to `to` answers.
    pub open spec fn transfer_outcome(self, asset: AssetId, from: AccountId, to: AccountId, amount: Balance) -> Result<
        (),
        AssetsError,
    > {
        if !self.has_asset(asset) {
            Err(AssetsError::Unknown)
        } else if self.balance_of(asset, from) < amount {
            Err(AssetsError::BalanceLow)
        } else if from != to && self.balance_of(asset, to) + amount > u128::MAX {
            Err(AssetsError::Overflow)
        } else {
            Ok(())
        }
    }

    /// The balances after a transfer that goes through.
    pub open spec fn after_transfer(self, asset: AssetId, from: AccountId, to: AccountId, amount: Balance) -> AssetsState {
        if from == to {
            self
        } else {
            AssetsState {
                supply: self.supply,
                balances: self.balances.insert(
                    balance_key(asset, from),
                    (self.balance_of(asset, from) - amount) as Balance,
                ).insert(balance_key(asset, to), (self.balance_of(asset, to) + amount) as Balance),
            }
        }
    }

    /// What minting answers.
    pub open spec fn mint_outcome(self, asset: AssetId, who: AccountId, amount: Balance) -> Result<(), AssetsError> {
        if !self.has_asset(asset) {
            Err(AssetsError::Unknown)
        } else if self.supply_of(asset) + amount > u128::MAX || self.balance_of(asset, who)
            + amount > u128::MAX {
            Err(AssetsError::Overflow)
        } else {
            Ok(())
        }
    }

    /// The balances after minting.
    pub open spec fn after_mint(self, asset: AssetId, who: AccountId, amount: Balance) -> AssetsState {
        AssetsState {
            supply: self.supply.insert(asset, (self.supply_of(asset) + amount) as Balance),
            balances: self.balances.insert(
                balance_key(asset, who),
                (self.balance_of(asset, who) + amount) as Balance,
            ),
        }
    }

    /// What burning answers.
    pub open spec fn burn_outcome(self, asset: AssetId, who: AccountId, amount: Balance) -> Result<(), AssetsError> {
        if !self.has_asset(asset) {
            Err(AssetsError::Unknown)
        } else if self.balance_of(asset, who) < amount || self.supply_of(asset) < amount {
            Err(AssetsError::BalanceLow)
        } else {
            Ok(())
        }
    }

    /// The balances after burning.
    pub open spec fn after_burn(self, asset: AssetId, who: AccountId, amount: Balance) -> AssetsState {
        AssetsState {
            supply: self.supply.insert(asset, (self.supply_of(asset) - amount) as Balance),
            balances: self.balances.insert(
                balance_key(asset, who),
                (self.balance_of(asset, who) - amount) as Balance,
            ),
        }
    }
}

/// Balances of many fungible assets, each created with an id of its own.
pub struct Assets {
    supply: HashMap<AssetId, Balance>,
    balances: HashMap<u128, Balance>,
}

impl View for Assets {
    type V = AssetsState;

    closed spec fn view(&self) -> AssetsState {
        AssetsState { supply: self.supply@, balances: self.balances@ }
    }
}

impl Assets {
    /// No asset exists yet.
    pub fn new() -> (a: Assets)
        ensures
            a@.supply == Map::<AssetId, Balance>::empty(),
            a@.balances == Map::<u128, Balance>::empty(),
    {
        Assets { supply: HashMap::new(), balances: HashMap::new() }
    }

    /// A copy of all balances, to work on and to commit or drop.
    pub fn snapshot(&self) -> (r: Assets)
        ensures
            r@ == self@,
    {
        Assets { supply: self.supply.clone(), balances: self.balances.clone() }
    }

    /// Whether the asset exists.
    pub fn asset_exists(&self, asset: AssetId) -> (r: bool)
        ensures
            r == self@.has_asset(asset),
    {
        self.supply.contains_key(&asset)
    }

    /// The supply of an asset, if it exists.
    pub fn total_supply(&self, asset: AssetId) -> (r: Option<Balance>)
        ensures
            r == (if self@.has_asset(asset) {
                Some(self@.supply_of(asset))
            } else {
                None::<Balance>
            }),
    {
        match self.supply.get(&asset) {
            Some(s) => Some(*s),
            None => None,
        }
    }

    /// The balance of `who` in `asset`.
    pub fn balance(&self, asset: AssetId, who: AccountId) -> (r: Balance)
        ensures
            r == self@.balance_of(asset, who),
    {
        match self.balances.get(&pair_key(asset as u64, who)) {
            Some(b) => *b,
            None => 0,
        }
    }

    /// Creates an asset with no supply.
    pub fn create(&mut self, asset: AssetId) -> (r: Result<(), AssetsError>)
        ensures
            r is Err <==> old(self)@.has_asset(asset),
            r is Err ==> r == Err::<(), AssetsError>(AssetsError::InUse) && final(self)@ == old(
                self,
            )@,
            r is Ok ==> final(self)@ == (AssetsState {
                supply: old(self)@.supply.insert(asset, 0),
                balances: old(self)@.balances,
            }),
    {
        if self.supply.contains_key(&asset) {
            return Err(AssetsError::InUse);
        }
        self.supply.insert(asset, 0);
        Ok(())
    }

    /// Issues `amount` new units of `asset` to `who`.
    pub fn mint(&mut self, asset: AssetId, who: AccountId, amount: Balance) -> (r: Result<(), AssetsError>)
        ensures
            r == old(self)@.mint_outcome(asset, who, amount),
            r is Err ==> final(self)@ == old(self)@,
            r is Ok ==> final(self)@ == old(self)@.after_mint(asset, who, amount),
    {
        let s = match self.supply.get(&asset) {
            Some(s) => *s,
            None => {
                return Err(AssetsError::Unknown);
            },
        };
        let b = self.balance(asset, who);
        if s > u128::MAX - amount || b > u128::MAX - amount {
            return Err(AssetsError::Overflow);
        }
        self.supply.insert(asset, s + amount);
        self.balances.insert(pair_key(asset as u64, who), b + amount);
        Ok(())
    }

    /// Destroys `amount` units of `asset` held by `who`.
    pub fn burn(&mut self, asset: AssetId, who: AccountId, amount: Balance) -> (r: Result<(), AssetsError>)
        ensures
            r == old(self)@.burn_outcome(asset, who, amount),
            r is Err ==> final(self)@ == old(self)@,
            r is Ok ==> final(self)@ == old(self)@.after_burn(asset, who, amount),
    {
        let s = match self.supply.get(&asset) {
            Some(s) => *s,
            None => {
                return Err(AssetsError::Unknown);
            },
        };
        let b = self.balance(asset, who);
        if b < amount || s < amount {
            return Err(AssetsError::BalanceLow);
        }
        self.supply.insert(asset, s - amount);
        self.balances.insert(pair_key(asset as u64, who), b - amount);
        Ok(())
    }

    /// What a transfer of `amount` of `asset` from `from` to `to` would answer.
    pub fn check_transfer(&self, asset: AssetId, from: AccountId, to: AccountId, amount: Balance) -> (r:
        Result<(), AssetsError>)
        ensures
            r == self@.transfer_outcome(asset, from, to, amount),
    {
        if !self.supply.contains_key(&asset) {
            return Err(AssetsError::Unknown);
        }
        if self.balance(asset, from) < amount {
            return Err(AssetsError::BalanceLow);
        }
        if from != to && self.balance(asset, to) > u128::MAX - amount {
            return Err(AssetsError::Overflow);
        }
        Ok(())
    }

    /// Moves `amount` of `asset` from `from` to `to`.
    pub fn transfer(&mut self, asset: AssetId, from: AccountId, to: AccountId, amount: Balance) -> (r:
        Result<(), AssetsError>)
        ensures
            r == old(self)@.transfer_outcome(asset, from, to, amount),
            r is Ok ==> final(self)@ == old(self)@.after_transfer(asset, from, to, amount),
            r is Err ==> final(self)@ == old(self)@,
    {
        if !self.supply.contains_key(&asset) {
            return Err(AssetsError::Unknown);
        }
        let f = self.balance(asset, from);
        if f < amount {
            return Err(AssetsError::BalanceLow);
        }
        if from != to {
            let t = self.balance(asset, to);
            if t > u128::MAX - amount {
                return Err(AssetsError::Overflow);
            }
            self.balances.insert(pair_key(asset as u64, from), f - amount);
            self.balances.insert(pair_key(asset as u64, to), t + amount);
        }
        Ok(())
    }
}

/// A transfer neither creates nor destroys units of an asset: the sender
/// loses what the receiver gains, every other balance and every supply stays.
pub proof fn law_transfer_conserves(s: AssetsState, asset: AssetId, from: AccountId, to: AccountId, amount: Balance)
    requires
        s.transfer_outcome(asset, from, to, amount) is Ok,
    ensures
        ({
            let t = s.after_transfer(asset, from, to, amount);
            &&& t.supply == s.supply
            &&& t.balance_of(asset, from) + t.balance_of(asset, to) == s.balance_of(asset, from)
                + s.balance_of(asset, to) || from == to
            &&& from == to ==> t == s
            &&& forall|x: AssetId, y: AccountId|
                !(x == asset && (y == from || y == to)) ==> #[trigger] t.balance_of(x, y)
                    == s.balance_of(x, y)
        }),
{
    let t = s.after_transfer(asset, from, to, amount);
    if from != to {
        crate::common::lemma_pair_key_injective(asset as u64, from, asset as u64, to);
        assert forall|x: AssetId, y: AccountId|
            !(x == asset && (y == from || y == to)) implies #[trigger] t.balance_of(x, y)
            == s.balance_of(x, y) by {
            crate::common::lemma_pair_key_injective(x as u64, y, asset as u64, from);
            crate::common::lemma_pair_key_injective(x as u64, y, asset as u64, to);
        }
    }
}

} // verus!
