use vstd::prelude::*;

use crate::common::{is_root, vec_contains, vec_position, AccountId, Origin};

verus! {

/// Events of the whitelist.
#[derive(Clone, Copy, Debug, PartialEq, Eq, Structural)]
pub enum Event {
    /// A new user has been whitelisted.
    NewUserWhitelisted { user: AccountId },
    /// A user has been removed from the whitelist.
    UserRemoved { user: AccountId },
}

/// Why a whitelist call was refused.
#[derive(Clone, Copy, Debug, PartialEq, Eq, Structural)]
pub enum Error {
    /// The call did not come from the whitelist origin.
    BadOrigin,
    /// The user is already registered in the whitelist.
    AccountAlreadyWhitelisted,
    /// The user has not been registered in the whitelist.
    UserNotInWhitelist,
    /// Too many users are already in the whitelist.
    TooManyUsers,
}

/// The whitelist of accounts that passed the KYC, in the order they were
/// added, with at most `max_users` entries.
pub struct Pallet {
    whitelisted_accounts: Vec<AccountId>,
    max_users: u32,
    events: Vec<Event>,
}

impl Pallet {
    /// The whitelisted accounts, oldest first.
    pub closed spec fn accounts(&self) -> Seq<AccountId> {
        self.whitelisted_accounts@
    }

    /// The most users the whitelist holds.
    pub closed spec fn max(&self) -> u32 {
        self.max_users
    }

    /// The events deposited so far, oldest first.
    pub closed spec fn event_log(&self) -> Seq<Event> {
        self.events@
    }

    /// The whitelist holds no account twice and no more than its bound.
    pub open spec fn wf(&self) -> bool {
        &&& self.accounts().no_duplicates()
        &&& self.accounts().len() <= self.max()
    }

    /// An empty whitelist for at most `max_users` users.
    pub fn new(max_users: u32) -> (p: Pallet)
        ensures
            p.wf(),
            p.accounts() == Seq::<AccountId>::empty(),
            p.max() == max_users,
            p.event_log() == Seq::<Event>::empty(),
    {
        Pallet { whitelisted_accounts: Vec::new(), max_users, events: Vec::new() }
    }

    /// The whitelisted accounts, oldest first.
    pub fn whitelisted_accounts(&self) -> (r: Vec<AccountId>)
        ensures
            r@ == self.accounts(),
    {
        self.whitelisted_accounts.clone()
    }

    /// The events deposited so far.
    pub fn events(&self) -> (r: &Vec<Event>)
        ensures
            r@ == self.event_log(),
    {
        &self.events
    }

    /// Whether `who` is whitelisted.
    pub fn is_whitelisted(&self, who: AccountId) -> (r: bool)
        ensures
            r == self.accounts().contains(who),
    {
        vec_contains(&self.whitelisted_accounts, who)
    }

    /// What adding `user` answers.
    pub open spec fn add_outcome(&self, origin: Origin, user: AccountId) -> Result<(), Error> {
        if !(origin is Root) {
            Err(Error::BadOrigin)
        } else if self.accounts().contains(user) {
            Err(Error::AccountAlreadyWhitelisted)
        } else if self.accounts().len() >= self.max() {
            Err(Error::TooManyUsers)
        } else {
            Ok(())
        }
    }

    /// Adds `user` at the end of the whitelist. Only the root origin may call.
    pub fn add_to_whitelist(&mut self, origin: Origin, user: AccountId) -> (r: Result<(), Error>)
        requires
            old(self).wf(),
        ensures
            final(self).wf(),
            r == old(self).add_outcome(origin, user),
            r is Ok ==> final(self).accounts() == old(self).accounts().push(user),
            r is Ok ==> final(self).event_log() == old(self).event_log().push(
                Event::NewUserWhitelisted { user },
            ),
            r is Err ==> final(self).accounts() == old(self).accounts() && final(self).event_log()
                == old(self).event_log(),
            final(self).max() == old(self).max(),
    {
        if !is_root(origin) {
            return Err(Error::BadOrigin);
        }
        if vec_contains(&self.whitelisted_accounts, user) {
            return Err(Error::AccountAlreadyWhitelisted);
        }
        if self.whitelisted_accounts.len() >= self.max_users as usize {
            return Err(Error::TooManyUsers);
        }
        self.whitelisted_accounts.push(user);
        self.events.push(Event::NewUserWhitelisted { user });
        proof {
            let s = old(self).accounts();
            assert forall|i: int, j: int|
                0 <= i < s.push(user).len() && 0 <= j < s.push(user).len() && i != j implies s.push(
                user,
            )[i] != s.push(user)[j] by {
                if i < s.len() && j < s.len() {
                } else if i == s.len() {
                    assert(s.push(user)[j] == s[j]);
                } else {
                    assert(s.push(user)[i] == s[i]);
                }
            }
        }
        Ok(())
    }

    /// What removing `user` answers.
    pub open spec fn remove_outcome(&self, origin: Origin, user: AccountId) -> Result<(), Error> {
        if !(origin is Root) {
            Err(Error::BadOrigin)
        } else if !self.accounts().contains(user) {
            Err(Error::UserNotInWhitelist)
        } else {
            Ok(())
        }
    }

    /// Removes `user` from the whitelist, keeping the order of the others.
    /// Only the root origin may call.
    pub fn remove_from_whitelist(&mut self, origin: Origin, user: AccountId) -> (r: Result<(), Error>)
        requires
            old(self).wf(),
        ensures
            final(self).wf(),
            r == old(self).remove_outcome(origin, user),
            r is Ok ==> final(self).accounts() == old(self).accounts().remove(
                old(self).accounts().index_of(user),
            ),
            r is Ok ==> !final(self).accounts().contains(user),
            r is Ok ==> final(self).event_log() == old(self).event_log().push(
                Event::UserRemoved { user },
            ),
            r is Err ==> final(self).accounts() == old(self).accounts() && final(self).event_log()
                == old(self).event_log(),
            final(self).max() == old(self).max(),
    {
        if !is_root(origin) {
            return Err(Error::BadOrigin);
        }
        let idx = match vec_position(&self.whitelisted_accounts, user) {
            Some(i) => i,
            None => {
                return Err(Error::UserNotInWhitelist);
            },
        };
        let ghost s = self.accounts();
        proof {
            s.index_of_first_ensures(user);
            assert(s.index_of(user) == idx) by {
                s.index_of_first_ensures(user);
                if s.index_of(user) != idx as int {
                    assert(s[s.index_of(user)] == user);
                }
            }
        }
        self.whitelisted_accounts.remove(idx);
        self.events.push(Event::UserRemoved { user });
        proof {
            let t = s.remove(idx as int);
            assert(self.accounts() == t);
            assert forall|i: int, j: int|
                0 <= i < t.len() && 0 <= j < t.len() && i != j implies t[i] != t[j] by {
                let ii = if i < idx { i } else { i + 1 };
                let jj = if j < idx { j } else { j + 1 };
                assert(t[i] == s[ii] && t[j] == s[jj]);
            }
            assert(!t.contains(user)) by {
                if t.contains(user) {
                    let k = choose|k: int| 0 <= k < t.len() && t[k] == user;
                    let kk = if k < idx { k } else { k + 1 };
                    assert(s[kk] == user && kk != idx);
                }
            }
        }
        Ok(())
    }
}

/// Adding a user and removing it again leaves the whitelist as it was.
pub proof fn law_add_then_remove_restores(before: Seq<AccountId>, user: AccountId)
    requires
        !before.contains(user),
    ensures
        before.push(user).remove(before.push(user).index_of(user)) == before,
{
    let s = before.push(user);
    s.index_of_first_ensures(user);
    assert(s[before.len() as int] == user);
    let k = s.index_of(user);
    if k < before.len() {
        assert(before[k] == user);
    }
    assert(k == before.len());
    assert(s.remove(k) =~= before);
}

} // verus!
