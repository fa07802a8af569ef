use std::collections::HashMap;
use sp_core::{Blake2Hasher, Encode, Hasher};
use vstd::prelude::*;

use crate::common::{ensure_signed, view_map, AccountId, Origin};

verus! {

broadcast use vstd::std_specs::hash::group_hash_axioms;

/// A user profile: its owner and name.
#[derive(Clone, Debug, PartialEq, Eq)]
pub struct Profile {
    pub owner: AccountId,
    pub name: Vec<u8>,
}

/// A user profile, with the name as a sequence.
pub struct ProfileView {
    pub owner: AccountId,
    pub name: Seq<u8>,
}

impl View for Profile {
    type V = ProfileView;

    open spec fn view(&self) -> ProfileView {
        ProfileView { owner: self.owner, name: self.name@ }
    }
}

/// Events of the user profiles.
#[derive(Clone, Copy, Debug, PartialEq, Eq, Structural)]
pub enum Event {
    ProfileCreated { who: AccountId },
    ProfileDeleted { who: AccountId },
    ProfileUpdated { who: AccountId },
}

/// Why a profile call was refused.
#[derive(Clone, Copy, Debug, PartialEq, Eq, Structural)]
pub enum Error {
    /// The origin may not make this call.
    BadOrigin,
    ProfileCountOverflow,
    NoUpdateAuthority,
    NoDeletionAuthority,
    ProfileAlreadyCreated,
    NoProfileCreated,
    Badmetadata,
}

/// The storage of the user profiles.
pub struct UserState {
    /// The longest name a profile may have.
    pub string_limit: u32,
    pub profile_count: u32,
    pub profiles: Map<AccountId, ProfileView>,
    pub events: Seq<Event>,
}

/// The id of a profile: the Blake2-256 hash of its SCALE encoding, the
/// owner's encoding followed by the name's.
pub uninterp spec fn profile_hash(owner: AccountId, name: Seq<u8>) -> Seq<u8>;

/// `sp_core::Blake2Hasher::hash` of the SCALE encoding of `(owner, name)`,
/// which is how a profile of `owner` named `name` encodes. The contract
/// names the 32-byte hash; what the hash is, is left unsaid.
#[verifier::external_body]
fn hash_profile(owner: AccountId, name: &Vec<u8>) -> (r: [u8; 32])
    ensures
        r@ == profile_hash(owner, name@),
{
    Blake2Hasher::hash(&(owner, name).encode()).0
}

/// User profiles, one per account.
pub struct Pallet {
    string_limit: u32,
    profile_count: u32,
    profiles: HashMap<AccountId, Profile>,
    events: Vec<Event>,
}

impl View for Pallet {
    type V = UserState;

    closed spec fn view(&self) -> UserState {
        UserState {
            string_limit: self.string_limit,
            profile_count: self.profile_count,
            profiles: view_map(self.profiles@),
            events: self.events@,
        }
    }
}

impl Pallet {
    /// No profiles; names may have up to `string_limit` bytes.
    pub fn new(string_limit: u32) -> (p: Pallet)
        ensures
            p@ == (UserState { string_limit, profile_count: 0, profiles: Map::empty(), events: Seq::empty() }),
    {
        let p = Pallet { string_limit, profile_count: 0, profiles: HashMap::new(), events: Vec::new() };
        assert(view_map(p.profiles@) =~= Map::empty());
        p
    }

    /// The number of profiles created.
    pub fn profile_count(&self) -> (r: u32)
        ensures
            r == self@.profile_count,
    {
        self.profile_count
    }

    /// The profile of `who`.
    pub fn profiles(&self, who: AccountId) -> (r: Option<&Profile>)
        ensures
            match r {
                Some(p) => self@.profiles.contains_key(who) && p@ == self@.profiles[who],
                None => !self@.profiles.contains_key(who),
            },
    {
        self.profiles.get(&who)
    }

    /// The events deposited so far, oldest first.
    pub fn events(&self) -> (r: &Vec<Event>)
        ensures
            r@ == self@.events,
    {
        &self.events
    }

    /// What creating a profile for `owner` named `name` answers.
    pub open spec fn generate_outcome(s: UserState, owner: AccountId, name: Seq<u8>) -> Result<(), Error> {
        if s.profiles.contains_key(owner) {
            Err(Error::ProfileAlreadyCreated)
        } else if name.len() > s.string_limit {
            Err(Error::Badmetadata)
        } else if s.profile_count == u32::MAX {
            Err(Error::ProfileCountOverflow)
        } else {
            Ok(())
        }
    }

    /// Creates the profile of `owner` named `name` and answers its id. Where
    /// the count of profiles is full, the profile stays created and the
    /// overflow is answered.
    pub fn generate_profile(&mut self, owner: AccountId, name: Vec<u8>) -> (r: Result<[u8; 32], Error>)
        ensures
            match r {
                Ok(id) => Self::generate_outcome(old(self)@, owner, name@) is Ok && id@ == profile_hash(
                    owner,
                    name@,
                ),
                Err(e) => Self::generate_outcome(old(self)@, owner, name@) == Err::<(), Error>(e),
            },
            Self::generate_outcome(old(self)@, owner, name@) is Ok ==> final(self)@ == (UserState {
                profiles: old(self)@.profiles.insert(owner, ProfileView { owner, name: name@ }),
                profile_count: (old(self)@.profile_count + 1) as u32,
                ..old(self)@
            }),
            Self::generate_outcome(old(self)@, owner, name@) == Err::<(), Error>(Error::ProfileCountOverflow)
                ==> final(self)@ == (UserState {
                profiles: old(self)@.profiles.insert(owner, ProfileView { owner, name: name@ }),
                ..old(self)@
            }),
            Self::generate_outcome(old(self)@, owner, name@) is Err && Self::generate_outcome(
                old(self)@,
                owner,
                name@,
            ) != Err::<(), Error>(Error::ProfileCountOverflow) ==> final(self)@ == old(self)@,
    {
        if self.profiles.contains_key(&owner) {
            return Err(Error::ProfileAlreadyCreated);
        }
        if name.len() as u64 > self.string_limit as u64 {
            return Err(Error::Badmetadata);
        }
        let id = hash_profile(owner, &name);
        let ghost nv = name@;
        self.profiles.insert(owner, Profile { owner, name });
        proof {
            assert(view_map(self.profiles@) =~= old(self)@.profiles.insert(
                owner,
                ProfileView { owner, name: nv },
            ));
        }
        match self.profile_count.checked_add(1) {
            Some(n) => {
                self.profile_count = n;
            },
            None => {
                return Err(Error::ProfileCountOverflow);
            },
        }
        Ok(id)
    }

    /// The caller creates its profile named `name`.
    pub fn create_profile(&mut self, origin: Origin, name: Vec<u8>) -> (r: Result<(), Error>)
        ensures
            r == (match origin {
                Origin::Root => Err(Error::BadOrigin),
                Origin::Signed(who) => Self::generate_outcome(old(self)@, who, name@),
            }),
            r is Err ==> final(self)@ == old(self)@,
            r is Ok ==> {
                let who = origin->Signed_0;
                final(self)@ == (UserState {
                    profiles: old(self)@.profiles.insert(who, ProfileView { owner: who, name: name@ }),
                    profile_count: (old(self)@.profile_count + 1) as u32,
                    events: old(self)@.events.push(Event::ProfileCreated { who }),
                    ..old(self)@
                })
            },
    {
        let who = match ensure_signed(origin) {
            Some(a) => a,
            None => {
                return Err(Error::BadOrigin);
            },
        };
        if self.profile_count == u32::MAX && !self.profiles.contains_key(&who) && name.len() as u64
            <= self.string_limit as u64 {
            return Err(Error::ProfileCountOverflow);
        }
        match self.generate_profile(who, name) {
            Ok(_) => {},
            Err(e) => {
                return Err(e);
            },
        }
        self.events.push(Event::ProfileCreated { who });
        Ok(())
    }
}

/// A profile, once created, cannot be created again: a second creation for
/// the same account is refused.
pub proof fn law_one_profile_per_account(s: UserState, owner: AccountId, name: Seq<u8>, other: Seq<u8>)
    requires
        Pallet::generate_outcome(s, owner, name) is Ok,
    ensures
        Pallet::generate_outcome(
            UserState {
                profiles: s.profiles.insert(owner, ProfileView { owner, name }),
                profile_count: (s.profile_count + 1) as u32,
                ..s
            },
            owner,
            other,
        ) == Err::<(), Error>(Error::ProfileAlreadyCreated),
{
}

} // verus!
