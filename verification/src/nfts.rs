use std::collections::HashMap;
use vstd::prelude::*;

use crate::common::{pair_key, spec_pair_key, view_map, AccountId};

verus! {

broadcast use vstd::std_specs::hash::group_hash_axioms;

/// Identifier of an NFT collection.
pub type CollectionId = u32;

/// Identifier of an NFT inside its collection.
pub type ItemId = u32;

/// Why an NFT operation was refused.
#[derive(Clone, Copy, Debug, PartialEq, Eq, Structural)]
pub enum NftsError {
    /// The collection id is taken already.
    CollectionIdInUse,
    /// No collection with this id exists.
    UnknownCollection,
    /// The item exists already.
    AlreadyExists,
    /// No such item exists.
    UnknownItem,
    /// The caller does not own the item.
    NoPermission,
}

/// NFT collections and items read as maps.
pub struct NftsState {
    /// The id the next collection gets, if one is set.
    pub next_id: Option<CollectionId>,
    /// The owner of each collection.
    pub collections: Map<CollectionId, AccountId>,
    /// The owner of each item, keyed by `item_key`.
    pub items: Map<u128, AccountId>,
    /// The metadata of each item, keyed by `item_key`.
    pub metadata: Map<u128, Seq<u8>>,
    /// The metadata of each collection.
    pub collection_metadata: Map<CollectionId, Seq<u8>>,
}

/// The key of an item.
pub open spec fn item_key(c: CollectionId, i: ItemId) -> u128 {
    spec_pair_key(c as u64, i as u64)
}

impl NftsState {
    /// The owner of an item.
    pub open spec fn owner_of(self, c: CollectionId, i: ItemId) -> Option<AccountId> {
        if self.items.contains_key(item_key(c, i)) {
            Some(self.items[item_key(c, i)])
        } else {
            None
        }
    }

    /// The id that taking the next collection id hands out.
    pub open spec fn next_collection(self) -> CollectionId {
        match self.next_id {
            Some(n) => n,
            None => 0,
        }
    }

    /// The state after taking the next collection id.
    pub open spec fn after_take_id(self) -> NftsState {
        let id = self.next_collection();
        NftsState {
            next_id: if id < u32::MAX {
                Some((id + 1) as CollectionId)
            } else {
                None
            },
            ..self
        }
    }

    /// What minting item `i` of collection `c` answers.
    pub open spec fn mint_outcome(self, c: CollectionId, i: ItemId) -> Result<(), NftsError> {
        if !self.collections.contains_key(c) {
            Err(NftsError::UnknownCollection)
        } else if self.owner_of(c, i) is Some {
            Err(NftsError::AlreadyExists)
        } else {
            Ok(())
        }
    }

    /// What burning item `i` of collection `c` on behalf of `who` answers.
    pub open spec fn burn_outcome(self, c: CollectionId, i: ItemId, who: AccountId) -> Result<(), NftsError> {
        match self.owner_of(c, i) {
            None => Err(NftsError::UnknownItem),
            Some(o) => if o != who {
                Err(NftsError::NoPermission)
            } else {
                Ok(())
            },
        }
    }
}

/// NFT collections, the items in them and who owns each item.
pub struct Nfts {
    next_collection_id: Option<CollectionId>,
    collections: HashMap<CollectionId, AccountId>,
    items: HashMap<u128, AccountId>,
    metadata: HashMap<u128, Vec<u8>>,
    collection_metadata: HashMap<CollectionId, Vec<u8>>,
}

impl View for Nfts {
    type V = NftsState;

    closed spec fn view(&self) -> NftsState {
        NftsState {
            next_id: self.next_collection_id,
            collections: self.collections@,
            items: self.items@,
            metadata: view_map(self.metadata@),
            collection_metadata: view_map(self.collection_metadata@),
        }
    }
}

impl Nfts {
    /// No collection and no item.
    pub fn new() -> (n: Nfts)
        ensures
            n@ == (NftsState {
                next_id: None,
                collections: Map::empty(),
                items: Map::empty(),
                metadata: Map::empty(),
                collection_metadata: Map::empty(),
            }),
    {
        let n = Nfts {
            next_collection_id: None,
            collections: HashMap::new(),
            items: HashMap::new(),
            metadata: HashMap::new(),
            collection_metadata: HashMap::new(),
        };
        assert(view_map(n.metadata@) =~= Map::empty());
        assert(view_map(n.collection_metadata@) =~= Map::empty());
        n
    }

    /// A copy of all collections and items, to work on and to commit or drop.
    pub fn snapshot(&self) -> (r: Nfts)
        ensures
            r@ == self@,
    {
        Nfts {
            next_collection_id: self.next_collection_id,
            collections: self.collections.clone(),
            items: self.items.clone(),
            metadata: self.metadata.clone(),
            collection_metadata: self.collection_metadata.clone(),
        }
    }

    /// Hands out the next collection id: the stored one, or 0 where none is
    /// stored. The stored id then becomes the one after it, or none where
    /// there is no id after it.
    pub fn take_next_collection_id(&mut self) -> (id: CollectionId)
        ensures
            id == old(self)@.next_collection(),
            final(self)@ == old(self)@.after_take_id(),
    {
        let id = match self.next_collection_id {
            Some(n) => n,
            None => 0,
        };
        self.next_collection_id = id.checked_add(1);
        id
    }

    /// The id that taking the next collection id would hand out.
    pub fn peek_next_collection_id(&self) -> (id: CollectionId)
        ensures
            id == self@.next_collection(),
    {
        match self.next_collection_id {
            Some(n) => n,
            None => 0,
        }
    }

    /// Whether collection `c` exists.
    pub fn collection_exists(&self, c: CollectionId) -> (r: bool)
        ensures
            r == self@.collections.contains_key(c),
    {
        self.collections.contains_key(&c)
    }

    /// The owner of a collection.
    pub fn collection_owner(&self, c: CollectionId) -> (r: Option<AccountId>)
        ensures
            r == (if self@.collections.contains_key(c) {
                Some(self@.collections[c])
            } else {
                None::<AccountId>
            }),
    {
        match self.collections.get(&c) {
            Some(o) => Some(*o),
            None => None,
        }
    }

    /// The owner of an item.
    pub fn owner(&self, c: CollectionId, i: ItemId) -> (r: Option<AccountId>)
        ensures
            r == self@.owner_of(c, i),
    {
        match self.items.get(&pair_key(c as u64, i as u64)) {
            Some(o) => Some(*o),
            None => None,
        }
    }

    /// Creates collection `c` owned by `owner`.
    pub fn create_collection(&mut self, c: CollectionId, owner: AccountId) -> (r: Result<(), NftsError>)
        ensures
            r is Err <==> old(self)@.collections.contains_key(c),
            r is Err ==> r == Err::<(), NftsError>(NftsError::CollectionIdInUse) && final(self)@
                == old(self)@,
            r is Ok ==> final(self)@ == (NftsState {
                collections: old(self)@.collections.insert(c, owner),
                ..old(self)@
            }),
    {
        if self.collections.contains_key(&c) {
            return Err(NftsError::CollectionIdInUse);
        }
        self.collections.insert(c, owner);
        Ok(())
    }

    /// Mints item `i` of collection `c` to `owner`.
    pub fn mint(&mut self, c: CollectionId, i: ItemId, owner: AccountId) -> (r: Result<(), NftsError>)
        ensures
            r == old(self)@.mint_outcome(c, i),
            r is Err ==> final(self)@ == old(self)@,
            r is Ok ==> final(self)@ == (NftsState {
                items: old(self)@.items.insert(item_key(c, i), owner),
                ..old(self)@
            }),
    {
        if !self.collections.contains_key(&c) {
            return Err(NftsError::UnknownCollection);
        }
        let k = pair_key(c as u64, i as u64);
        if self.items.contains_key(&k) {
            return Err(NftsError::AlreadyExists);
        }
        self.items.insert(k, owner);
        Ok(())
    }

    /// Sets the metadata of item `i` of collection `c`.
    pub fn set_metadata(&mut self, c: CollectionId, i: ItemId, data: Vec<u8>)
        ensures
            final(self)@ == (NftsState {
                metadata: old(self)@.metadata.insert(item_key(c, i), data@),
                ..old(self)@
            }),
    {
        let ghost d = data@;
        self.metadata.insert(pair_key(c as u64, i as u64), data);
        assert(view_map(self.metadata@) =~= view_map(old(self).metadata@).insert(item_key(c, i), d));
    }

    /// Burns item `i` of collection `c`; only its owner may.
    pub fn burn(&mut self, c: CollectionId, i: ItemId, who: AccountId) -> (r: Result<(), NftsError>)
        ensures
            r == old(self)@.burn_outcome(c, i, who),
            r is Err ==> final(self)@ == old(self)@,
            r is Ok ==> final(self)@ == (NftsState {
                items: old(self)@.items.remove(item_key(c, i)),
                ..old(self)@
            }),
    {
        let k = pair_key(c as u64, i as u64);
        match self.items.get(&k) {
            None => Err(NftsError::UnknownItem),
            Some(o) => {
                if *o != who {
                    Err(NftsError::NoPermission)
                } else {
                    self.items.remove(&k);
                    Ok(())
                }
            },
        }
    }

    /// Hands item `i` of collection `c` to `to`.
    pub fn transfer(&mut self, c: CollectionId, i: ItemId, to: AccountId) -> (r: Result<(), NftsError>)
        ensures
            r is Err <==> old(self)@.owner_of(c, i) is None,
            r is Err ==> r == Err::<(), NftsError>(NftsError::UnknownItem) && final(self)@ == old(
                self,
            )@,
            r is Ok ==> final(self)@ == (NftsState {
                items: old(self)@.items.insert(item_key(c, i), to),
                ..old(self)@
            }),
    {
        let k = pair_key(c as u64, i as u64);
        if !self.items.contains_key(&k) {
            return Err(NftsError::UnknownItem);
        }
        self.items.insert(k, to);
        Ok(())
    }

    /// Sets the metadata of collection `c`.
    pub fn set_collection_metadata(&mut self, c: CollectionId, data: Vec<u8>)
        ensures
            final(self)@ == (NftsState {
                collection_metadata: old(self)@.collection_metadata.insert(c, data@),
                ..old(self)@
            }),
    {
        let ghost d = data@;
        self.collection_metadata.insert(c, data);
        assert(view_map(self.collection_metadata@) =~= view_map(old(self).collection_metadata@).insert(
            c,
            d,
        ));
    }

    /// Burns item `i` of collection `c`, whoever owns it.
    pub fn force_burn(&mut self, c: CollectionId, i: ItemId) -> (r: Result<(), NftsError>)
        ensures
            r is Err <==> old(self)@.owner_of(c, i) is None,
            r is Err ==> r == Err::<(), NftsError>(NftsError::UnknownItem) && final(self)@ == old(
                self,
            )@,
            r is Ok ==> final(self)@ == (NftsState {
                items: old(self)@.items.remove(item_key(c, i)),
                ..old(self)@
            }),
    {
        let k = pair_key(c as u64, i as u64);
        if !self.items.contains_key(&k) {
            return Err(NftsError::UnknownItem);
        }
        self.items.remove(&k);
        Ok(())
    }
}

} // verus!
