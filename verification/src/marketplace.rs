use std::collections::HashMap;
use vstd::prelude::*;

use crate::assets::{AssetId, Assets, AssetsError};
use crate::common::{
    ensure_signed, get_or, is_root, lemma_pair_key_injective, lemma_seq_map_insert,
    lemma_seq_map_remove, pair_key, seq_map, spec_pair_key, vec_contains, vec_position, view_map,
    AccountId, Balance, Origin,
};
use crate::nfts::{item_key, CollectionId, ItemId, Nfts, NftsError};
use crate::whitelist;

verus! {

broadcast use vstd::std_specs::hash::group_hash_axioms;

/// Identifier of a region; each region has an NFT collection of its own.
pub type RegionId = u32;

/// Identifier of a listing.
pub type ListingId = u32;

/// The asset in which buyers pay.
pub const PAYMENT_ASSET: AssetId = 1;

/// A real estate object registered on the marketplace.
#[derive(Clone, Debug, PartialEq, Eq)]
pub struct NftDetails {
    pub spv_created: bool,
    pub asset_id: AssetId,
    pub region: RegionId,
    pub location: Vec<u8>,
}

/// A registered real estate object, with the location as a sequence.
pub struct NftDetailsView {
    pub spv_created: bool,
    pub asset_id: AssetId,
    pub region: RegionId,
    pub location: Seq<u8>,
}

impl View for NftDetails {
    type V = NftDetailsView;

    open spec fn view(&self) -> NftDetailsView {
        NftDetailsView {
            spv_created: self.spv_created,
            asset_id: self.asset_id,
            region: self.region,
            location: self.location@,
        }
    }
}

/// What an asset id stands for, with the location as a sequence.
pub struct AssetDetailsView {
    pub collection_id: CollectionId,
    pub item_id: ItemId,
    pub region: RegionId,
    pub location: Seq<u8>,
    pub price: Balance,
    pub token_amount: u32,
}

impl View for AssetDetails {
    type V = AssetDetailsView;

    open spec fn view(&self) -> AssetDetailsView {
        AssetDetailsView {
            collection_id: self.collection_id,
            item_id: self.item_id,
            region: self.region,
            location: self.location@,
            price: self.price,
            token_amount: self.token_amount,
        }
    }
}

/// A map of stored lists of byte strings read as sequences of sequences.
pub open spec fn bytes_list_map<K>(m: Map<K, Vec<Vec<u8>>>) -> Map<K, Seq<Seq<u8>>> {
    Map::new(|k: K| m.contains_key(k), |k: K| m[k]@.map_values(|v: Vec<u8>| v@))
}

/// The listing of a real estate object whose tokens are sold.
#[derive(Clone, Copy, Debug, PartialEq, Eq, Structural)]
pub struct NftListingDetails {
    pub real_estate_developer: AccountId,
    pub token_price: Balance,
    pub collected_funds: Balance,
    pub collected_tax: Balance,
    pub collected_fees: Balance,
    pub asset_id: AssetId,
    pub item_id: ItemId,
    pub collection_id: CollectionId,
    pub token_amount: u32,
}

/// The listing of tokens that an owner sells again.
#[derive(Clone, Copy, Debug, PartialEq, Eq, Structural)]
pub struct TokenListingDetails {
    pub seller: AccountId,
    pub token_price: Balance,
    pub asset_id: AssetId,
    pub item_id: ItemId,
    pub collection_id: CollectionId,
    pub amount: u32,
}

/// What an asset id stands for.
#[derive(Clone, Debug, PartialEq, Eq)]
pub struct AssetDetails {
    pub collection_id: CollectionId,
    pub item_id: ItemId,
    pub region: RegionId,
    pub location: Vec<u8>,
    pub price: Balance,
    pub token_amount: u32,
}

/// An offer for the tokens of a token listing.
#[derive(Clone, Copy, Debug, PartialEq, Eq, Structural)]
pub struct OfferDetails {
    pub buyer: AccountId,
    pub token_price: Balance,
    pub amount: u32,
}

/// The status of a lawyer's review of the documents.
#[derive(Clone, Copy, Debug, PartialEq, Eq, Structural)]
pub enum DocumentStatus {
    Pending,
    Approved,
    Rejected,
}

/// The two sides of a property deal, each with a lawyer of its own.
#[derive(Clone, Copy, Debug, PartialEq, Eq, Structural)]
pub enum LegalProperty {
    RealEstateDeveloperSite,
    SpvSite,
}

/// What a seller does with an offer.
#[derive(Clone, Copy, Debug, PartialEq, Eq, Structural)]
pub enum Offer {
    Accept,
    Reject,
}

/// The lawyers of a sold-out property and their reviews.
#[derive(Clone, Copy, Debug, PartialEq, Eq, Structural)]
pub struct PropertyLawyerDetails {
    pub real_estate_developer_lawyer: Option<AccountId>,
    pub spv_lawyer: Option<AccountId>,
    pub real_estate_developer_status: DocumentStatus,
    pub spv_status: DocumentStatus,
    pub real_estate_developer_lawyer_costs: Balance,
    pub spv_lawyer_costs: Balance,
    pub second_attempt: bool,
}

/// The tokens an investor bought from a listed object, and what was paid.
#[derive(Clone, Copy, Debug, PartialEq, Eq, Structural)]
pub struct TokenOwnerDetails {
    pub token_amount: u32,
    pub paid_funds: Balance,
    pub paid_tax: Balance,
}

/// The account id of a pallet.
#[derive(Clone, Copy, Debug, PartialEq, Eq, Structural)]
pub struct PalletIdStorage {
    pub pallet_id: AccountId,
}

/// Events of the marketplace.
#[derive(Clone, Debug, PartialEq, Eq)]
pub enum Event {
    /// A new object has been listed on the marketplace.
    ObjectListed { collection_index: CollectionId, item_index: ItemId, price: Balance, seller: AccountId },
    /// A token has been bought.
    TokenBought { asset_id: AssetId, buyer: AccountId, price: Balance },
    /// Token from a listed object have been bought.
    TokenBoughtObject { asset_id: AssetId, buyer: AccountId, amount: u32, price: Balance },
    /// Token have been listed.
    TokenListed { asset_id: AssetId, price: Balance, seller: AccountId },
    /// The price of a token listing has been updated.
    ListingUpdated { listing_index: ListingId, new_price: Balance },
    /// A token listing has been delisted.
    ListingDelisted { listing_index: ListingId },
    /// The price of a listed object has been updated.
    ObjectUpdated { listing_index: ListingId, new_price: Balance },
    /// A new region has been created.
    RegionCreated { region_id: RegionId, collection_id: CollectionId },
    /// A new location has been created.
    LocationCreated { region_id: RegionId, location_id: Vec<u8> },
    /// A new offer has been made.
    OfferCreated { listing_id: ListingId, price: Balance },
    /// An offer has been cancelled.
    OfferCancelled { listing_id: ListingId, account_id: AccountId },
    /// Documents have been approved or rejected.
    DocumentsConfirmed { signer: AccountId, listing_id: ListingId, approve: bool },
    /// The property NFT got burned.
    PropertyNftBurned { collection_id: CollectionId, item_id: ItemId, asset_id: AssetId },
}

/// Why a marketplace call was refused.
#[derive(Clone, Copy, Debug, PartialEq, Eq, Structural)]
pub enum Error {
    /// The origin may not make this call.
    BadOrigin,
    /// This index is not taken.
    InvalidIndex,
    /// The buyer doesn't have enough funds.
    NotEnoughFunds,
    /// Not enough token available to buy.
    NotEnoughTokenAvailable,
    /// Error by converting a type.
    ConversionError,
    /// Error by dividing a number.
    DivisionError,
    /// Error by multiplying a number.
    MultiplyError,
    /// No sufficient permission.
    NoPermission,
    /// The SPV has already been created.
    SpvAlreadyCreated,
    /// User did not pass the kyc.
    UserNotWhitelisted,
    ArithmeticUnderflow,
    ArithmeticOverflow,
    /// The token is not for sale.
    TokenNotForSale,
    /// The nft has not been registered on the marketplace.
    NftNotFound,
    /// There are already too many token buyer.
    TooManyTokenBuyer,
    /// This Region is not known.
    RegionUnknown,
    /// The location is already registered.
    LocationRegistered,
    /// The location is not registered.
    LocationUnknown,
    /// The object can not be divided in so many token.
    TooManyToken,
    /// A user can only make one offer per listing.
    OnlyOneOfferPerUser,
    /// The lawyer has already been registered.
    LawyerAlreadyRegistered,
    /// The lawyer job has already been taken.
    LawyerJobTaken,
    /// A lawyer has not been set.
    LawyerNotFound,
    /// The lawyer's costs exceed the fees collected for the property.
    CostsTooHigh,
    /// The lawyer has already confirmed or rejected the documents.
    AlreadyConfirmed,
    /// An NFT operation was refused.
    Nfts(NftsError),
    /// An operation on assets was refused.
    Assets(AssetsError),
}

/// The storage of the marketplace, read as mathematical maps.
pub struct MarketState {
    pub pallet_account: AccountId,
    pub treasury_account: AccountId,
    pub community_account: AccountId,
    pub max_nft_token: u32,
    pub next_nft_id: Map<CollectionId, ItemId>,
    pub next_asset_id: AssetId,
    pub next_region_id: RegionId,
    pub locations: Map<RegionId, Seq<Seq<u8>>>,
    pub next_listing_id: ListingId,
    pub region_collections: Map<RegionId, CollectionId>,
    pub registered_nft_details: Map<u128, NftDetailsView>,
    pub ongoing_object_listing: Map<ListingId, NftListingDetails>,
    pub listed_token: Map<ListingId, u32>,
    pub token_buyer: Map<ListingId, Seq<AccountId>>,
    pub token_owner: Map<u128, TokenOwnerDetails>,
    pub token_listings: Map<ListingId, TokenListingDetails>,
    pub property_owner: Map<AssetId, Seq<AccountId>>,
    pub property_owner_token: Map<u128, u32>,
    pub asset_id_details: Map<AssetId, AssetDetailsView>,
    pub ongoing_offers: Map<u128, OfferDetails>,
    pub real_estate_lawyer: Map<AccountId, bool>,
    pub property_lawyer: Map<ListingId, PropertyLawyerDetails>,
    pub events: Seq<Event>,
}

/// The key of an investor's tokens of a listing.
pub open spec fn owner_key(who: AccountId, listing: ListingId) -> u128 {
    spec_pair_key(who, listing as u64)
}

/// The key of an account's holding of a property asset.
pub open spec fn holding_key(asset: AssetId, who: AccountId) -> u128 {
    spec_pair_key(asset as u64, who)
}

/// The key of an offer.
pub open spec fn offer_key(listing: ListingId, who: AccountId) -> u128 {
    spec_pair_key(listing as u64, who)
}

impl MarketState {
    /// Whether `location` is registered in `region`.
    pub open spec fn location_registered(&self, region: RegionId, location: Seq<u8>) -> bool {
        &&& self.locations.contains_key(region)
        &&& self.locations[region].contains(location)
    }

    /// The locations registered in a region, oldest first.
    pub open spec fn location_list(&self, region: RegionId) -> Seq<Seq<u8>> {
        if self.locations.contains_key(region) {
            self.locations[region]
        } else {
            Seq::empty()
        }
    }

    /// The buyers of a listed object, in the order of their first purchase.
    pub open spec fn buyers(&self, listing: ListingId) -> Seq<AccountId> {
        get_or(self.token_buyer, listing, Seq::empty())
    }

    /// What an investor bought of a listed object.
    pub open spec fn owner_details(&self, who: AccountId, listing: ListingId) -> TokenOwnerDetails {
        get_or(
            self.token_owner,
            owner_key(who, listing),
            TokenOwnerDetails { token_amount: 0, paid_funds: 0, paid_tax: 0 },
        )
    }

    /// The owners of a property asset.
    pub open spec fn owners(&self, asset: AssetId) -> Seq<AccountId> {
        get_or(self.property_owner, asset, Seq::empty())
    }

    /// How many tokens of a property an owner holds.
    pub open spec fn owner_tokens(&self, asset: AssetId, who: AccountId) -> u32 {
        get_or(self.property_owner_token, holding_key(asset, who), 0)
    }

    /// Whether `who` is a registered lawyer.
    pub open spec fn is_lawyer(&self, who: AccountId) -> bool {
        get_or(self.real_estate_lawyer, who, false)
    }
}

/// The marketplace for tokenised real estate.
pub struct Pallet {
    pallet_account: AccountId,
    treasury_account: AccountId,
    community_account: AccountId,
    max_nft_token: u32,
    next_nft_id: HashMap<CollectionId, ItemId>,
    next_asset_id: AssetId,
    next_region_id: RegionId,
    locations: HashMap<RegionId, Vec<Vec<u8>>>,
    next_listing_id: ListingId,
    region_collections: HashMap<RegionId, CollectionId>,
    registered_nft_details: HashMap<u128, NftDetails>,
    ongoing_object_listing: HashMap<ListingId, NftListingDetails>,
    listed_token: HashMap<ListingId, u32>,
    token_buyer: HashMap<ListingId, Vec<AccountId>>,
    token_owner: HashMap<u128, TokenOwnerDetails>,
    token_listings: HashMap<ListingId, TokenListingDetails>,
    property_owner: HashMap<AssetId, Vec<AccountId>>,
    property_owner_token: HashMap<u128, u32>,
    asset_id_details: HashMap<AssetId, AssetDetails>,
    ongoing_offers: HashMap<u128, OfferDetails>,
    real_estate_lawyer: HashMap<AccountId, bool>,
    property_lawyer: HashMap<ListingId, PropertyLawyerDetails>,
    events: Vec<Event>,
}

impl View for Pallet {
    type V = MarketState;

    closed spec fn view(&self) -> MarketState {
        MarketState {
            pallet_account: self.pallet_account,
            treasury_account: self.treasury_account,
            community_account: self.community_account,
            max_nft_token: self.max_nft_token,
            next_nft_id: self.next_nft_id@,
            next_asset_id: self.next_asset_id,
            next_region_id: self.next_region_id,
            locations: bytes_list_map(self.locations@),
            next_listing_id: self.next_listing_id,
            region_collections: self.region_collections@,
            registered_nft_details: view_map(self.registered_nft_details@),
            ongoing_object_listing: self.ongoing_object_listing@,
            listed_token: self.listed_token@,
            token_buyer: seq_map(self.token_buyer@),
            token_owner: self.token_owner@,
            token_listings: self.token_listings@,
            property_owner: seq_map(self.property_owner@),
            property_owner_token: self.property_owner_token@,
            asset_id_details: view_map(self.asset_id_details@),
            ongoing_offers: self.ongoing_offers@,
            real_estate_lawyer: self.real_estate_lawyer@,
            property_lawyer: self.property_lawyer@,
            events: self.events@,
        }
    }
}

impl Pallet {
    /// A marketplace with empty storage. `max_nft_token` bounds the tokens of
    /// an object and the buyers and owners of a property.
    pub fn new(
        pallet_account: AccountId,
        treasury_account: AccountId,
        community_account: AccountId,
        max_nft_token: u32,
    ) -> (p: Pallet)
        ensures
            p@ == (MarketState {
                pallet_account,
                treasury_account,
                community_account,
                max_nft_token,
                next_nft_id: Map::empty(),
                next_asset_id: 0,
                next_region_id: 0,
                locations: Map::empty(),
                next_listing_id: 0,
                region_collections: Map::empty(),
                registered_nft_details: Map::empty(),
                ongoing_object_listing: Map::empty(),
                listed_token: Map::empty(),
                token_buyer: Map::empty(),
                token_owner: Map::empty(),
                token_listings: Map::empty(),
                property_owner: Map::empty(),
                property_owner_token: Map::empty(),
                asset_id_details: Map::empty(),
                ongoing_offers: Map::empty(),
                real_estate_lawyer: Map::empty(),
                property_lawyer: Map::empty(),
                events: Seq::empty(),
            }),
    {
        let p = Pallet {
            pallet_account,
            treasury_account,
            community_account,
            max_nft_token,
            next_nft_id: HashMap::new(),
            next_asset_id: 0,
            next_region_id: 0,
            locations: HashMap::new(),
            next_listing_id: 0,
            region_collections: HashMap::new(),
            registered_nft_details: HashMap::new(),
            ongoing_object_listing: HashMap::new(),
            listed_token: HashMap::new(),
            token_buyer: HashMap::new(),
            token_owner: HashMap::new(),
            token_listings: HashMap::new(),
            property_owner: HashMap::new(),
            property_owner_token: HashMap::new(),
            asset_id_details: HashMap::new(),
            ongoing_offers: HashMap::new(),
            real_estate_lawyer: HashMap::new(),
            property_lawyer: HashMap::new(),
            events: Vec::new(),
        };
        assert(seq_map(p.token_buyer@) =~= Map::empty());
        assert(bytes_list_map(p.locations@) =~= Map::empty());
        assert(view_map(p.registered_nft_details@) =~= Map::empty());
        assert(view_map(p.asset_id_details@) =~= Map::empty());
        assert(seq_map(p.property_owner@) =~= Map::empty());
        p
    }
}


/// What `transfer_funds` answers.
pub open spec fn transfer_funds_outcome(
    assets: crate::assets::AssetsState,
    from: AccountId,
    to: AccountId,
    amount: Balance,
) -> Result<(), Error> {
    if amount > u32::MAX {
        Err(Error::ConversionError)
    } else if assets.transfer_outcome(PAYMENT_ASSET, from, to, amount) is Err {
        Err(Error::NotEnoughFunds)
    } else {
        Ok(())
    }
}

/// Pays `amount` of the payment asset from `from` to `to`; amounts beyond
/// `u32::MAX` are refused.
pub fn transfer_funds(assets: &mut Assets, from: AccountId, to: AccountId, amount: Balance) -> (r:
    Result<(), Error>)
    ensures
        r == transfer_funds_outcome(old(assets)@, from, to, amount),
        r is Ok ==> final(assets)@ == old(assets)@.after_transfer(PAYMENT_ASSET, from, to, amount),
        r is Err ==> final(assets)@ == old(assets)@,
{
    if amount > u32::MAX as u128 {
        return Err(Error::ConversionError);
    }
    match assets.transfer(PAYMENT_ASSET, from, to, amount) {
        Ok(()) => Ok(()),
        Err(_) => Err(Error::NotEnoughFunds),
    }
}

/// The next listing id after `listing_id`.
pub fn next_listing_id(listing_id: ListingId) -> (r: Result<ListingId, Error>)
    ensures
        r == (if listing_id < u32::MAX {
            Ok::<ListingId, Error>((listing_id + 1) as ListingId)
        } else {
            Err(Error::ArithmeticOverflow)
        }),
{
    match listing_id.checked_add(1) {
        Some(n) => Ok(n),
        None => Err(Error::ArithmeticOverflow),
    }
}

/// Converts a `u64` into a balance; every `u64` fits.
pub fn u64_to_balance_option(input: u64) -> (r: Result<Balance, Error>)
    ensures
        r == Ok::<Balance, Error>(input as Balance),
{
    Ok(input as Balance)
}

impl OfferDetails {
    /// The price of all offered tokens.
    pub open spec fn total_amount(self) -> Option<Balance> {
        if self.token_price * self.amount <= u128::MAX {
            Some((self.token_price * self.amount) as Balance)
        } else {
            None
        }
    }

    /// The price of all offered tokens: the token price times the amount.
    pub fn get_total_amount(&self) -> (r: Result<Balance, Error>)
        ensures
            r == (match self.total_amount() {
                Some(p) => Ok::<Balance, Error>(p),
                None => Err(Error::MultiplyError),
            }),
    {
        let amount_in_balance = u64_to_balance_option(self.amount as u64)?;
        match self.token_price.checked_mul(amount_in_balance) {
            Some(p) => Ok(p),
            None => Err(Error::MultiplyError),
        }
    }
}

impl Pallet {
    /// The account of the marketplace.
    pub fn account_id(&self) -> (r: AccountId)
        ensures
            r == self@.pallet_account,
    {
        self.pallet_account
    }

    /// The account of the treasury.
    pub fn treasury_account_id(&self) -> (r: AccountId)
        ensures
            r == self@.treasury_account,
    {
        self.treasury_account
    }

    /// The account of the community projects.
    pub fn community_account_id(&self) -> (r: AccountId)
        ensures
            r == self@.community_account,
    {
        self.community_account
    }

    /// What `create_new_region` answers.
    pub open spec fn create_new_region_outcome(
        s: MarketState,
        nfts: crate::nfts::NftsState,
        origin: Origin,
    ) -> Result<(), Error> {
        if !(origin is Root) {
            Err(Error::BadOrigin)
        } else if nfts.collections.contains_key(nfts.next_collection()) {
            Err(Error::Nfts(NftsError::CollectionIdInUse))
        } else if s.next_region_id == u32::MAX {
            Err(Error::ArithmeticOverflow)
        } else {
            Ok(())
        }
    }

    /// Creates a new region with a new NFT collection of its own, owned by
    /// the marketplace account. Only the root origin may call.
    pub fn create_new_region(&mut self, nfts: &mut Nfts, origin: Origin) -> (r: Result<(), Error>)
        ensures
            r == Self::create_new_region_outcome(old(self)@, old(nfts)@, origin),
            r is Err ==> final(self)@ == old(self)@ && final(nfts)@ == old(nfts)@,
            r is Ok ==> {
                let id = old(nfts)@.next_collection();
                let region = old(self)@.next_region_id;
                &&& final(nfts)@ == (crate::nfts::NftsState {
                    collections: old(nfts)@.collections.insert(id, old(self)@.pallet_account),
                    ..old(nfts)@.after_take_id()
                })
                &&& final(self)@ == (MarketState {
                    region_collections: old(self)@.region_collections.insert(region, id),
                    next_region_id: (region + 1) as RegionId,
                    events: old(self)@.events.push(
                        Event::RegionCreated { region_id: (region + 1) as RegionId, collection_id: id },
                    ),
                    ..old(self)@
                })
            },
    {
        if !is_root(origin) {
            return Err(Error::BadOrigin);
        }
        let id = nfts.peek_next_collection_id();
        if nfts.collection_exists(id) {
            return Err(Error::Nfts(NftsError::CollectionIdInUse));
        }
        let region_id = self.next_region_id;
        if region_id == u32::MAX {
            return Err(Error::ArithmeticOverflow);
        }
        let taken = nfts.take_next_collection_id();
        let _ = nfts.create_collection(taken, self.pallet_account);
        self.region_collections.insert(region_id, id);
        self.next_region_id = region_id + 1;
        self.events.push(Event::RegionCreated { region_id: region_id + 1, collection_id: id });
        Ok(())
    }

    /// Whether `location` is registered in `region`.
    pub fn location_registration(&self, region: RegionId, location: &Vec<u8>) -> (r: bool)
        ensures
            r == self@.location_registered(region, location@),
    {
        match self.locations.get(&region) {
            None => false,
            Some(list) => {
                let mut i: usize = 0;
                while i < list.len()
                    invariant
                        i <= list.len(),
                        self.locations@.contains_key(region),
                        self.locations@[region] == *list,
                        forall|j: int| 0 <= j < i ==> (#[trigger] list@[j])@ != location@,
                    decreases list.len() - i,
                {
                    if bytes_equal(&list[i], location) {
                        assert(self@.locations[region][i as int] == location@);
                        assert(self@.location_registered(region, location@));
                        return true;
                    }
                    i = i + 1;
                }
                assert(!self@.locations[region].contains(location@)) by {
                    if self@.locations[region].contains(location@) {
                        let k = choose|k: int|
                            0 <= k < self@.locations[region].len() && self@.locations[region][k]
                                == location@;
                        assert(list@[k]@ == location@);
                    }
                }
                false
            },
        }
    }

    /// What `create_new_location` answers.
    pub open spec fn create_new_location_outcome(
        s: MarketState,
        origin: Origin,
        region: RegionId,
        location: Seq<u8>,
    ) -> Result<(), Error> {
        if !(origin is Root) {
            Err(Error::BadOrigin)
        } else if !s.region_collections.contains_key(region) {
            Err(Error::RegionUnknown)
        } else if s.location_registered(region, location) {
            Err(Error::LocationRegistered)
        } else {
            Ok(())
        }
    }

    /// Registers the location `location` (a postcode) in `region`. Only the
    /// root origin may call.
    pub fn create_new_location(&mut self, origin: Origin, region: RegionId, location: Vec<u8>) -> (r:
        Result<(), Error>)
        ensures
            r == Self::create_new_location_outcome(old(self)@, origin, region, location@),
            r is Err ==> final(self)@ == old(self)@,
            r is Ok ==> final(self)@ == (MarketState {
                locations: old(self)@.locations.insert(
                    region,
                    old(self)@.location_list(region).push(location@),
                ),
                events: old(self)@.events.push(
                    Event::LocationCreated { region_id: region, location_id: location },
                ),
                ..old(self)@
            }),
    {
        if !is_root(origin) {
            return Err(Error::BadOrigin);
        }
        if !self.region_collections.contains_key(&region) {
            return Err(Error::RegionUnknown);
        }
        if self.location_registration(region, &location) {
            return Err(Error::LocationRegistered);
        }
        let mut list = match self.locations.remove(&region) {
            Some(l) => l,
            None => Vec::new(),
        };
        let ghost old_list = list@;
        list.push(location.clone());
        proof {
            assert(list@.map_values(|v: Vec<u8>| v@) =~= old(self)@.location_list(region).push(
                location@,
            ));
        }
        self.locations.insert(region, list);
        self.events.push(Event::LocationCreated { region_id: region, location_id: location });
        proof {
            assert(self@.locations =~= old(self)@.locations.insert(
                region,
                old(self)@.location_list(region).push(location@),
            ));
        }
        Ok(())
    }

    /// Whether `lawyer` is registered as a real estate lawyer.
    pub fn real_estate_lawyer(&self, lawyer: AccountId) -> (r: bool)
        ensures
            r == self@.is_lawyer(lawyer),
    {
        match self.real_estate_lawyer.get(&lawyer) {
            Some(b) => *b,
            None => false,
        }
    }

    /// Registers `lawyer` as a real estate lawyer. Only the root origin may
    /// call.
    pub fn register_lawyer(&mut self, origin: Origin, lawyer: AccountId) -> (r: Result<(), Error>)
        ensures
            r == (if !(origin is Root) {
                Err(Error::BadOrigin)
            } else if old(self)@.is_lawyer(lawyer) {
                Err(Error::LawyerAlreadyRegistered)
            } else {
                Ok(())
            }),
            r is Err ==> final(self)@ == old(self)@,
            r is Ok ==> final(self)@ == (MarketState {
                real_estate_lawyer: old(self)@.real_estate_lawyer.insert(lawyer, true),
                ..old(self)@
            }),
    {
        if !is_root(origin) {
            return Err(Error::BadOrigin);
        }
        if self.real_estate_lawyer(lawyer) {
            return Err(Error::LawyerAlreadyRegistered);
        }
        self.real_estate_lawyer.insert(lawyer, true);
        Ok(())
    }
}

/// The least asset id at or after `start` that no asset has, if any.
pub open spec fn first_free_asset(a: crate::assets::AssetsState, start: AssetId) -> Option<AssetId>
    decreases u32::MAX - start,
{
    if !a.has_asset(start) {
        Some(start)
    } else if start == u32::MAX {
        None
    } else {
        first_free_asset(a, (start + 1) as AssetId)
    }
}

/// The storage after `signer` lists an object in `region` at `location`:
/// its NFT and asset are registered and its tokens are listed under the
/// next listing id.
pub open spec fn after_list_object(
    s: MarketState,
    assets: crate::assets::AssetsState,
    signer: AccountId,
    region: RegionId,
    location: Seq<u8>,
    token_price: Balance,
    token_amount: u32,
) -> MarketState {
    let c = s.region_collections[region];
    let item = get_or(s.next_nft_id, c, 0);
    let asset = first_free_asset(assets, s.next_asset_id)->Some_0;
    let listing = s.next_listing_id;
    MarketState {
        registered_nft_details: s.registered_nft_details.insert(
            item_key(c, item),
            NftDetailsView { spv_created: false, asset_id: asset, region, location },
        ),
        ongoing_object_listing: s.ongoing_object_listing.insert(
            listing,
            NftListingDetails {
                real_estate_developer: signer,
                token_price,
                collected_funds: 0,
                collected_tax: 0,
                collected_fees: 0,
                asset_id: asset,
                item_id: item,
                collection_id: c,
                token_amount,
            },
        ),
        listed_token: s.listed_token.insert(listing, token_amount),
        asset_id_details: s.asset_id_details.insert(
            asset,
            AssetDetailsView {
                collection_id: c,
                item_id: item,
                region,
                location,
                price: (token_price * token_amount) as Balance,
                token_amount,
            },
        ),
        next_nft_id: s.next_nft_id.insert(c, (item + 1) as ItemId),
        next_asset_id: (asset + 1) as AssetId,
        next_listing_id: (listing + 1) as ListingId,
        events: s.events.push(
            Event::ObjectListed {
                collection_index: c,
                item_index: item,
                price: token_price,
                seller: signer,
            },
        ),
        ..s
    }
}

/// The free asset id is free and no id between the start and it is.
pub proof fn lemma_first_free_asset(a: crate::assets::AssetsState, start: AssetId)
    ensures
        first_free_asset(a, start) matches Some(x) ==> start <= x && !a.has_asset(x),
    decreases u32::MAX - start,
{
    if a.has_asset(start) && start < u32::MAX {
        lemma_first_free_asset(a, (start + 1) as AssetId);
    }
}

impl Pallet {
    /// Finds the least asset id at or after the next asset id that no asset
    /// has yet.
    fn find_free_asset(&self, assets: &Assets) -> (r: Option<AssetId>)
        ensures
            r == first_free_asset(assets@, self@.next_asset_id),
    {
        let mut n = self.next_asset_id;
        while assets.asset_exists(n)
            invariant
                first_free_asset(assets@, n) == first_free_asset(assets@, self@.next_asset_id),
            decreases u32::MAX - n,
        {
            if n == u32::MAX {
                return None;
            }
            n = n + 1;
        }
        Some(n)
    }

    /// What `list_object` answers.
    pub open spec fn list_object_outcome(
        s: MarketState,
        assets: crate::assets::AssetsState,
        nfts: crate::nfts::NftsState,
        whitelisted: Seq<AccountId>,
        origin: Origin,
        region: RegionId,
        location: Seq<u8>,
        token_price: Balance,
        token_amount: u32,
    ) -> Result<(), Error> {
        match origin {
            Origin::Root => Err(Error::BadOrigin),
            Origin::Signed(signer) => if !whitelisted.contains(signer) {
                Err(Error::UserNotWhitelisted)
            } else if token_amount > s.max_nft_token {
                Err(Error::TooManyToken)
            } else if !s.region_collections.contains_key(region) {
                Err(Error::RegionUnknown)
            } else if !s.location_registered(region, location) {
                Err(Error::LocationUnknown)
            } else {
                let c = s.region_collections[region];
                let item = get_or(s.next_nft_id, c, 0);
                match first_free_asset(assets, s.next_asset_id) {
                    None => Err(Error::ArithmeticOverflow),
                    Some(asset) => match nfts.mint_outcome(c, item) {
                        Err(e) => Err(Error::Nfts(e)),
                        Ok(_) => {
                            let created = crate::assets::AssetsState {
                                supply: assets.supply.insert(asset, 0),
                                balances: assets.balances,
                            };
                            match created.mint_outcome(asset, s.pallet_account, token_amount as Balance) {
                                Err(e) => Err(Error::Assets(e)),
                                Ok(_) => if token_price * token_amount > u128::MAX {
                                    Err(Error::MultiplyError)
                                } else if item == u32::MAX || asset == u32::MAX
                                    || s.next_listing_id == u32::MAX {
                                    Err(Error::ArithmeticOverflow)
                                } else {
                                    Ok(())
                                },
                            }
                        },
                    },
                }
            },
        }
    }

    /// Lists a real estate object: mints its NFT in the region's collection
    /// to the marketplace, splits it into `token_amount` tokens of a new asset
    /// held by the marketplace and offers them at `token_price` each.
    pub fn list_object(
        &mut self,
        assets: &mut Assets,
        nfts: &mut Nfts,
        whitelist: &whitelist::Pallet,
        origin: Origin,
        region: RegionId,
        location: Vec<u8>,
        token_price: Balance,
        token_amount: u32,
        data: Vec<u8>,
    ) -> (r: Result<(), Error>)
        ensures
            r == Self::list_object_outcome(
                old(self)@,
                old(assets)@,
                old(nfts)@,
                whitelist.accounts(),
                origin,
                region,
                location@,
                token_price,
                token_amount,
            ),
            r is Err ==> final(self)@ == old(self)@ && final(assets)@ == old(assets)@
                && final(nfts)@ == old(nfts)@,
            r is Ok ==> {
                let s = old(self)@;
                let signer = origin->Signed_0;
                let c = s.region_collections[region];
                let item = get_or(s.next_nft_id, c, 0);
                let asset = first_free_asset(old(assets)@, s.next_asset_id)->Some_0;
                &&& final(nfts)@ == (crate::nfts::NftsState {
                    items: old(nfts)@.items.insert(item_key(c, item), s.pallet_account),
                    metadata: old(nfts)@.metadata.insert(item_key(c, item), data@),
                    ..old(nfts)@
                })
                &&& final(assets)@ == (crate::assets::AssetsState {
                    supply: old(assets)@.supply.insert(asset, 0),
                    balances: old(assets)@.balances,
                }).after_mint(asset, s.pallet_account, token_amount as Balance)
                &&& final(self)@ == after_list_object(
                    s,
                    old(assets)@,
                    signer,
                    region,
                    location@,
                    token_price,
                    token_amount,
                )
            },
    {
        let signer = match ensure_signed(origin) {
            Some(a) => a,
            None => {
                return Err(Error::BadOrigin);
            },
        };
        if !whitelist.is_whitelisted(signer) {
            return Err(Error::UserNotWhitelisted);
        }
        if token_amount > self.max_nft_token {
            return Err(Error::TooManyToken);
        }
        let c = match self.region_collections.get(&region) {
            Some(c) => *c,
            None => {
                return Err(Error::RegionUnknown);
            },
        };
        if !self.location_registration(region, &location) {
            return Err(Error::LocationUnknown);
        }
        let item = match self.next_nft_id.get(&c) {
            Some(i) => *i,
            None => 0,
        };
        let asset = match self.find_free_asset(assets) {
            Some(a) => a,
            None => {
                return Err(Error::ArithmeticOverflow);
            },
        };
        proof {
            lemma_first_free_asset(assets@, self@.next_asset_id);
        }
        if nfts.owner(c, item).is_some() || !nfts.collection_exists(c) {
            return match nfts.mint(c, item, self.pallet_account) {
                Err(e) => Err(Error::Nfts(e)),
                Ok(()) => Err(Error::Nfts(NftsError::AlreadyExists)),
            };
        }
        let pallet = self.pallet_account;
        let held = assets.balance(asset, pallet);
        if held > u128::MAX - token_amount as u128 {
            return Err(Error::Assets(AssetsError::Overflow));
        }
        let price = match token_price.checked_mul(token_amount as u128) {
            Some(p) => p,
            None => {
                return Err(Error::MultiplyError);
            },
        };
        let listing = self.next_listing_id;
        if item == u32::MAX || asset == u32::MAX || listing == u32::MAX {
            return Err(Error::ArithmeticOverflow);
        }
        let _ = nfts.mint(c, item, pallet);
        nfts.set_metadata(c, item, data);
        let _ = assets.create(asset);
        let _ = assets.mint(asset, pallet, token_amount as u128);
        let k = pair_key(c as u64, item as u64);
        self.registered_nft_details.insert(
            k,
            NftDetails { spv_created: false, asset_id: asset, region, location: location.clone() },
        );
        self.ongoing_object_listing.insert(
            listing,
            NftListingDetails {
                real_estate_developer: signer,
                token_price,
                collected_funds: 0,
                collected_tax: 0,
                collected_fees: 0,
                asset_id: asset,
                item_id: item,
                collection_id: c,
                token_amount,
            },
        );
        self.listed_token.insert(listing, token_amount);
        self.asset_id_details.insert(
            asset,
            AssetDetails {
                collection_id: c,
                item_id: item,
                region,
                location,
                price,
                token_amount,
            },
        );
        self.next_nft_id.insert(c, item + 1);
        self.next_asset_id = asset + 1;
        self.next_listing_id = listing + 1;
        self.events.push(
            Event::ObjectListed { collection_index: c, item_index: item, price: token_price, seller: signer },
        );
        proof {
            assert(self@.registered_nft_details =~= old(self)@.registered_nft_details.insert(
                item_key(c, item),
                NftDetailsView { spv_created: false, asset_id: asset, region, location: location@ },
            ));
            assert(self@.asset_id_details =~= old(self)@.asset_id_details.insert(
                asset,
                AssetDetailsView {
                    collection_id: c,
                    item_id: item,
                    region,
                    location: location@,
                    price,
                    token_amount,
                },
            ));
        }
        Ok(())
    }
}

/// The fee of 1 % on a purchase.
pub open spec fn fee_of(price: Balance) -> Balance {
    (price / 100) as Balance
}

/// The tax of 3 % on a purchase.
pub open spec fn tax_of(price: Balance) -> Balance {
    (price * 3 / 100) as Balance
}

/// The lawyer details of a property whose tokens are all sold: no lawyer yet,
/// both reviews pending.
pub open spec fn pending_lawyer_details() -> PropertyLawyerDetails {
    PropertyLawyerDetails {
        real_estate_developer_lawyer: None,
        spv_lawyer: None,
        real_estate_developer_status: DocumentStatus::Pending,
        spv_status: DocumentStatus::Pending,
        real_estate_developer_lawyer_costs: 0,
        spv_lawyer_costs: 0,
        second_attempt: false,
    }
}

/// The storage after `signer` buys `amount` tokens of listed object
/// `listing_id`.
pub open spec fn after_buy_token(s: MarketState, signer: AccountId, listing_id: ListingId, amount: u32) -> MarketState {
    let nft = s.ongoing_object_listing[listing_id];
    let price = (nft.token_price * amount) as Balance;
    let fee = fee_of(price);
    let tax = tax_of(price);
    let remaining = (s.listed_token[listing_id] - amount) as u32;
    let od = s.owner_details(signer, listing_id);
    MarketState {
        listed_token: if remaining == 0 {
            s.listed_token.remove(listing_id)
        } else {
            s.listed_token.insert(listing_id, remaining)
        },
        token_buyer: if s.buyers(listing_id).contains(signer) {
            s.token_buyer
        } else {
            s.token_buyer.insert(listing_id, s.buyers(listing_id).push(signer))
        },
        token_owner: s.token_owner.insert(
            owner_key(signer, listing_id),
            TokenOwnerDetails {
                token_amount: (od.token_amount + amount) as u32,
                paid_funds: (od.paid_funds + price) as Balance,
                paid_tax: (od.paid_tax + tax) as Balance,
            },
        ),
        ongoing_object_listing: s.ongoing_object_listing.insert(
            listing_id,
            NftListingDetails {
                collected_funds: (nft.collected_funds + price) as Balance,
                collected_tax: (nft.collected_tax + tax) as Balance,
                collected_fees: (nft.collected_fees + fee) as Balance,
                ..nft
            },
        ),
        property_lawyer: if remaining == 0 {
            s.property_lawyer.insert(listing_id, pending_lawyer_details())
        } else {
            s.property_lawyer
        },
        events: s.events.push(
            Event::TokenBoughtObject {
                asset_id: nft.asset_id,
                buyer: signer,
                amount,
                price,
            },
        ),
        ..s
    }
}

impl Pallet {
    /// What `buy_token` answers.
    pub open spec fn buy_token_outcome(
        s: MarketState,
        assets: crate::assets::AssetsState,
        whitelisted: Seq<AccountId>,
        origin: Origin,
        listing_id: ListingId,
        amount: u32,
    ) -> Result<(), Error> {
        match origin {
            Origin::Root => Err(Error::BadOrigin),
            Origin::Signed(signer) => if !whitelisted.contains(signer) {
                Err(Error::UserNotWhitelisted)
            } else if !s.listed_token.contains_key(listing_id) {
                Err(Error::TokenNotForSale)
            } else if s.listed_token[listing_id] < amount {
                Err(Error::NotEnoughTokenAvailable)
            } else if !s.ongoing_object_listing.contains_key(listing_id) {
                Err(Error::InvalidIndex)
            } else {
                let nft = s.ongoing_object_listing[listing_id];
                let key = item_key(nft.collection_id, nft.item_id);
                if !s.registered_nft_details.contains_key(key) {
                    Err(Error::InvalidIndex)
                } else if s.registered_nft_details[key].spv_created {
                    Err(Error::SpvAlreadyCreated)
                } else if nft.token_price * amount > u128::MAX {
                    Err(Error::MultiplyError)
                } else {
                    let price = (nft.token_price * amount) as Balance;
                    if price * 3 > u128::MAX {
                        Err(Error::MultiplyError)
                    } else if price + fee_of(price) + tax_of(price) > u128::MAX {
                        Err(Error::ArithmeticOverflow)
                    } else {
                        let total = (price + fee_of(price) + tax_of(price)) as Balance;
                        match transfer_funds_outcome(assets, signer, s.pallet_account, total) {
                            Err(e) => Err(e),
                            Ok(_) => {
                                let od = s.owner_details(signer, listing_id);
                                if !s.buyers(listing_id).contains(signer) && s.buyers(
                                    listing_id,
                                ).len() >= s.max_nft_token {
                                    Err(Error::TooManyTokenBuyer)
                                } else if od.token_amount + amount > u32::MAX || od.paid_funds
                                    + price > u128::MAX || od.paid_tax + tax_of(price)
                                    > u128::MAX {
                                    Err(Error::ArithmeticOverflow)
                                } else if nft.collected_funds + price > u128::MAX
                                    || nft.collected_tax + tax_of(price) > u128::MAX
                                    || nft.collected_fees + fee_of(price) > u128::MAX {
                                    Err(Error::ArithmeticOverflow)
                                } else {
                                    Ok(())
                                }
                            },
                        }
                    }
                }
            },
        }
    }

    /// Buys `amount` tokens of a listed object. The buyer pays the price of
    /// the tokens plus a fee of 1 % and a tax of 3 % to the marketplace; the
    /// tokens stay with the marketplace until the deal is executed. Once all
    /// tokens are sold, the property waits for its lawyers.
    pub fn buy_token(
        &mut self,
        assets: &mut Assets,
        whitelist: &whitelist::Pallet,
        origin: Origin,
        listing_id: ListingId,
        amount: u32,
    ) -> (r: Result<(), Error>)
        ensures
            r == Self::buy_token_outcome(
                old(self)@,
                old(assets)@,
                whitelist.accounts(),
                origin,
                listing_id,
                amount,
            ),
            r is Err ==> final(self)@ == old(self)@ && final(assets)@ == old(assets)@,
            r is Ok ==> {
                let s = old(self)@;
                let signer = origin->Signed_0;
                let nft = s.ongoing_object_listing[listing_id];
                let price = (nft.token_price * amount) as Balance;
                &&& final(assets)@ == old(assets)@.after_transfer(
                    PAYMENT_ASSET,
                    signer,
                    s.pallet_account,
                    (price + fee_of(price) + tax_of(price)) as Balance,
                )
                &&& final(self)@ == after_buy_token(s, signer, listing_id, amount)
                &&& final(self)@.owner_details(signer, listing_id).token_amount == s.owner_details(
                    signer,
                    listing_id,
                ).token_amount + amount
                &&& final(self)@.owner_details(signer, listing_id).paid_funds == s.owner_details(
                    signer,
                    listing_id,
                ).paid_funds + nft.token_price * amount
                &&& final(self)@.owner_details(signer, listing_id).paid_tax == s.owner_details(
                    signer,
                    listing_id,
                ).paid_tax + nft.token_price * amount * 3 / 100
            },
    {
        let signer = match ensure_signed(origin) {
            Some(a) => a,
            None => {
                return Err(Error::BadOrigin);
            },
        };
        if !whitelist.is_whitelisted(signer) {
            return Err(Error::UserNotWhitelisted);
        }
        let listed = match self.listed_token.get(&listing_id) {
            Some(n) => *n,
            None => {
                return Err(Error::TokenNotForSale);
            },
        };
        if listed < amount {
            return Err(Error::NotEnoughTokenAvailable);
        }
        let nft = match self.ongoing_object_listing.get(&listing_id) {
            Some(n) => *n,
            None => {
                return Err(Error::InvalidIndex);
            },
        };
        let key = pair_key(nft.collection_id as u64, nft.item_id as u64);
        match self.registered_nft_details.get(&key) {
            None => {
                return Err(Error::InvalidIndex);
            },
            Some(d) => {
                if d.spv_created {
                    return Err(Error::SpvAlreadyCreated);
                }
            },
        }
        let price = match nft.token_price.checked_mul(amount as u128) {
            Some(p) => p,
            None => {
                return Err(Error::MultiplyError);
            },
        };
        let fee = price / 100;
        let tax = match price.checked_mul(3) {
            Some(t) => t / 100,
            None => {
                return Err(Error::MultiplyError);
            },
        };
        let total = match price.checked_add(fee) {
            Some(t) => match t.checked_add(tax) {
                Some(t) => t,
                None => {
                    return Err(Error::ArithmeticOverflow);
                },
            },
            None => {
                return Err(Error::ArithmeticOverflow);
            },
        };
        let pallet = self.pallet_account;
        if total > u32::MAX as u128 {
            return Err(Error::ConversionError);
        }
        if assets.balance(PAYMENT_ASSET, signer) < total || !assets.asset_exists(PAYMENT_ASSET) || (
        signer != pallet && assets.balance(PAYMENT_ASSET, pallet) > u128::MAX - total) {
            return Err(Error::NotEnoughFunds);
        }
        let known_buyer = match self.token_buyer.get(&listing_id) {
            Some(v) => vec_contains(v, signer),
            None => false,
        };
        let n_buyers = match self.token_buyer.get(&listing_id) {
            Some(v) => v.len(),
            None => 0,
        };
        if !known_buyer && n_buyers >= self.max_nft_token as usize {
            return Err(Error::TooManyTokenBuyer);
        }
        let ok = pair_key(signer, listing_id as u64);
        let od = match self.token_owner.get(&ok) {
            Some(d) => *d,
            None => TokenOwnerDetails { token_amount: 0, paid_funds: 0, paid_tax: 0 },
        };
        if od.token_amount > u32::MAX - amount || od.paid_funds > u128::MAX - price || od.paid_tax
            > u128::MAX - tax {
            return Err(Error::ArithmeticOverflow);
        }
        if nft.collected_funds > u128::MAX - price || nft.collected_tax > u128::MAX - tax
            || nft.collected_fees > u128::MAX - fee {
            return Err(Error::ArithmeticOverflow);
        }
        let _ = assets.transfer(PAYMENT_ASSET, signer, pallet, total);
        let remaining = listed - amount;
        if !known_buyer {
            let mut v = match self.token_buyer.remove(&listing_id) {
                Some(v) => v,
                None => Vec::new(),
            };
            v.push(signer);
            proof {
                lemma_seq_map_insert(old(self).token_buyer@, listing_id, v);
                assert(old(self).token_buyer@.remove(listing_id).insert(listing_id, v)
                    =~= old(self).token_buyer@.insert(listing_id, v));
            }
            self.token_buyer.insert(listing_id, v);
        }
        self.token_owner.insert(
            ok,
            TokenOwnerDetails {
                token_amount: od.token_amount + amount,
                paid_funds: od.paid_funds + price,
                paid_tax: od.paid_tax + tax,
            },
        );
        self.ongoing_object_listing.insert(
            listing_id,
            NftListingDetails {
                collected_funds: nft.collected_funds + price,
                collected_tax: nft.collected_tax + tax,
                collected_fees: nft.collected_fees + fee,
                ..nft
            },
        );
        if remaining == 0 {
            self.property_lawyer.insert(
                listing_id,
                PropertyLawyerDetails {
                    real_estate_developer_lawyer: None,
                    spv_lawyer: None,
                    real_estate_developer_status: DocumentStatus::Pending,
                    spv_status: DocumentStatus::Pending,
                    real_estate_developer_lawyer_costs: 0,
                    spv_lawyer_costs: 0,
                    second_attempt: false,
                },
            );
            self.listed_token.remove(&listing_id);
        } else {
            self.listed_token.insert(listing_id, remaining);
        }
        self.events.push(
            Event::TokenBoughtObject { asset_id: nft.asset_id, buyer: signer, amount, price },
        );
        proof {
            let s0 = old(self)@;
            assert(tax == tax_of(price));
            assert(fee == fee_of(price));
            assert(self@.token_buyer == (if s0.buyers(listing_id).contains(signer) {
                s0.token_buyer
            } else {
                s0.token_buyer.insert(listing_id, s0.buyers(listing_id).push(signer))
            }));
            assert(self@.listed_token == (if remaining == 0 {
                s0.listed_token.remove(listing_id)
            } else {
                s0.listed_token.insert(listing_id, remaining)
            }));
        }
        Ok(())
    }
}

impl Pallet {
    /// A copy of the storage with an empty event log: calls that can fail
    /// half-way work on it and are committed only when they succeed.
    fn begin(&self) -> (r: Pallet)
        ensures
            r@ == (MarketState { events: Seq::empty(), ..self@ }),
    {
        Pallet {
            pallet_account: self.pallet_account,
            treasury_account: self.treasury_account,
            community_account: self.community_account,
            max_nft_token: self.max_nft_token,
            next_nft_id: self.next_nft_id.clone(),
            next_asset_id: self.next_asset_id,
            next_region_id: self.next_region_id,
            locations: self.locations.clone(),
            next_listing_id: self.next_listing_id,
            region_collections: self.region_collections.clone(),
            registered_nft_details: self.registered_nft_details.clone(),
            ongoing_object_listing: self.ongoing_object_listing.clone(),
            listed_token: self.listed_token.clone(),
            token_buyer: self.token_buyer.clone(),
            token_owner: self.token_owner.clone(),
            token_listings: self.token_listings.clone(),
            property_owner: self.property_owner.clone(),
            property_owner_token: self.property_owner_token.clone(),
            asset_id_details: self.asset_id_details.clone(),
            ongoing_offers: self.ongoing_offers.clone(),
            real_estate_lawyer: self.real_estate_lawyer.clone(),
            property_lawyer: self.property_lawyer.clone(),
            events: Vec::new(),
        }
    }

    /// Takes over the storage of `s` and appends its events.
    fn commit(&mut self, s: Pallet)
        ensures
            final(self)@ == (MarketState { events: old(self)@.events + s@.events, ..s@ }),
    {
        let mut s = s;
        self.pallet_account = s.pallet_account;
        self.treasury_account = s.treasury_account;
        self.community_account = s.community_account;
        self.max_nft_token = s.max_nft_token;
        self.next_nft_id = s.next_nft_id;
        self.next_asset_id = s.next_asset_id;
        self.next_region_id = s.next_region_id;
        self.locations = s.locations;
        self.next_listing_id = s.next_listing_id;
        self.region_collections = s.region_collections;
        self.registered_nft_details = s.registered_nft_details;
        self.ongoing_object_listing = s.ongoing_object_listing;
        self.listed_token = s.listed_token;
        self.token_buyer = s.token_buyer;
        self.token_owner = s.token_owner;
        self.token_listings = s.token_listings;
        self.property_owner = s.property_owner;
        self.property_owner_token = s.property_owner_token;
        self.asset_id_details = s.asset_id_details;
        self.ongoing_offers = s.ongoing_offers;
        self.real_estate_lawyer = s.real_estate_lawyer;
        self.property_lawyer = s.property_lawyer;
        self.events.append(&mut s.events);
    }
}

/// What `calculate_fees` does to the balances: of `price`, paid by `sender`,
/// 1 % goes to the treasury and 99 % to `receiver`.
pub open spec fn fees_spec(
    s: MarketState,
    a: crate::assets::AssetsState,
    price: Balance,
    sender: AccountId,
    receiver: AccountId,
) -> Result<crate::assets::AssetsState, Error> {
    if price * 99 > u128::MAX {
        Err(Error::MultiplyError)
    } else {
        let fees = (price / 100) as Balance;
        let part = (price * 99 / 100) as Balance;
        match transfer_funds_outcome(a, sender, s.treasury_account, fees) {
            Err(e) => Err(e),
            Ok(_) => {
                let a1 = a.after_transfer(PAYMENT_ASSET, sender, s.treasury_account, fees);
                match transfer_funds_outcome(a1, sender, receiver, part) {
                    Err(e) => Err(e),
                    Ok(_) => Ok(a1.after_transfer(PAYMENT_ASSET, sender, receiver, part)),
                }
            },
        }
    }
}

/// The owners of a property and their token counts after `amount` tokens of
/// `asset` passed from `seller` to `buyer`: a seller left without tokens
/// leaves the owner list, a buyer not yet in it joins at its end.
pub open spec fn holdings_after_sale(
    s: MarketState,
    asset: AssetId,
    seller: AccountId,
    buyer: AccountId,
    amount: u32,
) -> Result<(Map<AssetId, Seq<AccountId>>, Map<u128, u32>), Error> {
    let old_amount = s.owner_tokens(asset, seller);
    if old_amount < amount {
        Err(Error::ArithmeticUnderflow)
    } else {
        let rest = (old_amount - amount) as u32;
        let owners = s.owners(asset);
        if rest == 0 && !owners.contains(seller) {
            Err(Error::InvalidIndex)
        } else {
            let po1 = if rest == 0 {
                s.property_owner.insert(asset, owners.remove(owners.index_of_first(seller)->Some_0))
            } else {
                s.property_owner
            };
            let pot1 = if rest == 0 {
                s.property_owner_token.remove(holding_key(asset, seller))
            } else {
                s.property_owner_token.insert(holding_key(asset, seller), rest)
            };
            let owners1 = get_or(po1, asset, Seq::empty());
            if owners1.contains(buyer) {
                let held = get_or(pot1, holding_key(asset, buyer), 0);
                if held + amount > u32::MAX {
                    Err(Error::ArithmeticOverflow)
                } else {
                    Ok((po1, pot1.insert(holding_key(asset, buyer), (held + amount) as u32)))
                }
            } else if owners1.len() >= s.max_nft_token {
                Err(Error::TooManyTokenBuyer)
            } else {
                Ok(
                    (
                        po1.insert(asset, owners1.push(buyer)),
                        pot1.insert(holding_key(asset, buyer), amount),
                    ),
                )
            }
        }
    }
}

/// What `buying_token_process` does: the buyer's side pays `price` (1 % to
/// the treasury, 99 % to the seller), the marketplace hands `amount` tokens
/// to `account`, the owner lists follow, and the listing keeps what is left.
pub open spec fn buying_token_process_spec(
    s: MarketState,
    a: crate::assets::AssetsState,
    listing_id: ListingId,
    transfer_from: AccountId,
    account: AccountId,
    ld: TokenListingDetails,
    price: Balance,
    amount: u32,
) -> Result<(MarketState, crate::assets::AssetsState), Error> {
    match fees_spec(s, a, price, transfer_from, ld.seller) {
        Err(e) => Err(e),
        Ok(a1) => if a1.transfer_outcome(ld.asset_id, s.pallet_account, account, amount as Balance) is Err {
            Err(Error::NotEnoughFunds)
        } else {
            let a2 = a1.after_transfer(ld.asset_id, s.pallet_account, account, amount as Balance);
            match holdings_after_sale(s, ld.asset_id, ld.seller, account, amount) {
                Err(e) => Err(e),
                Ok((po, pot)) => if ld.amount < amount {
                    Err(Error::ArithmeticUnderflow)
                } else {
                    let left = (ld.amount - amount) as u32;
                    Ok(
                        (
                            MarketState {
                                property_owner: po,
                                property_owner_token: pot,
                                token_listings: if left > 0 {
                                    s.token_listings.insert(
                                        listing_id,
                                        TokenListingDetails { amount: left, ..ld },
                                    )
                                } else {
                                    s.token_listings
                                },
                                events: s.events.push(
                                    Event::TokenBought {
                                        asset_id: ld.asset_id,
                                        buyer: account,
                                        price: ld.token_price,
                                    },
                                ),
                                ..s
                            },
                            a2,
                        ),
                    )
                },
            }
        },
    }
}

/// What `buy_relisted_token` does.
pub open spec fn buy_relisted_token_spec(
    s: MarketState,
    a: crate::assets::AssetsState,
    whitelisted: Seq<AccountId>,
    origin: Origin,
    listing_id: ListingId,
    amount: u32,
) -> Result<(MarketState, crate::assets::AssetsState), Error> {
    match origin {
        Origin::Root => Err(Error::BadOrigin),
        Origin::Signed(signer) => if !whitelisted.contains(signer) {
            Err(Error::UserNotWhitelisted)
        } else if !s.token_listings.contains_key(listing_id) {
            Err(Error::TokenNotForSale)
        } else {
            let ld = s.token_listings[listing_id];
            if ld.amount < amount {
                Err(Error::NotEnoughTokenAvailable)
            } else if ld.token_price * amount > u128::MAX {
                Err(Error::MultiplyError)
            } else {
                buying_token_process_spec(
                    MarketState { token_listings: s.token_listings.remove(listing_id), ..s },
                    a,
                    listing_id,
                    signer,
                    signer,
                    ld,
                    (ld.token_price * amount) as Balance,
                    amount,
                )
            }
        },
    }
}

/// What `handle_offer` does.
pub open spec fn handle_offer_spec(
    s: MarketState,
    a: crate::assets::AssetsState,
    whitelisted: Seq<AccountId>,
    origin: Origin,
    listing_id: ListingId,
    offeror: AccountId,
    offer: Offer,
) -> Result<(MarketState, crate::assets::AssetsState), Error> {
    match origin {
        Origin::Root => Err(Error::BadOrigin),
        Origin::Signed(signer) => if !whitelisted.contains(signer) {
            Err(Error::UserNotWhitelisted)
        } else if !s.token_listings.contains_key(listing_id) {
            Err(Error::TokenNotForSale)
        } else if s.token_listings[listing_id].seller != signer {
            Err(Error::NoPermission)
        } else if !s.ongoing_offers.contains_key(offer_key(listing_id, offeror)) {
            Err(Error::InvalidIndex)
        } else {
            let ld = s.token_listings[listing_id];
            let od = s.ongoing_offers[offer_key(listing_id, offeror)];
            let s1 = MarketState {
                ongoing_offers: s.ongoing_offers.remove(offer_key(listing_id, offeror)),
                ..s
            };
            if ld.amount < od.amount {
                Err(Error::NotEnoughTokenAvailable)
            } else {
                match od.total_amount() {
                    None => Err(Error::MultiplyError),
                    Some(price) => match offer {
                        Offer::Accept => buying_token_process_spec(
                            s1,
                            a,
                            listing_id,
                            s.pallet_account,
                            od.buyer,
                            ld,
                            price,
                            od.amount,
                        ),
                        Offer::Reject => match transfer_funds_outcome(
                            a,
                            s.pallet_account,
                            od.buyer,
                            price,
                        ) {
                            Err(e) => Err(e),
                            Ok(_) => Ok(
                                (
                                    s1,
                                    a.after_transfer(PAYMENT_ASSET, s.pallet_account, od.buyer, price),
                                ),
                            ),
                        },
                    },
                }
            }
        },
    }
}

/// The storage after a transactional call: what the call computed from the
/// storage with an empty event log, with its events appended to the log.
pub open spec fn committed(old: MarketState, computed: MarketState) -> MarketState {
    MarketState { events: old.events + computed.events, ..computed }
}

/// The storage with an empty event log.
pub open spec fn without_events(s: MarketState) -> MarketState {
    MarketState { events: Seq::empty(), ..s }
}

impl Pallet {
    /// Reads the tokens `who` holds of `asset`.
    pub fn property_owner_token(&self, asset: AssetId, who: AccountId) -> (r: u32)
        ensures
            r == self@.owner_tokens(asset, who),
    {
        match self.property_owner_token.get(&pair_key(asset as u64, who)) {
            Some(n) => *n,
            None => 0,
        }
    }

    /// The owners of a property asset.
    pub fn property_owner(&self, asset: AssetId) -> (r: Vec<AccountId>)
        ensures
            r@ == self@.owners(asset),
    {
        match self.property_owner.get(&asset) {
            Some(v) => v.clone(),
            None => Vec::new(),
        }
    }

    fn calculate_fees(
        &self,
        assets: &mut Assets,
        price: Balance,
        sender: AccountId,
        receiver: AccountId,
    ) -> (r: Result<(), Error>)
        ensures
            match fees_spec(self@, old(assets)@, price, sender, receiver) {
                Ok(a1) => r is Ok && final(assets)@ == a1,
                Err(e) => r == Err::<(), Error>(e),
            },
    {
        let fees = price / 100;
        let part = match price.checked_mul(99) {
            Some(p) => p / 100,
            None => {
                return Err(Error::MultiplyError);
            },
        };
        transfer_funds(assets, sender, self.treasury_account, fees)?;
        transfer_funds(assets, sender, receiver, part)?;
        Ok(())
    }

    /// Splits a payment like `calculate_fees` does.
    fn calculate_property_fees(
        &self,
        assets: &mut Assets,
        price: Balance,
        sender: AccountId,
        receiver: AccountId,
    ) -> (r: Result<(), Error>)
        ensures
            match fees_spec(self@, old(assets)@, price, sender, receiver) {
                Ok(a1) => r is Ok && final(assets)@ == a1,
                Err(e) => r == Err::<(), Error>(e),
            },
    {
        self.calculate_fees(assets, price, sender, receiver)
    }

    fn holdings_after_sale(
        &mut self,
        asset: AssetId,
        seller: AccountId,
        buyer: AccountId,
        amount: u32,
    ) -> (r: Result<(), Error>)
        ensures
            match holdings_after_sale(old(self)@, asset, seller, buyer, amount) {
                Ok((po, pot)) => r is Ok && final(self)@ == (MarketState {
                    property_owner: po,
                    property_owner_token: pot,
                    ..old(self)@
                }),
                Err(e) => r == Err::<(), Error>(e),
            },
    {
        let hs = pair_key(asset as u64, seller);
        let old_amount = match self.property_owner_token.remove(&hs) {
            Some(n) => n,
            None => 0,
        };
        if old_amount < amount {
            return Err(Error::ArithmeticUnderflow);
        }
        let rest = old_amount - amount;
        if rest == 0 {
            let mut owners = match self.property_owner.remove(&asset) {
                Some(v) => v,
                None => Vec::new(),
            };
            let ghost o = owners@;
            assert(o == old(self)@.owners(asset));
            let idx = match vec_position(&owners, seller) {
                Some(i) => i,
                None => {
                    return Err(Error::InvalidIndex);
                },
            };
            proof {
                o.index_of_first_ensures(seller);
                let f = o.index_of_first(seller)->Some_0;
                assert(f == idx as int) by {
                    if f < idx as int {
                        assert(o[f] == seller);
                    } else if f > idx as int {
                        assert(o[idx as int] == seller);
                    }
                }
            }
            owners.remove(idx);
            proof {
                lemma_seq_map_insert(old(self).property_owner@, asset, owners);
                assert(old(self).property_owner@.remove(asset).insert(asset, owners)
                    =~= old(self).property_owner@.insert(asset, owners));
            }
            self.property_owner.insert(asset, owners);
        } else {
            self.property_owner_token.insert(hs, rest);
            assert(self@.property_owner_token =~= old(self)@.property_owner_token.insert(
                holding_key(asset, seller),
                rest,
            ));
        }
        let ghost po1 = self@.property_owner;
        let ghost pot1 = self@.property_owner_token;
        let ghost old_po_raw = self.property_owner@;
        proof {
            let s0 = old(self)@;
            let owners0 = s0.owners(asset);
            assert(pot1 == (if rest == 0 {
                s0.property_owner_token.remove(holding_key(asset, seller))
            } else {
                s0.property_owner_token.insert(holding_key(asset, seller), rest)
            }));
            assert(po1 == (if rest == 0 {
                s0.property_owner.insert(asset, owners0.remove(owners0.index_of_first(seller)->Some_0))
            } else {
                s0.property_owner
            }));
        }
        let hb = pair_key(asset as u64, buyer);
        let known = match self.property_owner.get(&asset) {
            Some(v) => vec_contains(v, buyer),
            None => false,
        };
        assert(known == get_or(po1, asset, Seq::empty()).contains(buyer));
        if known {
            let held = match self.property_owner_token.remove(&hb) {
                Some(n) => n,
                None => 0,
            };
            if held > u32::MAX - amount {
                return Err(Error::ArithmeticOverflow);
            }
            self.property_owner_token.insert(hb, held + amount);
            assert(self@.property_owner_token =~= pot1.insert(
                holding_key(asset, buyer),
                (held + amount) as u32,
            ));
        } else {
            let mut owners = match self.property_owner.remove(&asset) {
                Some(v) => v,
                None => Vec::new(),
            };
            assert(owners@ == get_or(po1, asset, Seq::empty()));
            if owners.len() >= self.max_nft_token as usize {
                return Err(Error::TooManyTokenBuyer);
            }
            let ghost before = self.property_owner@;
            owners.push(buyer);
            proof {
                lemma_seq_map_insert(before, asset, owners);
                lemma_seq_map_remove(old_po_raw, asset);
                lemma_seq_map_insert(old_po_raw, asset, owners);
                assert(before.insert(asset, owners) =~= old_po_raw.insert(asset, owners));
            }
            self.property_owner.insert(asset, owners);
            self.property_owner_token.insert(hb, amount);
            assert(self@.property_owner =~= po1.insert(asset, get_or(po1, asset, Seq::empty()).push(buyer)));
        }
        Ok(())
    }

    fn buying_token_process(
        &mut self,
        assets: &mut Assets,
        listing_id: ListingId,
        transfer_from: AccountId,
        account: AccountId,
        ld: TokenListingDetails,
        price: Balance,
        amount: u32,
    ) -> (r: Result<(), Error>)
        ensures
            match buying_token_process_spec(
                old(self)@,
                old(assets)@,
                listing_id,
                transfer_from,
                account,
                ld,
                price,
                amount,
            ) {
                Ok((s1, a1)) => r is Ok && final(self)@ == s1 && final(assets)@ == a1,
                Err(e) => r == Err::<(), Error>(e),
            },
    {
        self.calculate_fees(assets, price, transfer_from, ld.seller)?;
        let pallet = self.pallet_account;
        if assets.transfer(ld.asset_id, pallet, account, amount as u128).is_err() {
            return Err(Error::NotEnoughFunds);
        }
        self.holdings_after_sale(ld.asset_id, ld.seller, account, amount)?;
        if ld.amount < amount {
            return Err(Error::ArithmeticUnderflow);
        }
        let left = ld.amount - amount;
        if left > 0 {
            self.token_listings.insert(listing_id, TokenListingDetails { amount: left, ..ld });
        }
        self.events.push(
            Event::TokenBought { asset_id: ld.asset_id, buyer: account, price: ld.token_price },
        );
        Ok(())
    }

    fn buy_relisted_token_inner(
        &mut self,
        assets: &mut Assets,
        whitelist: &whitelist::Pallet,
        origin: Origin,
        listing_id: ListingId,
        amount: u32,
    ) -> (r: Result<(), Error>)
        ensures
            match buy_relisted_token_spec(
                old(self)@,
                old(assets)@,
                whitelist.accounts(),
                origin,
                listing_id,
                amount,
            ) {
                Ok((s1, a1)) => r is Ok && final(self)@ == s1 && final(assets)@ == a1,
                Err(e) => r == Err::<(), Error>(e),
            },
    {
        let signer = match ensure_signed(origin) {
            Some(a) => a,
            None => {
                return Err(Error::BadOrigin);
            },
        };
        if !whitelist.is_whitelisted(signer) {
            return Err(Error::UserNotWhitelisted);
        }
        let ld = match self.token_listings.remove(&listing_id) {
            Some(l) => l,
            None => {
                return Err(Error::TokenNotForSale);
            },
        };
        if ld.amount < amount {
            return Err(Error::NotEnoughTokenAvailable);
        }
        let price = match ld.token_price.checked_mul(amount as u128) {
            Some(p) => p,
            None => {
                return Err(Error::MultiplyError);
            },
        };
        self.buying_token_process(assets, listing_id, signer, signer, ld, price, amount)
    }

    /// Buys `amount` relisted tokens: the buyer pays the price, 1 % to the
    /// treasury and 99 % to the seller, and receives the tokens.
    pub fn buy_relisted_token(
        &mut self,
        assets: &mut Assets,
        whitelist: &whitelist::Pallet,
        origin: Origin,
        listing_id: ListingId,
        amount: u32,
    ) -> (r: Result<(), Error>)
        ensures
            match buy_relisted_token_spec(
                without_events(old(self)@),
                old(assets)@,
                whitelist.accounts(),
                origin,
                listing_id,
                amount,
            ) {
                Ok((s1, a1)) => r is Ok && final(self)@ == committed(old(self)@, s1)
                    && final(assets)@ == a1,
                Err(e) => r == Err::<(), Error>(e) && final(self)@ == old(self)@ && final(assets)@
                    == old(assets)@,
            },
    {
        let mut s = self.begin();
        let mut a = assets.snapshot();
        let r = s.buy_relisted_token_inner(&mut a, whitelist, origin, listing_id, amount);
        if r.is_ok() {
            self.commit(s);
            *assets = a;
        }
        r
    }

    fn handle_offer_inner(
        &mut self,
        assets: &mut Assets,
        whitelist: &whitelist::Pallet,
        origin: Origin,
        listing_id: ListingId,
        offeror: AccountId,
        offer: Offer,
    ) -> (r: Result<(), Error>)
        ensures
            match handle_offer_spec(
                old(self)@,
                old(assets)@,
                whitelist.accounts(),
                origin,
                listing_id,
                offeror,
                offer,
            ) {
                Ok((s1, a1)) => r is Ok && final(self)@ == s1 && final(assets)@ == a1,
                Err(e) => r == Err::<(), Error>(e),
            },
    {
        let signer = match ensure_signed(origin) {
            Some(a) => a,
            None => {
                return Err(Error::BadOrigin);
            },
        };
        if !whitelist.is_whitelisted(signer) {
            return Err(Error::UserNotWhitelisted);
        }
        let ld = match self.token_listings.get(&listing_id) {
            Some(l) => *l,
            None => {
                return Err(Error::TokenNotForSale);
            },
        };
        if ld.seller != signer {
            return Err(Error::NoPermission);
        }
        let od = match self.ongoing_offers.remove(&pair_key(listing_id as u64, offeror)) {
            Some(o) => o,
            None => {
                return Err(Error::InvalidIndex);
            },
        };
        if ld.amount < od.amount {
            return Err(Error::NotEnoughTokenAvailable);
        }
        let price = od.get_total_amount()?;
        let pallet = self.pallet_account;
        match offer {
            Offer::Accept => {
                self.buying_token_process(assets, listing_id, pallet, od.buyer, ld, price, od.amount)
            },
            Offer::Reject => transfer_funds(assets, pallet, od.buyer, price),
        }
    }

    /// The seller of a token listing accepts or rejects the offer of
    /// `offeror`. An accepted offer is paid out of the escrowed price; a
    /// rejected one is refunded.
    pub fn handle_offer(
        &mut self,
        assets: &mut Assets,
        whitelist: &whitelist::Pallet,
        origin: Origin,
        listing_id: ListingId,
        offeror: AccountId,
        offer: Offer,
    ) -> (r: Result<(), Error>)
        ensures
            match handle_offer_spec(
                without_events(old(self)@),
                old(assets)@,
                whitelist.accounts(),
                origin,
                listing_id,
                offeror,
                offer,
            ) {
                Ok((s1, a1)) => r is Ok && final(self)@ == committed(old(self)@, s1)
                    && final(assets)@ == a1,
                Err(e) => r == Err::<(), Error>(e) && final(self)@ == old(self)@ && final(assets)@
                    == old(assets)@,
            },
    {
        let mut s = self.begin();
        let mut a = assets.snapshot();
        let r = s.handle_offer_inner(&mut a, whitelist, origin, listing_id, offeror, offer);
        if r.is_ok() {
            self.commit(s);
            *assets = a;
        }
        r
    }
}

/// What `make_offer` does.
pub open spec fn make_offer_spec(
    s: MarketState,
    a: crate::assets::AssetsState,
    whitelisted: Seq<AccountId>,
    origin: Origin,
    listing_id: ListingId,
    offer_price: Balance,
    amount: u32,
) -> Result<(MarketState, crate::assets::AssetsState), Error> {
    match origin {
        Origin::Root => Err(Error::BadOrigin),
        Origin::Signed(signer) => if !whitelisted.contains(signer) {
            Err(Error::UserNotWhitelisted)
        } else if s.ongoing_offers.contains_key(offer_key(listing_id, signer)) {
            Err(Error::OnlyOneOfferPerUser)
        } else if !s.token_listings.contains_key(listing_id) {
            Err(Error::TokenNotForSale)
        } else if s.token_listings[listing_id].amount < amount {
            Err(Error::NotEnoughTokenAvailable)
        } else if offer_price * amount > u128::MAX {
            Err(Error::MultiplyError)
        } else {
            let price = (offer_price * amount) as Balance;
            match transfer_funds_outcome(a, signer, s.pallet_account, price) {
                Err(e) => Err(e),
                Ok(_) => Ok(
                    (
                        MarketState {
                            ongoing_offers: s.ongoing_offers.insert(
                                offer_key(listing_id, signer),
                                OfferDetails { buyer: signer, token_price: offer_price, amount },
                            ),
                            events: s.events.push(
                                Event::OfferCreated { listing_id, price: offer_price },
                            ),
                            ..s
                        },
                        a.after_transfer(PAYMENT_ASSET, signer, s.pallet_account, price),
                    ),
                ),
            }
        },
    }
}

/// What `cancel_offer` does.
pub open spec fn cancel_offer_spec(
    s: MarketState,
    a: crate::assets::AssetsState,
    origin: Origin,
    listing_id: ListingId,
) -> Result<(MarketState, crate::assets::AssetsState), Error> {
    match origin {
        Origin::Root => Err(Error::BadOrigin),
        Origin::Signed(signer) => if !s.ongoing_offers.contains_key(offer_key(listing_id, signer)) {
            Err(Error::InvalidIndex)
        } else {
            let od = s.ongoing_offers[offer_key(listing_id, signer)];
            if od.buyer != signer {
                Err(Error::NoPermission)
            } else {
                match od.total_amount() {
                    None => Err(Error::MultiplyError),
                    Some(price) => match transfer_funds_outcome(a, s.pallet_account, od.buyer, price) {
                        Err(e) => Err(e),
                        Ok(_) => Ok(
                            (
                                MarketState {
                                    ongoing_offers: s.ongoing_offers.remove(
                                        offer_key(listing_id, signer),
                                    ),
                                    events: s.events.push(
                                        Event::OfferCancelled { listing_id, account_id: signer },
                                    ),
                                    ..s
                                },
                                a.after_transfer(PAYMENT_ASSET, s.pallet_account, od.buyer, price),
                            ),
                        ),
                    },
                }
            }
        },
    }
}

/// What `relist_token` does.
pub open spec fn relist_token_spec(
    s: MarketState,
    a: crate::assets::AssetsState,
    whitelisted: Seq<AccountId>,
    origin: Origin,
    region: RegionId,
    item_id: ItemId,
    token_price: Balance,
    amount: u32,
) -> Result<(MarketState, crate::assets::AssetsState), Error> {
    match origin {
        Origin::Root => Err(Error::BadOrigin),
        Origin::Signed(signer) => if !whitelisted.contains(signer) {
            Err(Error::UserNotWhitelisted)
        } else if !s.region_collections.contains_key(region) {
            Err(Error::RegionUnknown)
        } else {
            let c = s.region_collections[region];
            if !s.registered_nft_details.contains_key(item_key(c, item_id)) {
                Err(Error::NftNotFound)
            } else {
                let nd = s.registered_nft_details[item_key(c, item_id)];
                if !s.location_registered(region, nd.location) {
                    Err(Error::LocationUnknown)
                } else if a.transfer_outcome(nd.asset_id, signer, s.pallet_account, amount as Balance) is Err {
                    Err(Error::NotEnoughFunds)
                } else if s.next_listing_id == u32::MAX {
                    Err(Error::ArithmeticOverflow)
                } else {
                    Ok(
                        (
                            MarketState {
                                token_listings: s.token_listings.insert(
                                    s.next_listing_id,
                                    TokenListingDetails {
                                        seller: signer,
                                        token_price,
                                        asset_id: nd.asset_id,
                                        item_id,
                                        collection_id: c,
                                        amount,
                                    },
                                ),
                                next_listing_id: (s.next_listing_id + 1) as ListingId,
                                events: s.events.push(
                                    Event::TokenListed {
                                        asset_id: nd.asset_id,
                                        price: token_price,
                                        seller: signer,
                                    },
                                ),
                                ..s
                            },
                            a.after_transfer(nd.asset_id, signer, s.pallet_account, amount as Balance),
                        ),
                    )
                }
            }
        },
    }
}

/// What `delist_token` does.
pub open spec fn delist_token_spec(
    s: MarketState,
    a: crate::assets::AssetsState,
    whitelisted: Seq<AccountId>,
    origin: Origin,
    listing_id: ListingId,
) -> Result<(MarketState, crate::assets::AssetsState), Error> {
    match origin {
        Origin::Root => Err(Error::BadOrigin),
        Origin::Signed(signer) => if !whitelisted.contains(signer) {
            Err(Error::UserNotWhitelisted)
        } else if !s.token_listings.contains_key(listing_id) {
            Err(Error::TokenNotForSale)
        } else {
            let ld = s.token_listings[listing_id];
            if ld.seller != signer {
                Err(Error::NoPermission)
            } else if a.transfer_outcome(ld.asset_id, s.pallet_account, signer, ld.amount as Balance) is Err {
                Err(Error::NotEnoughFunds)
            } else {
                Ok(
                    (
                        MarketState {
                            token_listings: s.token_listings.remove(listing_id),
                            events: s.events.push(Event::ListingDelisted { listing_index: listing_id }),
                            ..s
                        },
                        a.after_transfer(ld.asset_id, s.pallet_account, signer, ld.amount as Balance),
                    ),
                )
            }
        },
    }
}

/// What `upgrade_listing` does.
pub open spec fn upgrade_listing_spec(
    s: MarketState,
    whitelisted: Seq<AccountId>,
    origin: Origin,
    listing_id: ListingId,
    new_price: Balance,
) -> Result<MarketState, Error> {
    match origin {
        Origin::Root => Err(Error::BadOrigin),
        Origin::Signed(signer) => if !whitelisted.contains(signer) {
            Err(Error::UserNotWhitelisted)
        } else if !s.token_listings.contains_key(listing_id) {
            Err(Error::TokenNotForSale)
        } else if s.token_listings[listing_id].seller != signer {
            Err(Error::NoPermission)
        } else {
            Ok(
                MarketState {
                    token_listings: s.token_listings.insert(
                        listing_id,
                        TokenListingDetails { token_price: new_price, ..s.token_listings[listing_id] },
                    ),
                    events: s.events.push(
                        Event::ListingUpdated { listing_index: listing_id, new_price },
                    ),
                    ..s
                },
            )
        },
    }
}

/// What `upgrade_object` does.
pub open spec fn upgrade_object_spec(
    s: MarketState,
    whitelisted: Seq<AccountId>,
    origin: Origin,
    listing_id: ListingId,
    new_price: Balance,
) -> Result<MarketState, Error> {
    match origin {
        Origin::Root => Err(Error::BadOrigin),
        Origin::Signed(signer) => if !whitelisted.contains(signer) {
            Err(Error::UserNotWhitelisted)
        } else if !s.listed_token.contains_key(listing_id) {
            Err(Error::TokenNotForSale)
        } else if !s.ongoing_object_listing.contains_key(listing_id) {
            Err(Error::InvalidIndex)
        } else {
            let nft = s.ongoing_object_listing[listing_id];
            let key = item_key(nft.collection_id, nft.item_id);
            if nft.real_estate_developer != signer {
                Err(Error::NoPermission)
            } else if !s.registered_nft_details.contains_key(key) {
                Err(Error::InvalidIndex)
            } else if s.registered_nft_details[key].spv_created {
                Err(Error::SpvAlreadyCreated)
            } else {
                Ok(
                    MarketState {
                        ongoing_object_listing: s.ongoing_object_listing.insert(
                            listing_id,
                            NftListingDetails { token_price: new_price, ..nft },
                        ),
                        events: s.events.push(
                            Event::ObjectUpdated { listing_index: listing_id, new_price },
                        ),
                        ..s
                    },
                )
            }
        },
    }
}

/// What `lawyer_claim_property` does.
pub open spec fn lawyer_claim_property_spec(
    s: MarketState,
    origin: Origin,
    listing_id: ListingId,
    legal_site: LegalProperty,
    costs: Balance,
) -> Result<MarketState, Error> {
    match origin {
        Origin::Root => Err(Error::BadOrigin),
        Origin::Signed(signer) => if !s.is_lawyer(signer) {
            Err(Error::NoPermission)
        } else if !s.property_lawyer.contains_key(listing_id) {
            Err(Error::InvalidIndex)
        } else if !s.ongoing_object_listing.contains_key(listing_id) {
            Err(Error::InvalidIndex)
        } else if costs > s.ongoing_object_listing[listing_id].collected_fees {
            Err(Error::CostsTooHigh)
        } else {
            let d = s.property_lawyer[listing_id];
            match legal_site {
                LegalProperty::RealEstateDeveloperSite => if d.real_estate_developer_lawyer is Some {
                    Err(Error::LawyerJobTaken)
                } else if d.spv_lawyer == Some(signer) {
                    Err(Error::NoPermission)
                } else {
                    Ok(
                        MarketState {
                            property_lawyer: s.property_lawyer.insert(
                                listing_id,
                                PropertyLawyerDetails {
                                    real_estate_developer_lawyer: Some(signer),
                                    real_estate_developer_lawyer_costs: costs,
                                    ..d
                                },
                            ),
                            ..s
                        },
                    )
                },
                LegalProperty::SpvSite => if d.spv_lawyer is Some {
                    Err(Error::LawyerJobTaken)
                } else if d.real_estate_developer_lawyer == Some(signer) {
                    Err(Error::NoPermission)
                } else {
                    Ok(
                        MarketState {
                            property_lawyer: s.property_lawyer.insert(
                                listing_id,
                                PropertyLawyerDetails { spv_lawyer: Some(signer), spv_lawyer_costs: costs, ..d },
                            ),
                            ..s
                        },
                    )
                },
            }
        },
    }
}

impl Pallet {
    fn make_offer_inner(
        &mut self,
        assets: &mut Assets,
        whitelist: &whitelist::Pallet,
        origin: Origin,
        listing_id: ListingId,
        offer_price: Balance,
        amount: u32,
    ) -> (r: Result<(), Error>)
        ensures
            match make_offer_spec(old(self)@, old(assets)@, whitelist.accounts(), origin, listing_id, offer_price, amount) {
                Ok((s1, a1)) => r is Ok && final(self)@ == s1 && final(assets)@ == a1,
                Err(e) => r == Err::<(), Error>(e),
            },
    {
        let signer = match ensure_signed(origin) {
            Some(a) => a,
            None => {
                return Err(Error::BadOrigin);
            },
        };
        if !whitelist.is_whitelisted(signer) {
            return Err(Error::UserNotWhitelisted);
        }
        let key = pair_key(listing_id as u64, signer);
        if self.ongoing_offers.contains_key(&key) {
            return Err(Error::OnlyOneOfferPerUser);
        }
        let ld = match self.token_listings.get(&listing_id) {
            Some(l) => *l,
            None => {
                return Err(Error::TokenNotForSale);
            },
        };
        if ld.amount < amount {
            return Err(Error::NotEnoughTokenAvailable);
        }
        let price = match offer_price.checked_mul(amount as u128) {
            Some(p) => p,
            None => {
                return Err(Error::MultiplyError);
            },
        };
        transfer_funds(assets, signer, self.pallet_account, price)?;
        self.ongoing_offers.insert(key, OfferDetails { buyer: signer, token_price: offer_price, amount });
        self.events.push(Event::OfferCreated { listing_id, price: offer_price });
        Ok(())
    }

    /// Offers `offer_price` per token for `amount` tokens of a token listing;
    /// the price of all tokens is held by the marketplace meanwhile.
    pub fn make_offer(
        &mut self,
        assets: &mut Assets,
        whitelist: &whitelist::Pallet,
        origin: Origin,
        listing_id: ListingId,
        offer_price: Balance,
        amount: u32,
    ) -> (r: Result<(), Error>)
        ensures
            match make_offer_spec(without_events(old(self)@), old(assets)@, whitelist.accounts(), origin, listing_id, offer_price, amount) {
                Ok((s1, a1)) => r is Ok && final(self)@ == committed(old(self)@, s1)
                    && final(assets)@ == a1,
                Err(e) => r == Err::<(), Error>(e) && final(self)@ == old(self)@ && final(assets)@
                    == old(assets)@,
            },
    {
        let mut s = self.begin();
        let mut a = assets.snapshot();
        let r = s.make_offer_inner(&mut a, whitelist, origin, listing_id, offer_price, amount);
        if r.is_ok() {
            self.commit(s);
            *assets = a;
        }
        r
    }

    fn cancel_offer_inner(&mut self, assets: &mut Assets, origin: Origin, listing_id: ListingId) -> (r:
        Result<(), Error>)
        ensures
            match cancel_offer_spec(old(self)@, old(assets)@, origin, listing_id) {
                Ok((s1, a1)) => r is Ok && final(self)@ == s1 && final(assets)@ == a1,
                Err(e) => r == Err::<(), Error>(e),
            },
    {
        let signer = match ensure_signed(origin) {
            Some(a) => a,
            None => {
                return Err(Error::BadOrigin);
            },
        };
        let od = match self.ongoing_offers.remove(&pair_key(listing_id as u64, signer)) {
            Some(o) => o,
            None => {
                return Err(Error::InvalidIndex);
            },
        };
        if od.buyer != signer {
            return Err(Error::NoPermission);
        }
        let price = od.get_total_amount()?;
        transfer_funds(assets, self.pallet_account, od.buyer, price)?;
        self.events.push(Event::OfferCancelled { listing_id, account_id: signer });
        Ok(())
    }

    /// Withdraws the caller's offer for a token listing and refunds it.
    pub fn cancel_offer(&mut self, assets: &mut Assets, origin: Origin, listing_id: ListingId) -> (r:
        Result<(), Error>)
        ensures
            match cancel_offer_spec(without_events(old(self)@), old(assets)@, origin, listing_id) {
                Ok((s1, a1)) => r is Ok && final(self)@ == committed(old(self)@, s1)
                    && final(assets)@ == a1,
                Err(e) => r == Err::<(), Error>(e) && final(self)@ == old(self)@ && final(assets)@
                    == old(assets)@,
            },
    {
        let mut s = self.begin();
        let mut a = assets.snapshot();
        let r = s.cancel_offer_inner(&mut a, origin, listing_id);
        if r.is_ok() {
            self.commit(s);
            *assets = a;
        }
        r
    }

    fn relist_token_inner(
        &mut self,
        assets: &mut Assets,
        whitelist: &whitelist::Pallet,
        origin: Origin,
        region: RegionId,
        item_id: ItemId,
        token_price: Balance,
        amount: u32,
    ) -> (r: Result<(), Error>)
        ensures
            match relist_token_spec(old(self)@, old(assets)@, whitelist.accounts(), origin, region, item_id, token_price, amount) {
                Ok((s1, a1)) => r is Ok && final(self)@ == s1 && final(assets)@ == a1,
                Err(e) => r == Err::<(), Error>(e),
            },
    {
        let signer = match ensure_signed(origin) {
            Some(a) => a,
            None => {
                return Err(Error::BadOrigin);
            },
        };
        if !whitelist.is_whitelisted(signer) {
            return Err(Error::UserNotWhitelisted);
        }
        let c = match self.region_collections.get(&region) {
            Some(c) => *c,
            None => {
                return Err(Error::RegionUnknown);
            },
        };
        let key = pair_key(c as u64, item_id as u64);
        let asset = match self.registered_nft_details.get(&key) {
            None => {
                return Err(Error::NftNotFound);
            },
            Some(d) => {
                if !self.location_registration(region, &d.location) {
                    return Err(Error::LocationUnknown);
                }
                d.asset_id
            },
        };
        if assets.transfer(asset, signer, self.pallet_account, amount as u128).is_err() {
            return Err(Error::NotEnoughFunds);
        }
        let listing = self.next_listing_id;
        let next = next_listing_id(listing)?;
        self.token_listings.insert(
            listing,
            TokenListingDetails { seller: signer, token_price, asset_id: asset, item_id, collection_id: c, amount },
        );
        self.next_listing_id = next;
        self.events.push(Event::TokenListed { asset_id: asset, price: token_price, seller: signer });
        Ok(())
    }

    /// Relists `amount` tokens of a registered property at `token_price`
    /// each; the tokens move to the marketplace until sold or delisted.
    pub fn relist_token(
        &mut self,
        assets: &mut Assets,
        whitelist: &whitelist::Pallet,
        origin: Origin,
        region: RegionId,
        item_id: ItemId,
        token_price: Balance,
        amount: u32,
    ) -> (r: Result<(), Error>)
        ensures
            match relist_token_spec(without_events(old(self)@), old(assets)@, whitelist.accounts(), origin, region, item_id, token_price, amount) {
                Ok((s1, a1)) => r is Ok && final(self)@ == committed(old(self)@, s1)
                    && final(assets)@ == a1,
                Err(e) => r == Err::<(), Error>(e) && final(self)@ == old(self)@ && final(assets)@
                    == old(assets)@,
            },
    {
        let mut s = self.begin();
        let mut a = assets.snapshot();
        let r = s.relist_token_inner(&mut a, whitelist, origin, region, item_id, token_price, amount);
        if r.is_ok() {
            self.commit(s);
            *assets = a;
        }
        r
    }

    fn delist_token_inner(
        &mut self,
        assets: &mut Assets,
        whitelist: &whitelist::Pallet,
        origin: Origin,
        listing_id: ListingId,
    ) -> (r: Result<(), Error>)
        ensures
            match delist_token_spec(old(self)@, old(assets)@, whitelist.accounts(), origin, listing_id) {
                Ok((s1, a1)) => r is Ok && final(self)@ == s1 && final(assets)@ == a1,
                Err(e) => r == Err::<(), Error>(e),
            },
    {
        let signer = match ensure_signed(origin) {
            Some(a) => a,
            None => {
                return Err(Error::BadOrigin);
            },
        };
        if !whitelist.is_whitelisted(signer) {
            return Err(Error::UserNotWhitelisted);
        }
        let ld = match self.token_listings.remove(&listing_id) {
            Some(l) => l,
            None => {
                return Err(Error::TokenNotForSale);
            },
        };
        if ld.seller != signer {
            return Err(Error::NoPermission);
        }
        if assets.transfer(ld.asset_id, self.pallet_account, signer, ld.amount as u128).is_err() {
            return Err(Error::NotEnoughFunds);
        }
        self.events.push(Event::ListingDelisted { listing_index: listing_id });
        Ok(())
    }

    /// Withdraws a token listing; the unsold tokens go back to the seller.
    pub fn delist_token(
        &mut self,
        assets: &mut Assets,
        whitelist: &whitelist::Pallet,
        origin: Origin,
        listing_id: ListingId,
    ) -> (r: Result<(), Error>)
        ensures
            match delist_token_spec(without_events(old(self)@), old(assets)@, whitelist.accounts(), origin, listing_id) {
                Ok((s1, a1)) => r is Ok && final(self)@ == committed(old(self)@, s1)
                    && final(assets)@ == a1,
                Err(e) => r == Err::<(), Error>(e) && final(self)@ == old(self)@ && final(assets)@
                    == old(assets)@,
            },
    {
        let mut s = self.begin();
        let mut a = assets.snapshot();
        let r = s.delist_token_inner(&mut a, whitelist, origin, listing_id);
        if r.is_ok() {
            self.commit(s);
            *assets = a;
        }
        r
    }

    /// Sets a new price per token for the caller's token listing.
    pub fn upgrade_listing(
        &mut self,
        whitelist: &whitelist::Pallet,
        origin: Origin,
        listing_id: ListingId,
        new_price: Balance,
    ) -> (r: Result<(), Error>)
        ensures
            match upgrade_listing_spec(old(self)@, whitelist.accounts(), origin, listing_id, new_price) {
                Ok(s1) => r is Ok && final(self)@ == s1,
                Err(e) => r == Err::<(), Error>(e) && final(self)@ == old(self)@,
            },
    {
        let signer = match ensure_signed(origin) {
            Some(a) => a,
            None => {
                return Err(Error::BadOrigin);
            },
        };
        if !whitelist.is_whitelisted(signer) {
            return Err(Error::UserNotWhitelisted);
        }
        let ld = match self.token_listings.get(&listing_id) {
            Some(l) => *l,
            None => {
                return Err(Error::TokenNotForSale);
            },
        };
        if ld.seller != signer {
            return Err(Error::NoPermission);
        }
        self.token_listings.insert(listing_id, TokenListingDetails { token_price: new_price, ..ld });
        self.events.push(Event::ListingUpdated { listing_index: listing_id, new_price });
        Ok(())
    }

    /// Sets a new price per token for the caller's listed object, as long as
    /// tokens of it are for sale and its deal has not been executed.
    pub fn upgrade_object(
        &mut self,
        whitelist: &whitelist::Pallet,
        origin: Origin,
        listing_id: ListingId,
        new_price: Balance,
    ) -> (r: Result<(), Error>)
        ensures
            match upgrade_object_spec(old(self)@, whitelist.accounts(), origin, listing_id, new_price) {
                Ok(s1) => r is Ok && final(self)@ == s1,
                Err(e) => r == Err::<(), Error>(e) && final(self)@ == old(self)@,
            },
    {
        let signer = match ensure_signed(origin) {
            Some(a) => a,
            None => {
                return Err(Error::BadOrigin);
            },
        };
        if !whitelist.is_whitelisted(signer) {
            return Err(Error::UserNotWhitelisted);
        }
        if !self.listed_token.contains_key(&listing_id) {
            return Err(Error::TokenNotForSale);
        }
        let nft = match self.ongoing_object_listing.get(&listing_id) {
            Some(n) => *n,
            None => {
                return Err(Error::InvalidIndex);
            },
        };
        if nft.real_estate_developer != signer {
            return Err(Error::NoPermission);
        }
        match self.registered_nft_details.get(&pair_key(nft.collection_id as u64, nft.item_id as u64)) {
            None => {
                return Err(Error::InvalidIndex);
            },
            Some(d) => {
                if d.spv_created {
                    return Err(Error::SpvAlreadyCreated);
                }
            },
        }
        self.ongoing_object_listing.insert(listing_id, NftListingDetails { token_price: new_price, ..nft });
        self.events.push(Event::ObjectUpdated { listing_index: listing_id, new_price });
        Ok(())
    }

    /// A registered lawyer takes on one side of a sold-out property, at
    /// costs no higher than the fees collected for it; the two sides need
    /// two different lawyers.
    pub fn lawyer_claim_property(
        &mut self,
        origin: Origin,
        listing_id: ListingId,
        legal_site: LegalProperty,
        costs: Balance,
    ) -> (r: Result<(), Error>)
        ensures
            match lawyer_claim_property_spec(old(self)@, origin, listing_id, legal_site, costs) {
                Ok(s1) => r is Ok && final(self)@ == s1,
                Err(e) => r == Err::<(), Error>(e) && final(self)@ == old(self)@,
            },
    {
        let signer = match ensure_signed(origin) {
            Some(a) => a,
            None => {
                return Err(Error::BadOrigin);
            },
        };
        if !self.real_estate_lawyer(signer) {
            return Err(Error::NoPermission);
        }
        let d = match self.property_lawyer.get(&listing_id) {
            Some(d) => *d,
            None => {
                return Err(Error::InvalidIndex);
            },
        };
        match self.ongoing_object_listing.get(&listing_id) {
            Some(nft) => {
                if costs > nft.collected_fees {
                    return Err(Error::CostsTooHigh);
                }
            },
            None => {
                return Err(Error::InvalidIndex);
            },
        }
        match legal_site {
            LegalProperty::RealEstateDeveloperSite => {
                if d.real_estate_developer_lawyer.is_some() {
                    return Err(Error::LawyerJobTaken);
                }
                if d.spv_lawyer == Some(signer) {
                    return Err(Error::NoPermission);
                }
                self.property_lawyer.insert(
                    listing_id,
                    PropertyLawyerDetails {
                        real_estate_developer_lawyer: Some(signer),
                        real_estate_developer_lawyer_costs: costs,
                        ..d
                    },
                );
            },
            LegalProperty::SpvSite => {
                if d.spv_lawyer.is_some() {
                    return Err(Error::LawyerJobTaken);
                }
                if d.real_estate_developer_lawyer == Some(signer) {
                    return Err(Error::NoPermission);
                }
                self.property_lawyer.insert(
                    listing_id,
                    PropertyLawyerDetails { spv_lawyer: Some(signer), spv_lawyer_costs: costs, ..d },
                );
            },
        }
        Ok(())
    }
}

/// What `remove_from_case` does.
pub open spec fn remove_from_case_spec(s: MarketState, origin: Origin, listing_id: ListingId) -> Result<
    MarketState,
    Error,
> {
    match origin {
        Origin::Root => Err(Error::BadOrigin),
        Origin::Signed(signer) => if !s.is_lawyer(signer) {
            Err(Error::NoPermission)
        } else if !s.property_lawyer.contains_key(listing_id) {
            Err(Error::InvalidIndex)
        } else {
            let d = s.property_lawyer[listing_id];
            if d.real_estate_developer_lawyer == Some(signer) {
                if d.real_estate_developer_status != DocumentStatus::Pending {
                    Err(Error::AlreadyConfirmed)
                } else {
                    Ok(
                        MarketState {
                            property_lawyer: s.property_lawyer.insert(
                                listing_id,
                                PropertyLawyerDetails {
                                    real_estate_developer_lawyer: None,
                                    real_estate_developer_lawyer_costs: 0,
                                    ..d
                                },
                            ),
                            ..s
                        },
                    )
                }
            } else if d.spv_lawyer == Some(signer) {
                if d.spv_status != DocumentStatus::Pending {
                    Err(Error::AlreadyConfirmed)
                } else {
                    Ok(
                        MarketState {
                            property_lawyer: s.property_lawyer.insert(
                                listing_id,
                                PropertyLawyerDetails { spv_lawyer: None, spv_lawyer_costs: 0, ..d },
                            ),
                            ..s
                        },
                    )
                }
            } else {
                Err(Error::NoPermission)
            }
        },
    }
}

impl Pallet {
    /// A lawyer leaves the side of a case it took on, before it reviewed the
    /// documents; another lawyer can then take the side.
    pub fn remove_from_case(&mut self, origin: Origin, listing_id: ListingId) -> (r: Result<(), Error>)
        ensures
            match remove_from_case_spec(old(self)@, origin, listing_id) {
                Ok(s1) => r is Ok && final(self)@ == s1,
                Err(e) => r == Err::<(), Error>(e) && final(self)@ == old(self)@,
            },
    {
        let signer = match ensure_signed(origin) {
            Some(a) => a,
            None => {
                return Err(Error::BadOrigin);
            },
        };
        if !self.real_estate_lawyer(signer) {
            return Err(Error::NoPermission);
        }
        let d = match self.property_lawyer.get(&listing_id) {
            Some(d) => *d,
            None => {
                return Err(Error::InvalidIndex);
            },
        };
        if d.real_estate_developer_lawyer == Some(signer) {
            if d.real_estate_developer_status != DocumentStatus::Pending {
                return Err(Error::AlreadyConfirmed);
            }
            self.property_lawyer.insert(
                listing_id,
                PropertyLawyerDetails {
                    real_estate_developer_lawyer: None,
                    real_estate_developer_lawyer_costs: 0,
                    ..d
                },
            );
        } else if d.spv_lawyer == Some(signer) {
            if d.spv_status != DocumentStatus::Pending {
                return Err(Error::AlreadyConfirmed);
            }
            self.property_lawyer.insert(
                listing_id,
                PropertyLawyerDetails { spv_lawyer: None, spv_lawyer_costs: 0, ..d },
            );
        } else {
            return Err(Error::NoPermission);
        }
        Ok(())
    }
}

/// A payment of `amount` in the payment asset, as `transfer_funds` makes it.
pub open spec fn pay(
    a: crate::assets::AssetsState,
    from: AccountId,
    to: AccountId,
    amount: Balance,
) -> Result<crate::assets::AssetsState, Error> {
    match transfer_funds_outcome(a, from, to, amount) {
        Err(e) => Err(e),
        Ok(_) => Ok(a.after_transfer(PAYMENT_ASSET, from, to, amount)),
    }
}

/// Hands a buyer of a sold-out listing its tokens and makes it an owner.
pub open spec fn distribute_step(
    s: MarketState,
    a: crate::assets::AssetsState,
    listing_id: ListingId,
    asset: AssetId,
    owner: AccountId,
) -> Result<(MarketState, crate::assets::AssetsState), Error> {
    let td = s.owner_details(owner, listing_id);
    if a.transfer_outcome(asset, s.pallet_account, owner, td.token_amount as Balance) is Err {
        Err(Error::NotEnoughFunds)
    } else if s.owners(asset).len() >= s.max_nft_token {
        Err(Error::TooManyTokenBuyer)
    } else {
        Ok(
            (
                MarketState {
                    token_owner: s.token_owner.remove(owner_key(owner, listing_id)),
                    property_owner: s.property_owner.insert(asset, s.owners(asset).push(owner)),
                    property_owner_token: s.property_owner_token.insert(
                        holding_key(asset, owner),
                        td.token_amount,
                    ),
                    ..s
                },
                a.after_transfer(asset, s.pallet_account, owner, td.token_amount as Balance),
            ),
        )
    }
}

/// `distribute_step` for each buyer in turn.
pub open spec fn distribute_all(
    s: MarketState,
    a: crate::assets::AssetsState,
    listing_id: ListingId,
    asset: AssetId,
    owners: Seq<AccountId>,
) -> Result<(MarketState, crate::assets::AssetsState), Error>
    decreases owners.len(),
{
    if owners.len() == 0 {
        Ok((s, a))
    } else {
        match distribute_step(s, a, listing_id, asset, owners[0]) {
            Err(e) => Err(e),
            Ok((s1, a1)) => distribute_all(s1, a1, listing_id, asset, owners.drop_first()),
        }
    }
}

/// Refunds a buyer of a rejected listing what it paid, price and tax.
pub open spec fn refund_step(
    s: MarketState,
    a: crate::assets::AssetsState,
    listing_id: ListingId,
    asset: AssetId,
    owner: AccountId,
) -> Result<(MarketState, crate::assets::AssetsState), Error> {
    let td = s.owner_details(owner, listing_id);
    if td.paid_funds + td.paid_tax > u128::MAX {
        Err(Error::ArithmeticOverflow)
    } else {
        match pay(a, s.pallet_account, owner, (td.paid_funds + td.paid_tax) as Balance) {
            Err(e) => Err(e),
            Ok(a1) => Ok(
                (
                    MarketState {
                        token_owner: s.token_owner.remove(owner_key(owner, listing_id)),
                        property_owner: s.property_owner.remove(asset),
                        property_owner_token: s.property_owner_token.remove(holding_key(asset, owner)),
                        ..s
                    },
                    a1,
                ),
            ),
        }
    }
}

/// `refund_step` for each buyer in turn.
pub open spec fn refund_all(
    s: MarketState,
    a: crate::assets::AssetsState,
    listing_id: ListingId,
    asset: AssetId,
    owners: Seq<AccountId>,
) -> Result<(MarketState, crate::assets::AssetsState), Error>
    decreases owners.len(),
{
    if owners.len() == 0 {
        Ok((s, a))
    } else {
        match refund_step(s, a, listing_id, asset, owners[0]) {
            Err(e) => Err(e),
            Ok((s1, a1)) => refund_all(s1, a1, listing_id, asset, owners.drop_first()),
        }
    }
}

/// What `execute_deal` does once both lawyers approved: the lawyers, the
/// treasury and the developer are paid out of the collected funds, and each
/// buyer receives its tokens and becomes an owner of the property.
pub open spec fn execute_deal_spec(
    s: MarketState,
    a: crate::assets::AssetsState,
    listing_id: ListingId,
    d: PropertyLawyerDetails,
) -> Result<(MarketState, crate::assets::AssetsState), Error> {
    let list = s.buyers(listing_id);
    if !s.ongoing_object_listing.contains_key(listing_id) {
        Err(Error::InvalidIndex)
    } else {
        let nft = s.ongoing_object_listing[listing_id];
        let s1 = MarketState {
            token_buyer: s.token_buyer.remove(listing_id),
            ongoing_object_listing: s.ongoing_object_listing.remove(listing_id),
            ..s
        };
        let price = nft.collected_funds;
        let base = price / 100 + nft.collected_fees;
        if price * 99 > u128::MAX {
            Err(Error::MultiplyError)
        } else if base > u128::MAX {
            Err(Error::ArithmeticOverflow)
        } else if base < d.real_estate_developer_lawyer_costs {
            Err(Error::ArithmeticUnderflow)
        } else if base - d.real_estate_developer_lawyer_costs < d.spv_lawyer_costs {
            Err(Error::ArithmeticUnderflow)
        } else if d.real_estate_developer_lawyer is None || d.spv_lawyer is None {
            Err(Error::LawyerNotFound)
        } else if nft.collected_tax + d.real_estate_developer_lawyer_costs > u128::MAX {
            Err(Error::ArithmeticOverflow)
        } else {
            let treasury_fees = (base - d.real_estate_developer_lawyer_costs
                - d.spv_lawyer_costs) as Balance;
            let developer_part = (nft.collected_tax + d.real_estate_developer_lawyer_costs) as Balance;
            let seller_part = (price * 99 / 100) as Balance;
            match pay(a, s.pallet_account, d.real_estate_developer_lawyer->Some_0, developer_part) {
                Err(e) => Err(e),
                Ok(a1) => match pay(a1, s.pallet_account, d.spv_lawyer->Some_0, d.spv_lawyer_costs) {
                    Err(e) => Err(e),
                    Ok(a2) => match pay(a2, s.pallet_account, s.treasury_account, treasury_fees) {
                        Err(e) => Err(e),
                        Ok(a3) => match pay(
                            a3,
                            s.pallet_account,
                            nft.real_estate_developer,
                            seller_part,
                        ) {
                            Err(e) => Err(e),
                            Ok(a4) => match distribute_all(s1, a4, listing_id, nft.asset_id, list) {
                                Err(e) => Err(e),
                                Ok((s2, a5)) => {
                                    let key = item_key(nft.collection_id, nft.item_id);
                                    if !s2.registered_nft_details.contains_key(key) {
                                        Err(Error::InvalidIndex)
                                    } else {
                                        Ok(
                                            (
                                                MarketState {
                                                    registered_nft_details: s2.registered_nft_details.insert(
                                                        key,
                                                        NftDetailsView {
                                                            spv_created: true,
                                                            ..s2.registered_nft_details[key]
                                                        },
                                                    ),
                                                    ..s2
                                                },
                                                a5,
                                            ),
                                        )
                                    }
                                },
                            },
                        },
                    },
                },
            }
        }
    }
}

/// What `burn_tokens_and_nfts` does: the marketplace gives back all tokens
/// of the property and burns its NFT; the property is no longer registered.
pub open spec fn burn_tokens_and_nfts_spec(
    s: MarketState,
    a: crate::assets::AssetsState,
    n: crate::nfts::NftsState,
    listing_id: ListingId,
) -> Result<(MarketState, crate::assets::AssetsState, crate::nfts::NftsState), Error> {
    if !s.ongoing_object_listing.contains_key(listing_id) {
        Err(Error::InvalidIndex)
    } else {
        let nft = s.ongoing_object_listing[listing_id];
        let key = item_key(nft.collection_id, nft.item_id);
        match a.burn_outcome(nft.asset_id, s.pallet_account, nft.token_amount as Balance) {
            Err(e) => Err(Error::Assets(e)),
            Ok(_) => match n.burn_outcome(nft.collection_id, nft.item_id, s.pallet_account) {
                Err(e) => Err(Error::Nfts(e)),
                Ok(_) => if !s.registered_nft_details.contains_key(key) {
                    Err(Error::InvalidIndex)
                } else {
                    Ok(
                        (
                            MarketState {
                                registered_nft_details: s.registered_nft_details.remove(key),
                                events: s.events.push(
                                    Event::PropertyNftBurned {
                                        collection_id: nft.collection_id,
                                        item_id: nft.item_id,
                                        asset_id: nft.asset_id,
                                    },
                                ),
                                ..s
                            },
                            a.after_burn(nft.asset_id, s.pallet_account, nft.token_amount as Balance),
                            crate::nfts::NftsState { items: n.items.remove(key), ..n },
                        ),
                    )
                },
            },
        }
    }
}

/// What `refund_investors` does: the treasury keeps the fees minus the SPV
/// lawyer's costs, the SPV lawyer is paid where the funds allow, and every
/// buyer gets back what it paid.
pub open spec fn refund_investors_spec(
    s: MarketState,
    a: crate::assets::AssetsState,
    listing_id: ListingId,
    d: PropertyLawyerDetails,
) -> Result<(MarketState, crate::assets::AssetsState), Error> {
    let list = s.buyers(listing_id);
    if !s.ongoing_object_listing.contains_key(listing_id) {
        Err(Error::InvalidIndex)
    } else {
        let nft = s.ongoing_object_listing[listing_id];
        let s1 = MarketState {
            token_buyer: s.token_buyer.remove(listing_id),
            ongoing_object_listing: s.ongoing_object_listing.remove(listing_id),
            ..s
        };
        if nft.collected_fees < d.spv_lawyer_costs {
            Err(Error::ArithmeticUnderflow)
        } else {
            match pay(a, s.pallet_account, s.treasury_account, (nft.collected_fees - d.spv_lawyer_costs) as Balance) {
                Err(e) => Err(e),
                Ok(a1) => match d.spv_lawyer {
                    None => Err(Error::LawyerNotFound),
                    Some(spv) => {
                        let a2 = match pay(a1, s.pallet_account, spv, d.spv_lawyer_costs) {
                            Ok(a2) => a2,
                            Err(_) => a1,
                        };
                        refund_all(s1, a2, listing_id, nft.asset_id, list)
                    },
                },
            }
        }
    }
}

/// Burns the property and refunds its buyers.
pub open spec fn burn_and_refund_spec(
    s: MarketState,
    a: crate::assets::AssetsState,
    n: crate::nfts::NftsState,
    listing_id: ListingId,
    d: PropertyLawyerDetails,
) -> Result<(MarketState, crate::assets::AssetsState, crate::nfts::NftsState), Error> {
    match burn_tokens_and_nfts_spec(s, a, n, listing_id) {
        Err(e) => Err(e),
        Ok((s1, a1, n1)) => match refund_investors_spec(s1, a1, listing_id, d) {
            Err(e) => Err(e),
            Ok((s2, a2)) => Ok((s2, a2, n1)),
        },
    }
}

/// What `lawyer_confirm_documents` does.
pub open spec fn lawyer_confirm_documents_spec(
    s: MarketState,
    a: crate::assets::AssetsState,
    n: crate::nfts::NftsState,
    origin: Origin,
    listing_id: ListingId,
    approve: bool,
) -> Result<(MarketState, crate::assets::AssetsState, crate::nfts::NftsState), Error> {
    match origin {
        Origin::Root => Err(Error::BadOrigin),
        Origin::Signed(signer) => if !s.property_lawyer.contains_key(listing_id) {
            Err(Error::InvalidIndex)
        } else {
            let d = s.property_lawyer[listing_id];
            let status = if approve {
                DocumentStatus::Approved
            } else {
                DocumentStatus::Rejected
            };
            if d.real_estate_developer_lawyer != Some(signer) && d.spv_lawyer != Some(signer) {
                Err(Error::NoPermission)
            } else if (if d.real_estate_developer_lawyer == Some(signer) {
                d.real_estate_developer_status
            } else {
                d.spv_status
            }) != DocumentStatus::Pending {
                Err(Error::AlreadyConfirmed)
            } else {
                let d1 = if d.real_estate_developer_lawyer == Some(signer) {
                    PropertyLawyerDetails { real_estate_developer_status: status, ..d }
                } else {
                    PropertyLawyerDetails { spv_status: status, ..d }
                };
                let s1 = MarketState {
                    property_lawyer: s.property_lawyer.remove(listing_id),
                    events: s.events.push(Event::DocumentsConfirmed { signer, listing_id, approve }),
                    ..s
                };
                match (d1.real_estate_developer_status, d1.spv_status) {
                    (DocumentStatus::Approved, DocumentStatus::Approved) => match execute_deal_spec(
                        s1,
                        a,
                        listing_id,
                        d1,
                    ) {
                        Err(e) => Err(e),
                        Ok((s2, a2)) => Ok((s2, a2, n)),
                    },
                    (DocumentStatus::Rejected, DocumentStatus::Rejected) => burn_and_refund_spec(
                        s1,
                        a,
                        n,
                        listing_id,
                        d1,
                    ),
                    (DocumentStatus::Approved, DocumentStatus::Rejected) | (
                        DocumentStatus::Rejected,
                        DocumentStatus::Approved,
                    ) => if !d1.second_attempt {
                        Ok(
                            (
                                MarketState {
                                    property_lawyer: s1.property_lawyer.insert(
                                        listing_id,
                                        PropertyLawyerDetails {
                                            real_estate_developer_status: DocumentStatus::Pending,
                                            spv_status: DocumentStatus::Pending,
                                            second_attempt: true,
                                            ..d1
                                        },
                                    ),
                                    ..s1
                                },
                                a,
                                n,
                            ),
                        )
                    } else {
                        burn_and_refund_spec(s1, a, n, listing_id, d1)
                    },
                    _ => Ok(
                        (
                            MarketState {
                                property_lawyer: s1.property_lawyer.insert(listing_id, d1),
                                ..s1
                            },
                            a,
                            n,
                        ),
                    ),
                }
            }
        },
    }
}

/// Unfolds a fold over a sequence at position `i`.
proof fn lemma_skip_step<A>(list: Seq<A>, i: int)
    requires
        0 <= i < list.len(),
    ensures
        list.skip(i).len() > 0,
        list.skip(i)[0] == list[i],
        list.skip(i).drop_first() == list.skip(i + 1),
{
    assert(list.skip(i).drop_first() =~= list.skip(i + 1));
}

impl Pallet {
    fn distribute_step(
        &mut self,
        assets: &mut Assets,
        listing_id: ListingId,
        asset: AssetId,
        owner: AccountId,
    ) -> (r: Result<(), Error>)
        ensures
            match distribute_step(old(self)@, old(assets)@, listing_id, asset, owner) {
                Ok((s1, a1)) => r is Ok && final(self)@ == s1 && final(assets)@ == a1,
                Err(e) => r == Err::<(), Error>(e),
            },
    {
        let ok = pair_key(owner, listing_id as u64);
        let td = match self.token_owner.remove(&ok) {
            Some(t) => t,
            None => TokenOwnerDetails { token_amount: 0, paid_funds: 0, paid_tax: 0 },
        };
        if assets.transfer(asset, self.pallet_account, owner, td.token_amount as u128).is_err() {
            return Err(Error::NotEnoughFunds);
        }
        let ghost raw = self.property_owner@;
        let mut owners = match self.property_owner.remove(&asset) {
            Some(v) => v,
            None => Vec::new(),
        };
        if owners.len() >= self.max_nft_token as usize {
            return Err(Error::TooManyTokenBuyer);
        }
        owners.push(owner);
        proof {
            lemma_seq_map_insert(raw, asset, owners);
            assert(raw.remove(asset).insert(asset, owners) =~= raw.insert(asset, owners));
        }
        self.property_owner.insert(asset, owners);
        self.property_owner_token.insert(pair_key(asset as u64, owner), td.token_amount);
        Ok(())
    }

    fn refund_step(
        &mut self,
        assets: &mut Assets,
        listing_id: ListingId,
        asset: AssetId,
        owner: AccountId,
    ) -> (r: Result<(), Error>)
        ensures
            match refund_step(old(self)@, old(assets)@, listing_id, asset, owner) {
                Ok((s1, a1)) => r is Ok && final(self)@ == s1 && final(assets)@ == a1,
                Err(e) => r == Err::<(), Error>(e),
            },
    {
        let ok = pair_key(owner, listing_id as u64);
        let td = match self.token_owner.remove(&ok) {
            Some(t) => t,
            None => TokenOwnerDetails { token_amount: 0, paid_funds: 0, paid_tax: 0 },
        };
        let refund = match td.paid_funds.checked_add(td.paid_tax) {
            Some(x) => x,
            None => {
                return Err(Error::ArithmeticOverflow);
            },
        };
        transfer_funds(assets, self.pallet_account, owner, refund)?;
        let ghost raw = self.property_owner@;
        self.property_owner.remove(&asset);
        proof {
            lemma_seq_map_remove(raw, asset);
        }
        self.property_owner_token.remove(&pair_key(asset as u64, owner));
        Ok(())
    }

    fn distribute_tokens(
        &mut self,
        assets: &mut Assets,
        listing_id: ListingId,
        asset: AssetId,
        list: &Vec<AccountId>,
    ) -> (r: Result<(), Error>)
        ensures
            match distribute_all(old(self)@, old(assets)@, listing_id, asset, list@) {
                Ok((s1, a1)) => r is Ok && final(self)@ == s1 && final(assets)@ == a1,
                Err(e) => r == Err::<(), Error>(e),
            },
    {
        let mut i: usize = 0;
        assert(list@.skip(0) =~= list@);
        while i < list.len()
            invariant
                i <= list.len(),
                distribute_all(old(self)@, old(assets)@, listing_id, asset, list@)
                    == distribute_all(self@, assets@, listing_id, asset, list@.skip(i as int)),
            decreases list.len() - i,
        {
            proof {
                lemma_skip_step(list@, i as int);
            }
            self.distribute_step(assets, listing_id, asset, list[i])?;
            i = i + 1;
        }
        assert(list@.skip(i as int) =~= Seq::<AccountId>::empty());
        Ok(())
    }

    fn refund_tokens(
        &mut self,
        assets: &mut Assets,
        listing_id: ListingId,
        asset: AssetId,
        list: &Vec<AccountId>,
    ) -> (r: Result<(), Error>)
        ensures
            match refund_all(old(self)@, old(assets)@, listing_id, asset, list@) {
                Ok((s1, a1)) => r is Ok && final(self)@ == s1 && final(assets)@ == a1,
                Err(e) => r == Err::<(), Error>(e),
            },
    {
        let mut i: usize = 0;
        assert(list@.skip(0) =~= list@);
        while i < list.len()
            invariant
                i <= list.len(),
                refund_all(old(self)@, old(assets)@, listing_id, asset, list@) == refund_all(
                    self@,
                    assets@,
                    listing_id,
                    asset,
                    list@.skip(i as int),
                ),
            decreases list.len() - i,
        {
            proof {
                lemma_skip_step(list@, i as int);
            }
            self.refund_step(assets, listing_id, asset, list[i])?;
            i = i + 1;
        }
        assert(list@.skip(i as int) =~= Seq::<AccountId>::empty());
        Ok(())
    }

    fn execute_deal(&mut self, assets: &mut Assets, listing_id: ListingId, d: PropertyLawyerDetails) -> (r:
        Result<(), Error>)
        ensures
            match execute_deal_spec(old(self)@, old(assets)@, listing_id, d) {
                Ok((s1, a1)) => r is Ok && final(self)@ == s1 && final(assets)@ == a1,
                Err(e) => r == Err::<(), Error>(e),
            },
    {
        let ghost raw = self.token_buyer@;
        let list = match self.token_buyer.remove(&listing_id) {
            Some(v) => v,
            None => Vec::new(),
        };
        proof {
            lemma_seq_map_remove(raw, listing_id);
        }
        let nft = match self.ongoing_object_listing.remove(&listing_id) {
            Some(n) => n,
            None => {
                return Err(Error::InvalidIndex);
            },
        };
        let price = nft.collected_funds;
        let seller_part = match price.checked_mul(99) {
            Some(x) => x / 100,
            None => {
                return Err(Error::MultiplyError);
            },
        };
        let base = match (price / 100).checked_add(nft.collected_fees) {
            Some(x) => x,
            None => {
                return Err(Error::ArithmeticOverflow);
            },
        };
        let t1 = match base.checked_sub(d.real_estate_developer_lawyer_costs) {
            Some(x) => x,
            None => {
                return Err(Error::ArithmeticUnderflow);
            },
        };
        let treasury_fees = match t1.checked_sub(d.spv_lawyer_costs) {
            Some(x) => x,
            None => {
                return Err(Error::ArithmeticUnderflow);
            },
        };
        let developer_lawyer = match d.real_estate_developer_lawyer {
            Some(a) => a,
            None => {
                return Err(Error::LawyerNotFound);
            },
        };
        let spv_lawyer = match d.spv_lawyer {
            Some(a) => a,
            None => {
                return Err(Error::LawyerNotFound);
            },
        };
        let developer_part = match nft.collected_tax.checked_add(d.real_estate_developer_lawyer_costs) {
            Some(x) => x,
            None => {
                return Err(Error::ArithmeticOverflow);
            },
        };
        let pallet = self.pallet_account;
        transfer_funds(assets, pallet, developer_lawyer, developer_part)?;
        transfer_funds(assets, pallet, spv_lawyer, d.spv_lawyer_costs)?;
        transfer_funds(assets, pallet, self.treasury_account, treasury_fees)?;
        transfer_funds(assets, pallet, nft.real_estate_developer, seller_part)?;
        self.distribute_tokens(assets, listing_id, nft.asset_id, &list)?;
        let key = pair_key(nft.collection_id as u64, nft.item_id as u64);
        let ghost raw2 = self.registered_nft_details@;
        let details = match self.registered_nft_details.remove(&key) {
            Some(x) => x,
            None => {
                return Err(Error::InvalidIndex);
            },
        };
        let updated = NftDetails { spv_created: true, ..details };
        proof {
            assert(updated@ == NftDetailsView { spv_created: true, ..view_map(raw2)[key] });
        }
        self.registered_nft_details.insert(key, updated);
        proof {
            assert(view_map(self.registered_nft_details@) =~= view_map(raw2).insert(
                key,
                NftDetailsView { spv_created: true, ..view_map(raw2)[key] },
            ));
        }
        Ok(())
    }

    fn burn_tokens_and_nfts(&mut self, assets: &mut Assets, nfts: &mut Nfts, listing_id: ListingId) -> (r:
        Result<(), Error>)
        ensures
            match burn_tokens_and_nfts_spec(old(self)@, old(assets)@, old(nfts)@, listing_id) {
                Ok((s1, a1, n1)) => r is Ok && final(self)@ == s1 && final(assets)@ == a1
                    && final(nfts)@ == n1,
                Err(e) => r == Err::<(), Error>(e),
            },
    {
        let nft = match self.ongoing_object_listing.get(&listing_id) {
            Some(n) => *n,
            None => {
                return Err(Error::InvalidIndex);
            },
        };
        let pallet = self.pallet_account;
        if let Err(e) = assets.burn(nft.asset_id, pallet, nft.token_amount as u128) {
            return Err(Error::Assets(e));
        }
        if let Err(e) = nfts.burn(nft.collection_id, nft.item_id, pallet) {
            return Err(Error::Nfts(e));
        }
        self.events.push(
            Event::PropertyNftBurned {
                collection_id: nft.collection_id,
                item_id: nft.item_id,
                asset_id: nft.asset_id,
            },
        );
        let key = pair_key(nft.collection_id as u64, nft.item_id as u64);
        let ghost raw = self.registered_nft_details@;
        if self.registered_nft_details.remove(&key).is_none() {
            return Err(Error::InvalidIndex);
        }
        proof {
            assert(view_map(self.registered_nft_details@) =~= view_map(raw).remove(key));
        }
        Ok(())
    }

    fn refund_investors(&mut self, assets: &mut Assets, listing_id: ListingId, d: PropertyLawyerDetails) -> (r:
        Result<(), Error>)
        ensures
            match refund_investors_spec(old(self)@, old(assets)@, listing_id, d) {
                Ok((s1, a1)) => r is Ok && final(self)@ == s1 && final(assets)@ == a1,
                Err(e) => r == Err::<(), Error>(e),
            },
    {
        let ghost raw = self.token_buyer@;
        let list = match self.token_buyer.remove(&listing_id) {
            Some(v) => v,
            None => Vec::new(),
        };
        proof {
            lemma_seq_map_remove(raw, listing_id);
        }
        let nft = match self.ongoing_object_listing.remove(&listing_id) {
            Some(n) => n,
            None => {
                return Err(Error::InvalidIndex);
            },
        };
        let treasury_amount = match nft.collected_fees.checked_sub(d.spv_lawyer_costs) {
            Some(x) => x,
            None => {
                return Err(Error::ArithmeticUnderflow);
            },
        };
        let pallet = self.pallet_account;
        transfer_funds(assets, pallet, self.treasury_account, treasury_amount)?;
        let spv_lawyer = match d.spv_lawyer {
            Some(a) => a,
            None => {
                return Err(Error::LawyerNotFound);
            },
        };
        let _ = transfer_funds(assets, pallet, spv_lawyer, d.spv_lawyer_costs);
        self.refund_tokens(assets, listing_id, nft.asset_id, &list)
    }

    fn burn_and_refund(
        &mut self,
        assets: &mut Assets,
        nfts: &mut Nfts,
        listing_id: ListingId,
        d: PropertyLawyerDetails,
    ) -> (r: Result<(), Error>)
        ensures
            match burn_and_refund_spec(old(self)@, old(assets)@, old(nfts)@, listing_id, d) {
                Ok((s1, a1, n1)) => r is Ok && final(self)@ == s1 && final(assets)@ == a1
                    && final(nfts)@ == n1,
                Err(e) => r == Err::<(), Error>(e),
            },
    {
        self.burn_tokens_and_nfts(assets, nfts, listing_id)?;
        self.refund_investors(assets, listing_id, d)
    }
}

impl Pallet {
    fn lawyer_confirm_documents_inner(
        &mut self,
        assets: &mut Assets,
        nfts: &mut Nfts,
        origin: Origin,
        listing_id: ListingId,
        approve: bool,
    ) -> (r: Result<(), Error>)
        ensures
            match lawyer_confirm_documents_spec(old(self)@, old(assets)@, old(nfts)@, origin, listing_id, approve) {
                Ok((s1, a1, n1)) => r is Ok && final(self)@ == s1 && final(assets)@ == a1
                    && final(nfts)@ == n1,
                Err(e) => r == Err::<(), Error>(e),
            },
    {
        let signer = match ensure_signed(origin) {
            Some(a) => a,
            None => {
                return Err(Error::BadOrigin);
            },
        };
        let d = match self.property_lawyer.remove(&listing_id) {
            Some(d) => d,
            None => {
                return Err(Error::InvalidIndex);
            },
        };
        let status = if approve {
            DocumentStatus::Approved
        } else {
            DocumentStatus::Rejected
        };
        let mut d1 = d;
        if d.real_estate_developer_lawyer == Some(signer) {
            if d.real_estate_developer_status != DocumentStatus::Pending {
                return Err(Error::AlreadyConfirmed);
            }
            d1 = PropertyLawyerDetails { real_estate_developer_status: status, ..d };
        } else if d.spv_lawyer == Some(signer) {
            if d.spv_status != DocumentStatus::Pending {
                return Err(Error::AlreadyConfirmed);
            }
            d1 = PropertyLawyerDetails { spv_status: status, ..d };
        } else {
            return Err(Error::NoPermission);
        }
        self.events.push(Event::DocumentsConfirmed { signer, listing_id, approve });
        match (d1.real_estate_developer_status, d1.spv_status) {
            (DocumentStatus::Approved, DocumentStatus::Approved) => {
                self.execute_deal(assets, listing_id, d1)
            },
            (DocumentStatus::Rejected, DocumentStatus::Rejected) => {
                self.burn_and_refund(assets, nfts, listing_id, d1)
            },
            (DocumentStatus::Approved, DocumentStatus::Rejected) | (
                DocumentStatus::Rejected,
                DocumentStatus::Approved,
            ) => {
                if !d1.second_attempt {
                    self.property_lawyer.insert(
                        listing_id,
                        PropertyLawyerDetails {
                            real_estate_developer_status: DocumentStatus::Pending,
                            spv_status: DocumentStatus::Pending,
                            second_attempt: true,
                            ..d1
                        },
                    );
                    Ok(())
                } else {
                    self.burn_and_refund(assets, nfts, listing_id, d1)
                }
            },
            _ => {
                self.property_lawyer.insert(listing_id, d1);
                Ok(())
            },
        }
    }

    /// A lawyer of a sold-out property approves or rejects the documents of
    /// its side, once per review. When both sides approved, the deal is executed; when both
    /// rejected, the property is burned and the buyers refunded; when they
    /// disagree, the reviews start over once, and on the second disagreement
    /// the property is burned and the buyers refunded.
    pub fn lawyer_confirm_documents(
        &mut self,
        assets: &mut Assets,
        nfts: &mut Nfts,
        origin: Origin,
        listing_id: ListingId,
        approve: bool,
    ) -> (r: Result<(), Error>)
        ensures
            match lawyer_confirm_documents_spec(without_events(old(self)@), old(assets)@, old(nfts)@, origin, listing_id, approve) {
                Ok((s1, a1, n1)) => r is Ok && final(self)@ == committed(old(self)@, s1)
                    && final(assets)@ == a1 && final(nfts)@ == n1,
                Err(e) => r == Err::<(), Error>(e) && final(self)@ == old(self)@ && final(assets)@
                    == old(assets)@ && final(nfts)@ == old(nfts)@,
            },
    {
        let mut s = self.begin();
        let mut a = assets.snapshot();
        let mut n = nfts.snapshot();
        let r = s.lawyer_confirm_documents_inner(&mut a, &mut n, origin, listing_id, approve);
        if r.is_ok() {
            self.commit(s);
            *assets = a;
            *nfts = n;
        }
        r
    }
}

impl Pallet {
    /// The collection of a region.
    pub fn region_collections(&self, region: RegionId) -> (r: Option<CollectionId>)
        ensures
            r == (if self@.region_collections.contains_key(region) {
                Some(self@.region_collections[region])
            } else {
                None::<CollectionId>
            }),
    {
        match self.region_collections.get(&region) {
            Some(c) => Some(*c),
            None => None,
        }
    }

    /// The id the next NFT of a collection gets.
    pub fn next_nft_id(&self, collection: CollectionId) -> (r: ItemId)
        ensures
            r == get_or(self@.next_nft_id, collection, 0),
    {
        match self.next_nft_id.get(&collection) {
            Some(i) => *i,
            None => 0,
        }
    }

    /// The asset id from which the next listed object's asset is searched.
    pub fn next_asset_id(&self) -> (r: AssetId)
        ensures
            r == self@.next_asset_id,
    {
        self.next_asset_id
    }

    /// The id the next listing gets.
    pub fn next_listing(&self) -> (r: ListingId)
        ensures
            r == self@.next_listing_id,
    {
        self.next_listing_id
    }

    /// The tokens of a listed object that are still for sale.
    pub fn listed_token(&self, listing_id: ListingId) -> (r: Option<u32>)
        ensures
            r == (if self@.listed_token.contains_key(listing_id) {
                Some(self@.listed_token[listing_id])
            } else {
                None::<u32>
            }),
    {
        match self.listed_token.get(&listing_id) {
            Some(n) => Some(*n),
            None => None,
        }
    }

    /// The listing of an object.
    pub fn ongoing_object_listing(&self, listing_id: ListingId) -> (r: Option<NftListingDetails>)
        ensures
            r == (if self@.ongoing_object_listing.contains_key(listing_id) {
                Some(self@.ongoing_object_listing[listing_id])
            } else {
                None::<NftListingDetails>
            }),
    {
        match self.ongoing_object_listing.get(&listing_id) {
            Some(n) => Some(*n),
            None => None,
        }
    }

    /// The registration of an NFT.
    pub fn registered_nft_details(&self, collection: CollectionId, item: ItemId) -> (r: Option<&NftDetails>)
        ensures
            match r {
                Some(d) => self@.registered_nft_details.contains_key(item_key(collection, item))
                    && d@ == self@.registered_nft_details[item_key(collection, item)],
                None => !self@.registered_nft_details.contains_key(item_key(collection, item)),
            },
    {
        self.registered_nft_details.get(&pair_key(collection as u64, item as u64))
    }

    /// What an asset id stands for.
    pub fn asset_id_details(&self, asset: AssetId) -> (r: Option<&AssetDetails>)
        ensures
            match r {
                Some(d) => self@.asset_id_details.contains_key(asset) && d@
                    == self@.asset_id_details[asset],
                None => !self@.asset_id_details.contains_key(asset),
            },
    {
        self.asset_id_details.get(&asset)
    }

    /// What `who` bought of a listed object.
    pub fn token_owner(&self, who: AccountId, listing_id: ListingId) -> (r: TokenOwnerDetails)
        ensures
            r == self@.owner_details(who, listing_id),
    {
        match self.token_owner.get(&pair_key(who, listing_id as u64)) {
            Some(d) => *d,
            None => TokenOwnerDetails { token_amount: 0, paid_funds: 0, paid_tax: 0 },
        }
    }

    /// The buyers of a listed object.
    pub fn token_buyer(&self, listing_id: ListingId) -> (r: Vec<AccountId>)
        ensures
            r@ == self@.buyers(listing_id),
    {
        match self.token_buyer.get(&listing_id) {
            Some(v) => v.clone(),
            None => Vec::new(),
        }
    }

    /// A token listing.
    pub fn token_listings(&self, listing_id: ListingId) -> (r: Option<TokenListingDetails>)
        ensures
            r == (if self@.token_listings.contains_key(listing_id) {
                Some(self@.token_listings[listing_id])
            } else {
                None::<TokenListingDetails>
            }),
    {
        match self.token_listings.get(&listing_id) {
            Some(l) => Some(*l),
            None => None,
        }
    }

    /// The offer of `who` for a token listing.
    pub fn ongoing_offers(&self, listing_id: ListingId, who: AccountId) -> (r: Option<OfferDetails>)
        ensures
            r == (if self@.ongoing_offers.contains_key(offer_key(listing_id, who)) {
                Some(self@.ongoing_offers[offer_key(listing_id, who)])
            } else {
                None::<OfferDetails>
            }),
    {
        match self.ongoing_offers.get(&pair_key(listing_id as u64, who)) {
            Some(o) => Some(*o),
            None => None,
        }
    }

    /// The lawyers of a sold-out property.
    pub fn property_lawyer(&self, listing_id: ListingId) -> (r: Option<PropertyLawyerDetails>)
        ensures
            r == (if self@.property_lawyer.contains_key(listing_id) {
                Some(self@.property_lawyer[listing_id])
            } else {
                None::<PropertyLawyerDetails>
            }),
    {
        match self.property_lawyer.get(&listing_id) {
            Some(d) => Some(*d),
            None => None,
        }
    }

    /// The events deposited so far, oldest first.
    pub fn events(&self) -> (r: &Vec<Event>)
        ensures
            r@ == self@.events,
    {
        &self.events
    }
}

/// Whether two byte strings are equal.
pub fn bytes_equal(a: &Vec<u8>, b: &Vec<u8>) -> (r: bool)
    ensures
        r == (a@ == b@),
{
    if a.len() != b.len() {
        return false;
    }
    let mut i: usize = 0;
    while i < a.len()
        invariant
            i <= a.len(),
            a.len() == b.len(),
            forall|j: int| 0 <= j < i ==> a@[j] == b@[j],
        decreases a.len() - i,
    {
        if a[i] != b[i] {
            return false;
        }
        i = i + 1;
    }
    assert(a@ =~= b@);
    true
}


/// Cancelling an offer just made refunds it: the buyer and the marketplace
/// hold of the payment asset what they held before, and the offers are as
/// before.
pub proof fn law_cancel_offer_refunds(
    s: MarketState,
    a: crate::assets::AssetsState,
    whitelisted: Seq<AccountId>,
    signer: AccountId,
    listing_id: ListingId,
    offer_price: Balance,
    amount: u32,
)
    requires
        make_offer_spec(s, a, whitelisted, Origin::Signed(signer), listing_id, offer_price, amount) is Ok,
    ensures
        ({
            let (s1, a1) = make_offer_spec(
                s,
                a,
                whitelisted,
                Origin::Signed(signer),
                listing_id,
                offer_price,
                amount,
            )->Ok_0;
            &&& cancel_offer_spec(s1, a1, Origin::Signed(signer), listing_id) is Ok
            &&& ({
                let (s2, a2) = cancel_offer_spec(s1, a1, Origin::Signed(signer), listing_id)->Ok_0;
                &&& s2.ongoing_offers == s.ongoing_offers
                &&& a2.balance_of(PAYMENT_ASSET, signer) == a.balance_of(PAYMENT_ASSET, signer)
                &&& a2.balance_of(PAYMENT_ASSET, s.pallet_account) == a.balance_of(
                    PAYMENT_ASSET,
                    s.pallet_account,
                )
                &&& a2.supply == a.supply
            })
        }),
{
    let key = offer_key(listing_id, signer);
    let (s1, a1) = make_offer_spec(
        s,
        a,
        whitelisted,
        Origin::Signed(signer),
        listing_id,
        offer_price,
        amount,
    )->Ok_0;
    let (s2, a2) = cancel_offer_spec(s1, a1, Origin::Signed(signer), listing_id)->Ok_0;
    assert(s1.ongoing_offers.insert(key, s1.ongoing_offers[key]).remove(key) =~= s.ongoing_offers) by {
        assert(s1.ongoing_offers == s.ongoing_offers.insert(
            key,
            OfferDetails { buyer: signer, token_price: offer_price, amount },
        ));
    }
    lemma_pair_key_injective(PAYMENT_ASSET as u64, signer, PAYMENT_ASSET as u64, s.pallet_account);
}

/// Delisting a listing just made gives the seller its tokens back: the
/// seller and the marketplace hold of the property's asset what they held
/// before, and the token listings are as before.
pub proof fn law_delist_undoes_relist(
    s: MarketState,
    a: crate::assets::AssetsState,
    whitelisted: Seq<AccountId>,
    signer: AccountId,
    region: RegionId,
    item_id: ItemId,
    token_price: Balance,
    amount: u32,
)
    requires
        relist_token_spec(s, a, whitelisted, Origin::Signed(signer), region, item_id, token_price, amount) is Ok,
        !s.token_listings.contains_key(s.next_listing_id),
    ensures
        ({
            let (s1, a1) = relist_token_spec(
                s,
                a,
                whitelisted,
                Origin::Signed(signer),
                region,
                item_id,
                token_price,
                amount,
            )->Ok_0;
            let asset = s.registered_nft_details[item_key(s.region_collections[region], item_id)].asset_id;
            &&& delist_token_spec(s1, a1, whitelisted, Origin::Signed(signer), s.next_listing_id) is Ok
            &&& ({
                let (s2, a2) = delist_token_spec(
                    s1,
                    a1,
                    whitelisted,
                    Origin::Signed(signer),
                    s.next_listing_id,
                )->Ok_0;
                &&& s2.token_listings == s.token_listings
                &&& a2.balance_of(asset, signer) == a.balance_of(asset, signer)
                &&& a2.balance_of(asset, s.pallet_account) == a.balance_of(asset, s.pallet_account)
                &&& a2.supply == a.supply
            })
        }),
{
    let (s1, a1) = relist_token_spec(
        s,
        a,
        whitelisted,
        Origin::Signed(signer),
        region,
        item_id,
        token_price,
        amount,
    )->Ok_0;
    let asset = s.registered_nft_details[item_key(s.region_collections[region], item_id)].asset_id;
    assert(s1.token_listings.remove(s.next_listing_id) =~= s.token_listings);
    lemma_pair_key_injective(asset as u64, signer, asset as u64, s.pallet_account);
}
/// The tokens of listing `listing` that the accounts `bs` bought.
pub open spec fn tokens_bought(s: MarketState, listing: ListingId, bs: Seq<AccountId>) -> int
    decreases bs.len(),
{
    if bs.len() == 0 {
        0
    } else {
        tokens_bought(s, listing, bs.drop_last()) + s.owner_details(bs.last(), listing).token_amount
    }
}

/// The tokens of listing `listing` still for sale.
pub open spec fn tokens_listed(s: MarketState, listing: ListingId) -> int {
    get_or(s.listed_token, listing, 0u32) as int
}

/// The tokens of listing `listing` for sale and those its buyers bought.
pub open spec fn token_count(s: MarketState, listing: ListingId) -> int {
    tokens_listed(s, listing) + tokens_bought(s, listing, s.buyers(listing))
}

/// The buyers of listing `listing` are distinct, and only they hold tokens
/// of it.
pub open spec fn buyers_account_for_tokens(s: MarketState, listing: ListingId) -> bool {
    &&& s.buyers(listing).no_duplicates()
    &&& forall|who: AccountId|
        !s.buyers(listing).contains(who) ==> #[trigger] s.owner_details(who, listing).token_amount == 0
}

/// Changing the tokens of `w` alone by `delta` changes the tokens bought by
/// distinct accounts `bs` by `delta` where `w` is among them.
proof fn lemma_bought_update(
    s: MarketState,
    t: MarketState,
    listing: ListingId,
    bs: Seq<AccountId>,
    w: AccountId,
    delta: int,
)
    requires
        bs.no_duplicates(),
        forall|b: AccountId| b != w ==> #[trigger] t.owner_details(b, listing) == s.owner_details(b, listing),
        t.owner_details(w, listing).token_amount == s.owner_details(w, listing).token_amount + delta,
    ensures
        tokens_bought(t, listing, bs) == tokens_bought(s, listing, bs) + (if bs.contains(w) {
            delta
        } else {
            0
        }),
    decreases bs.len(),
{
    if bs.len() > 0 {
        let rest = bs.drop_last();
        assert(rest.no_duplicates()) by {
            assert forall|i: int, j: int|
                0 <= i < rest.len() && 0 <= j < rest.len() && i != j implies rest[i] != rest[j] by {
                assert(rest[i] == bs[i] && rest[j] == bs[j]);
            }
        }
        lemma_bought_update(s, t, listing, rest, w, delta);
        if bs.last() == w {
            assert(!rest.contains(w)) by {
                if rest.contains(w) {
                    let k = choose|k: int| 0 <= k < rest.len() && rest[k] == w;
                    assert(bs[k] == bs[bs.len() - 1]);
                }
            }
            assert(bs.contains(w)) by {
                assert(bs[bs.len() - 1] == w);
            }
        } else {
            assert(bs.contains(w) == rest.contains(w)) by {
                if bs.contains(w) {
                    let k = choose|k: int| 0 <= k < bs.len() && bs[k] == w;
                    assert(rest[k] == w);
                }
                if rest.contains(w) {
                    let k = choose|k: int| 0 <= k < rest.len() && rest[k] == w;
                    assert(bs[k] == w);
                }
            }
        }
    }
}

/// Buying tokens of a listed object keeps its token count: the tokens still
/// for sale and those its buyers bought add up as before, and the buyers
/// stay distinct and the only holders of its tokens.
pub proof fn law_buy_token_keeps_token_count(
    s: MarketState,
    assets: crate::assets::AssetsState,
    whitelisted: Seq<AccountId>,
    signer: AccountId,
    listing: ListingId,
    amount: u32,
)
    requires
        Pallet::buy_token_outcome(s, assets, whitelisted, Origin::Signed(signer), listing, amount) is Ok,
        buyers_account_for_tokens(s, listing),
    ensures
        token_count(after_buy_token(s, signer, listing, amount), listing) == token_count(s, listing),
        buyers_account_for_tokens(after_buy_token(s, signer, listing, amount), listing),
{
    let t = after_buy_token(s, signer, listing, amount);
    let bs = s.buyers(listing);
    let od = s.owner_details(signer, listing);
    assert forall|b: AccountId| b != signer implies #[trigger] t.owner_details(b, listing) == s.owner_details(
        b,
        listing,
    ) by {
        lemma_pair_key_injective(b, listing as u64, signer, listing as u64);
    }
    assert(t.owner_details(signer, listing).token_amount == od.token_amount + amount);
    lemma_bought_update(s, t, listing, bs, signer, amount as int);
    assert(tokens_listed(t, listing) == tokens_listed(s, listing) - amount);
    if bs.contains(signer) {
        assert(t.buyers(listing) == bs);
    } else {
        let nb = bs.push(signer);
        assert(t.buyers(listing) == nb);
        assert(nb.drop_last() =~= bs);
        assert(od.token_amount == 0);
        assert(tokens_bought(t, listing, nb) == tokens_bought(t, listing, bs) + amount);
        assert(nb.no_duplicates()) by {
            assert forall|i: int, j: int|
                0 <= i < nb.len() && 0 <= j < nb.len() && i != j implies nb[i] != nb[j] by {
                if i < bs.len() && j < bs.len() {
                    assert(nb[i] == bs[i] && nb[j] == bs[j]);
                } else if i < bs.len() {
                    assert(nb[i] == bs[i]);
                } else if j < bs.len() {
                    assert(nb[j] == bs[j]);
                }
            }
        }
    }
    assert forall|who: AccountId| !t.buyers(listing).contains(who) implies #[trigger] t.owner_details(
        who,
        listing,
    ).token_amount == 0 by {
        if who == signer {
            if bs.contains(signer) {
            } else {
                assert(t.buyers(listing)[bs.len() as int] == signer);
            }
        } else {
            if bs.contains(who) {
                let k = choose|k: int| 0 <= k < bs.len() && bs[k] == who;
                assert(t.buyers(listing)[k] == who);
            }
        }
    }
}
/// A sale of relisted tokens moves them from the seller to the buyer: the
/// two hold together what they held before, and every other holding stays.
/// Where the buyer holds tokens of the property, it is one of its owners.
pub proof fn law_sale_moves_owner_tokens(
    s: MarketState,
    asset: AssetId,
    seller: AccountId,
    buyer: AccountId,
    amount: u32,
)
    requires
        holdings_after_sale(s, asset, seller, buyer, amount) is Ok,
        seller != buyer,
        s.owner_tokens(asset, buyer) > 0 ==> s.owners(asset).contains(buyer),
    ensures
        ({
            let pot = holdings_after_sale(s, asset, seller, buyer, amount)->Ok_0.1;
            get_or(pot, holding_key(asset, seller), 0u32) + get_or(pot, holding_key(asset, buyer), 0u32)
                == s.owner_tokens(asset, seller) + s.owner_tokens(asset, buyer)
        }),
        forall|w: AccountId|
            w != seller && w != buyer ==> get_or(
                #[trigger] holdings_after_sale(s, asset, seller, buyer, amount)->Ok_0.1,
                holding_key(asset, w),
                0u32,
            ) == s.owner_tokens(asset, w),
{
    let owners = s.owners(asset);
    lemma_pair_key_injective(asset as u64, seller, asset as u64, buyer);
    assert forall|w: AccountId| w != seller && w != buyer implies get_or(
        #[trigger] holdings_after_sale(s, asset, seller, buyer, amount)->Ok_0.1,
        holding_key(asset, w),
        0u32,
    ) == s.owner_tokens(asset, w) by {
        lemma_pair_key_injective(asset as u64, w, asset as u64, seller);
        lemma_pair_key_injective(asset as u64, w, asset as u64, buyer);
    }
    let old_amount = s.owner_tokens(asset, seller);
    let rest = (old_amount - amount) as u32;
    if rest == 0 && owners.contains(buyer) {
        owners.index_of_first_ensures(seller);
        let i = owners.index_of_first(seller)->Some_0;
        let k = choose|k: int| 0 <= k < owners.len() && owners[k] == buyer;
        let r = owners.remove(i);
        if k < i {
            assert(r[k] == buyer);
        } else {
            assert(k != i);
            assert(r[k - 1] == buyer);
        }
        assert(r.contains(buyer));
    }
}
/// Taking one entry out of a list without duplicates leaves a list without
/// duplicates that holds the other entries.
proof fn lemma_remove_distinct<A>(s: Seq<A>, i: int)
    requires
        s.no_duplicates(),
        0 <= i < s.len(),
    ensures
        s.remove(i).no_duplicates(),
        forall|x: A| #[trigger] s.remove(i).contains(x) <==> (s.contains(x) && x != s[i]),
{
    let r = s.remove(i);
    assert forall|a: int, b: int| 0 <= a < r.len() && 0 <= b < r.len() && a != b implies r[a] != r[b] by {
        let ia = if a < i { a } else { a + 1 };
        let ib = if b < i { b } else { b + 1 };
        assert(r[a] == s[ia] && r[b] == s[ib]);
    }
    assert forall|x: A| #[trigger] r.contains(x) <==> (s.contains(x) && x != s[i]) by {
        if r.contains(x) {
            let k = choose|k: int| 0 <= k < r.len() && r[k] == x;
            let ik = if k < i { k } else { k + 1 };
            assert(s[ik] == x);
        }
        if s.contains(x) && x != s[i] {
            let k = choose|k: int| 0 <= k < s.len() && s[k] == x;
            if k < i {
                assert(r[k] == x);
            } else {
                assert(r[k - 1] == x);
            }
        }
    }
}

/// Appending an entry that is not there to a list without duplicates
/// leaves a list without duplicates.
proof fn lemma_push_distinct<A>(s: Seq<A>, x: A)
    requires
        s.no_duplicates(),
        !s.contains(x),
    ensures
        s.push(x).no_duplicates(),
        forall|y: A| #[trigger] s.push(x).contains(y) <==> (s.contains(y) || y == x),
{
    let p = s.push(x);
    assert forall|a: int, b: int| 0 <= a < p.len() && 0 <= b < p.len() && a != b implies p[a] != p[b] by {
        if a < s.len() && b < s.len() {
            assert(p[a] == s[a] && p[b] == s[b]);
        } else if a < s.len() {
            assert(p[a] == s[a]);
        } else if b < s.len() {
            assert(p[b] == s[b]);
        }
    }
    assert forall|y: A| #[trigger] p.contains(y) <==> (s.contains(y) || y == x) by {
        if p.contains(y) {
            let k = choose|k: int| 0 <= k < p.len() && p[k] == y;
            if k < s.len() {
                assert(s[k] == y);
            }
        }
        if s.contains(y) {
            let k = choose|k: int| 0 <= k < s.len() && s[k] == y;
            assert(p[k] == y);
        }
        if y == x {
            assert(p[s.len() as int] == y);
        }
    }
}

/// The owner list of a property matches its holdings: nobody is in it
/// twice, and an account is in it exactly when it holds tokens of the
/// property.
pub open spec fn owners_match_holdings(s: MarketState, asset: AssetId) -> bool {
    &&& s.owners(asset).no_duplicates()
    &&& forall|w: AccountId| #[trigger] s.owners(asset).contains(w) <==> s.owner_tokens(asset, w) > 0
}

/// A sale of relisted tokens: of the price, 1 % goes from the paying
/// account to the treasury and 99 % to the seller, and the buyer gets the
/// tokens from the marketplace's account; the seller holds `amount` tokens
/// fewer and the buyer `amount` more, every other holding stays; the seller
/// leaves the owner list exactly when it is left without tokens, the buyer
/// is in it once, and the owner list keeps matching the holdings; the
/// listing keeps the tokens left, if any.
pub proof fn law_token_sale(
    s: MarketState,
    a: crate::assets::AssetsState,
    listing_id: ListingId,
    transfer_from: AccountId,
    account: AccountId,
    ld: TokenListingDetails,
    price: Balance,
    amount: u32,
)
    requires
        buying_token_process_spec(s, a, listing_id, transfer_from, account, ld, price, amount) is Ok,
        ld.seller != account,
        amount > 0,
        owners_match_holdings(s, ld.asset_id),
    ensures
        ({
            let (t, a2) = buying_token_process_spec(
                s,
                a,
                listing_id,
                transfer_from,
                account,
                ld,
                price,
                amount,
            )->Ok_0;
            let asset = ld.asset_id;
            &&& a2 == a.after_transfer(PAYMENT_ASSET, transfer_from, s.treasury_account, (price / 100) as Balance)
                .after_transfer(PAYMENT_ASSET, transfer_from, ld.seller, (price * 99 / 100) as Balance)
                .after_transfer(asset, s.pallet_account, account, amount as Balance)
            &&& t.owner_tokens(asset, ld.seller) == s.owner_tokens(asset, ld.seller) - amount
            &&& t.owner_tokens(asset, account) == s.owner_tokens(asset, account) + amount
            &&& forall|w: AccountId|
                w != ld.seller && w != account ==> #[trigger] t.owner_tokens(asset, w) == s.owner_tokens(
                    asset,
                    w,
                )
            &&& owners_match_holdings(t, asset)
            &&& (t.owners(asset).contains(ld.seller) <==> s.owner_tokens(asset, ld.seller) > amount)
            &&& t.owners(asset).contains(account)
            &&& t.token_listings == if ld.amount > amount {
                s.token_listings.insert(listing_id, TokenListingDetails { amount: (ld.amount - amount) as u32, ..ld })
            } else {
                s.token_listings
            }
        }),
{
    let asset = ld.asset_id;
    let seller = ld.seller;
    let buyer = account;
    let owners = s.owners(asset);
    let old_amount = s.owner_tokens(asset, seller);
    let rest = (old_amount - amount) as u32;
    let (po, pot) = holdings_after_sale(s, asset, seller, buyer, amount)->Ok_0;
    let t = buying_token_process_spec(s, a, listing_id, transfer_from, account, ld, price, amount)->Ok_0.0;
    assert(t.property_owner == po && t.property_owner_token == pot);
    lemma_pair_key_injective(asset as u64, seller, asset as u64, buyer);
    assert forall|w: AccountId| w != seller && w != buyer implies #[trigger] t.owner_tokens(asset, w)
        == s.owner_tokens(asset, w) by {
        lemma_pair_key_injective(asset as u64, w, asset as u64, seller);
        lemma_pair_key_injective(asset as u64, w, asset as u64, buyer);
    }
    assert(owners.contains(seller)) by {
        assert(s.owner_tokens(asset, seller) > 0);
    }
    let owners1 = if rest == 0 {
        owners.remove(owners.index_of_first(seller)->Some_0)
    } else {
        owners
    };
    if rest == 0 {
        owners.index_of_first_ensures(seller);
        lemma_remove_distinct(owners, owners.index_of_first(seller)->Some_0);
    }
    assert(owners1.no_duplicates());
    assert(forall|w: AccountId| #[trigger] owners1.contains(w) <==> (owners.contains(w) && (w != seller || rest > 0)));
    let po1 = if rest == 0 {
        s.property_owner.insert(asset, owners1)
    } else {
        s.property_owner
    };
    assert(get_or(po1, asset, Seq::<AccountId>::empty()) == owners1);
    if !owners1.contains(buyer) {
        assert(!owners.contains(buyer));
        assert(s.owner_tokens(asset, buyer) == 0);
        lemma_push_distinct(owners1, buyer);
        assert(t.owners(asset) == owners1.push(buyer));
    } else {
        assert(t.owners(asset) == owners1);
    }
    assert(t.owner_tokens(asset, seller) == rest);
    assert(t.owner_tokens(asset, buyer) == s.owner_tokens(asset, buyer) + amount);
    assert forall|w: AccountId| #[trigger] t.owners(asset).contains(w) <==> t.owner_tokens(asset, w) > 0 by {
        if w != seller && w != buyer {
            assert(t.owner_tokens(asset, w) == s.owner_tokens(asset, w));
        }
    }
}
/// The books of listing `l`: its buyers are distinct, an account is among
/// them exactly when a record of its tokens of `l` is stored, and while `l`
/// is listed the tokens its buyers bought and those still for sale add up
/// to its token amount; a listing id not handed out yet has no listing, no
/// tokens for sale and no buyers.
pub open spec fn listing_books(s: MarketState, l: ListingId) -> bool {
    &&& s.buyers(l).no_duplicates()
    &&& forall|w: AccountId|
        #![trigger s.buyers(l).contains(w)]
        #![trigger s.token_owner.contains_key(owner_key(w, l))]
        s.buyers(l).contains(w) <==> s.token_owner.contains_key(owner_key(w, l))
    &&& s.ongoing_object_listing.contains_key(l) ==> token_count(s, l)
        == s.ongoing_object_listing[l].token_amount
    &&& l >= s.next_listing_id ==> {
        &&& !s.ongoing_object_listing.contains_key(l)
        &&& !s.listed_token.contains_key(l)
        &&& s.buyers(l).len() == 0
    }
}

/// The tokens bought by `bs` rest on their records alone.
proof fn lemma_bought_same(s: MarketState, t: MarketState, l: ListingId, bs: Seq<AccountId>)
    requires
        forall|b: AccountId| #[trigger] t.owner_details(b, l) == s.owner_details(b, l),
    ensures
        tokens_bought(t, l, bs) == tokens_bought(s, l, bs),
    decreases bs.len(),
{
    if bs.len() > 0 {
        lemma_bought_same(s, t, l, bs.drop_last());
    }
}

/// A state that agrees with `s` on everything the books of `l` rest on,
/// and has handed out no fewer listing ids, keeps the books of `l`.
proof fn lemma_books_same(s: MarketState, t: MarketState, l: ListingId)
    requires
        listing_books(s, l),
        t.buyers(l) == s.buyers(l),
        t.ongoing_object_listing.contains_key(l) == s.ongoing_object_listing.contains_key(l),
        s.ongoing_object_listing.contains_key(l) ==> t.ongoing_object_listing[l].token_amount
            == s.ongoing_object_listing[l].token_amount,
        t.listed_token.contains_key(l) == s.listed_token.contains_key(l),
        tokens_listed(t, l) == tokens_listed(s, l),
        forall|w: AccountId| #[trigger]
            t.token_owner.contains_key(owner_key(w, l)) == s.token_owner.contains_key(owner_key(w, l)),
        forall|w: AccountId| #[trigger] t.owner_details(w, l) == s.owner_details(w, l),
        t.next_listing_id >= s.next_listing_id,
    ensures
        listing_books(t, l),
{
    lemma_bought_same(s, t, l, s.buyers(l));
    assert forall|w: AccountId|
        #![trigger t.buyers(l).contains(w)]
        #![trigger t.token_owner.contains_key(owner_key(w, l))]
        t.buyers(l).contains(w) <==> t.token_owner.contains_key(owner_key(w, l)) by {
        assert(s.buyers(l).contains(w) <==> s.token_owner.contains_key(owner_key(w, l)));
    }
}

/// The books of a listing rest only on the listings, the tokens for sale,
/// the buyers, the records of their tokens and the next listing id.
proof fn lemma_books_frame(s: MarketState, t: MarketState, l: ListingId)
    requires
        listing_books(s, l),
        t.ongoing_object_listing == s.ongoing_object_listing,
        t.listed_token == s.listed_token,
        t.token_buyer == s.token_buyer,
        t.token_owner == s.token_owner,
        t.next_listing_id >= s.next_listing_id,
    ensures
        listing_books(t, l),
{
    lemma_books_same(s, t, l);
}


/// Listing an object keeps the books of every listing: the new listing
/// has all its tokens for sale and no buyers.
proof fn lemma_list_object_books(
    s: MarketState,
    assets: crate::assets::AssetsState,
    nfts: crate::nfts::NftsState,
    whitelisted: Seq<AccountId>,
    signer: AccountId,
    region: RegionId,
    location: Seq<u8>,
    token_price: Balance,
    token_amount: u32,
    l: ListingId,
)
    requires
        Pallet::list_object_outcome(
            s,
            assets,
            nfts,
            whitelisted,
            Origin::Signed(signer),
            region,
            location,
            token_price,
            token_amount,
        ) is Ok,
        listing_books(s, l),
    ensures
        listing_books(after_list_object(s, assets, signer, region, location, token_price, token_amount), l),
{
    let t = after_list_object(s, assets, signer, region, location, token_price, token_amount);
    if l == s.next_listing_id {
        assert(t.buyers(l) == Seq::<AccountId>::empty());
        assert forall|w: AccountId| !#[trigger] t.token_owner.contains_key(owner_key(w, l)) by {
            assert(!s.buyers(l).contains(w));
        }
        assert(tokens_bought(t, l, t.buyers(l)) == 0);
    } else {
        lemma_books_same(s, t, l);
    }
}

/// Buying tokens of a listed object keeps the books of every listing.
proof fn lemma_buy_token_books(
    s: MarketState,
    assets: crate::assets::AssetsState,
    whitelisted: Seq<AccountId>,
    signer: AccountId,
    listing: ListingId,
    amount: u32,
    l: ListingId,
)
    requires
        Pallet::buy_token_outcome(s, assets, whitelisted, Origin::Signed(signer), listing, amount) is Ok,
        listing_books(s, l),
    ensures
        listing_books(after_buy_token(s, signer, listing, amount), l),
{
    let t = after_buy_token(s, signer, listing, amount);
    if l == listing {
        assert(buyers_account_for_tokens(s, l)) by {
            assert forall|who: AccountId| !s.buyers(l).contains(who) implies #[trigger] s.owner_details(
                who,
                l,
            ).token_amount == 0 by {
                assert(!s.token_owner.contains_key(owner_key(who, l)));
            }
        }
        law_buy_token_keeps_token_count(s, assets, whitelisted, signer, listing, amount);
        assert forall|w: AccountId|
            #![trigger t.buyers(l).contains(w)]
            #![trigger t.token_owner.contains_key(owner_key(w, l))]
            t.buyers(l).contains(w) <==> t.token_owner.contains_key(owner_key(w, l)) by {
            lemma_pair_key_injective(w, l as u64, signer, listing as u64);
            assert(s.buyers(l).contains(w) <==> s.token_owner.contains_key(owner_key(w, l)));
            if w == signer && !s.buyers(l).contains(signer) {
                assert(t.buyers(l)[s.buyers(l).len() as int] == signer);
            }
            if w != signer && !s.buyers(l).contains(signer) && s.buyers(l).contains(w) {
                let k = choose|k: int| 0 <= k < s.buyers(l).len() && s.buyers(l)[k] == w;
                assert(t.buyers(l)[k] == w);
            }
        }
    } else {
        assert forall|w: AccountId| #[trigger]
            t.token_owner.contains_key(owner_key(w, l)) == s.token_owner.contains_key(owner_key(w, l)) by {
            lemma_pair_key_injective(w, l as u64, signer, listing as u64);
        }
        assert forall|w: AccountId| #[trigger] t.owner_details(w, l) == s.owner_details(w, l) by {
            lemma_pair_key_injective(w, l as u64, signer, listing as u64);
        }
        lemma_books_same(s, t, l);
    }
}

/// Changing the token price of a listed object keeps the books of every
/// listing.
proof fn lemma_upgrade_object_books(
    s: MarketState,
    whitelisted: Seq<AccountId>,
    origin: Origin,
    listing: ListingId,
    new_price: Balance,
    l: ListingId,
)
    requires
        upgrade_object_spec(s, whitelisted, origin, listing, new_price) is Ok,
        listing_books(s, l),
    ensures
        listing_books(upgrade_object_spec(s, whitelisted, origin, listing, new_price)->Ok_0, l),
{
    lemma_books_same(s, upgrade_object_spec(s, whitelisted, origin, listing, new_price)->Ok_0, l);
}
/// Handing out a listing's tokens to `owners` removes their records of it and
/// leaves the rest of the books as they are.
proof fn lemma_distribute_books(
    s: MarketState,
    a: crate::assets::AssetsState,
    listing: ListingId,
    asset: AssetId,
    owners: Seq<AccountId>,
)
    requires
        distribute_all(s, a, listing, asset, owners) is Ok,
    ensures
        ({
            let t = distribute_all(s, a, listing, asset, owners)->Ok_0.0;
            &&& t.ongoing_object_listing == s.ongoing_object_listing
            &&& t.listed_token == s.listed_token
            &&& t.token_buyer == s.token_buyer
            &&& t.next_listing_id == s.next_listing_id
            &&& forall|w: AccountId, l: ListingId| #[trigger]
                t.token_owner.contains_key(owner_key(w, l)) == (s.token_owner.contains_key(owner_key(w, l))
                    && !(l == listing && owners.contains(w)))
            &&& forall|w: AccountId, l: ListingId|
                l != listing ==> #[trigger] t.owner_details(w, l) == s.owner_details(w, l)
        }),
    decreases owners.len(),
{
    if owners.len() > 0 {
        let o = owners[0];
        let s1 = distribute_step(s, a, listing, asset, o)->Ok_0.0;
        let a1 = distribute_step(s, a, listing, asset, o)->Ok_0.1;
        let rest = owners.drop_first();
        lemma_distribute_books(s1, a1, listing, asset, rest);
        let t = distribute_all(s, a, listing, asset, owners)->Ok_0.0;
        assert forall|w: AccountId, l: ListingId| #[trigger]
            t.token_owner.contains_key(owner_key(w, l)) == (s.token_owner.contains_key(owner_key(w, l))
                && !(l == listing && owners.contains(w))) by {
            lemma_pair_key_injective(w, l as u64, o, listing as u64);
            assert(owners.contains(w) <==> (w == o || rest.contains(w))) by {
                if owners.contains(w) && w != o {
                    let k = choose|k: int| 0 <= k < owners.len() && owners[k] == w;
                    assert(rest[k - 1] == w);
                }
                if rest.contains(w) {
                    let k = choose|k: int| 0 <= k < rest.len() && rest[k] == w;
                    assert(owners[k + 1] == w);
                }
            }
        }
        assert forall|w: AccountId, l: ListingId| l != listing implies #[trigger] t.owner_details(w, l)
            == s.owner_details(w, l) by {
            lemma_pair_key_injective(w, l as u64, o, listing as u64);
            assert(s1.owner_details(w, l) == s.owner_details(w, l));
        }
    }
}

/// Refunding `owners` removes their records of the listing and leaves the
/// rest of the books as they are.
proof fn lemma_refund_books(
    s: MarketState,
    a: crate::assets::AssetsState,
    listing: ListingId,
    asset: AssetId,
    owners: Seq<AccountId>,
)
    requires
        refund_all(s, a, listing, asset, owners) is Ok,
    ensures
        ({
            let t = refund_all(s, a, listing, asset, owners)->Ok_0.0;
            &&& t.ongoing_object_listing == s.ongoing_object_listing
            &&& t.listed_token == s.listed_token
            &&& t.token_buyer == s.token_buyer
            &&& t.next_listing_id == s.next_listing_id
            &&& forall|w: AccountId, l: ListingId| #[trigger]
                t.token_owner.contains_key(owner_key(w, l)) == (s.token_owner.contains_key(owner_key(w, l))
                    && !(l == listing && owners.contains(w)))
            &&& forall|w: AccountId, l: ListingId|
                l != listing ==> #[trigger] t.owner_details(w, l) == s.owner_details(w, l)
        }),
    decreases owners.len(),
{
    if owners.len() > 0 {
        let o = owners[0];
        let s1 = refund_step(s, a, listing, asset, o)->Ok_0.0;
        let a1 = refund_step(s, a, listing, asset, o)->Ok_0.1;
        let rest = owners.drop_first();
        lemma_refund_books(s1, a1, listing, asset, rest);
        let t = refund_all(s, a, listing, asset, owners)->Ok_0.0;
        assert forall|w: AccountId, l: ListingId| #[trigger]
            t.token_owner.contains_key(owner_key(w, l)) == (s.token_owner.contains_key(owner_key(w, l))
                && !(l == listing && owners.contains(w))) by {
            lemma_pair_key_injective(w, l as u64, o, listing as u64);
            assert(owners.contains(w) <==> (w == o || rest.contains(w))) by {
                if owners.contains(w) && w != o {
                    let k = choose|k: int| 0 <= k < owners.len() && owners[k] == w;
                    assert(rest[k - 1] == w);
                }
                if rest.contains(w) {
                    let k = choose|k: int| 0 <= k < rest.len() && rest[k] == w;
                    assert(owners[k + 1] == w);
                }
            }
        }
        assert forall|w: AccountId, l: ListingId| l != listing implies #[trigger] t.owner_details(w, l)
            == s.owner_details(w, l) by {
            lemma_pair_key_injective(w, l as u64, o, listing as u64);
            assert(s1.owner_details(w, l) == s.owner_details(w, l));
        }
    }
}
/// After a listing is closed (its listing and buyers taken out and the
/// records of all its buyers removed) its books hold, and so do those of
/// every other listing whose parts stayed as they were.
proof fn lemma_closed_books(s: MarketState, t: MarketState, listing: ListingId, l: ListingId)
    requires
        listing_books(s, l),
        listing_books(s, listing),
        s.ongoing_object_listing.contains_key(listing),
        t.ongoing_object_listing == s.ongoing_object_listing.remove(listing),
        t.listed_token == s.listed_token,
        t.token_buyer == s.token_buyer.remove(listing),
        t.next_listing_id == s.next_listing_id,
        forall|w: AccountId, k: ListingId| #[trigger]
            t.token_owner.contains_key(owner_key(w, k)) == (s.token_owner.contains_key(owner_key(w, k))
                && !(k == listing && s.buyers(listing).contains(w))),
        forall|w: AccountId, k: ListingId|
            k != listing ==> #[trigger] t.owner_details(w, k) == s.owner_details(w, k),
    ensures
        listing_books(t, l),
{
    if l == listing {
        assert(t.buyers(l) == Seq::<AccountId>::empty());
        assert forall|w: AccountId| !#[trigger] t.token_owner.contains_key(owner_key(w, l)) by {
            assert(s.buyers(l).contains(w) <==> s.token_owner.contains_key(owner_key(w, l)));
        }
    } else {
        assert(t.buyers(l) == s.buyers(l));
        assert forall|w: AccountId| #[trigger]
            t.token_owner.contains_key(owner_key(w, l)) == s.token_owner.contains_key(owner_key(w, l)) by {
        }
        assert forall|w: AccountId| #[trigger] t.owner_details(w, l) == s.owner_details(w, l) by {}
        lemma_books_same(s, t, l);
    }
}

/// Executing the deal of a listing keeps the books of every listing.
proof fn lemma_execute_deal_books(
    s: MarketState,
    a: crate::assets::AssetsState,
    listing: ListingId,
    d: PropertyLawyerDetails,
    l: ListingId,
)
    requires
        execute_deal_spec(s, a, listing, d) is Ok,
        listing_books(s, l),
        listing_books(s, listing),
    ensures
        listing_books(execute_deal_spec(s, a, listing, d)->Ok_0.0, l),
{
    let nft = s.ongoing_object_listing[listing];
    let s1 = MarketState {
        token_buyer: s.token_buyer.remove(listing),
        ongoing_object_listing: s.ongoing_object_listing.remove(listing),
        ..s
    };
    let price = nft.collected_funds;
    let base = price / 100 + nft.collected_fees;
    let treasury_fees = (base - d.real_estate_developer_lawyer_costs - d.spv_lawyer_costs) as Balance;
    let developer_part = (nft.collected_tax + d.real_estate_developer_lawyer_costs) as Balance;
    let seller_part = (price * 99 / 100) as Balance;
    let a1 = pay(a, s.pallet_account, d.real_estate_developer_lawyer->Some_0, developer_part)->Ok_0;
    let a2 = pay(a1, s.pallet_account, d.spv_lawyer->Some_0, d.spv_lawyer_costs)->Ok_0;
    let a3 = pay(a2, s.pallet_account, s.treasury_account, treasury_fees)->Ok_0;
    let a4 = pay(a3, s.pallet_account, nft.real_estate_developer, seller_part)->Ok_0;
    lemma_distribute_books(s1, a4, listing, nft.asset_id, s.buyers(listing));
    let s2 = distribute_all(s1, a4, listing, nft.asset_id, s.buyers(listing))->Ok_0.0;
    let t = execute_deal_spec(s, a, listing, d)->Ok_0.0;
    assert(t.token_owner == s2.token_owner);
    assert forall|w: AccountId, k: ListingId| k != listing implies #[trigger] t.owner_details(w, k)
        == s.owner_details(w, k) by {
        assert(s2.owner_details(w, k) == s1.owner_details(w, k));
    }
    lemma_closed_books(s, t, listing, l);
}

/// Refunding the buyers of a listing keeps the books of every listing.
proof fn lemma_refund_investors_books(
    s: MarketState,
    a: crate::assets::AssetsState,
    listing: ListingId,
    d: PropertyLawyerDetails,
    l: ListingId,
)
    requires
        refund_investors_spec(s, a, listing, d) is Ok,
        listing_books(s, l),
        listing_books(s, listing),
    ensures
        listing_books(refund_investors_spec(s, a, listing, d)->Ok_0.0, l),
{
    let nft = s.ongoing_object_listing[listing];
    let s1 = MarketState {
        token_buyer: s.token_buyer.remove(listing),
        ongoing_object_listing: s.ongoing_object_listing.remove(listing),
        ..s
    };
    let a1 = pay(a, s.pallet_account, s.treasury_account, (nft.collected_fees - d.spv_lawyer_costs) as Balance)->Ok_0;
    let spv = d.spv_lawyer->Some_0;
    let a2 = match pay(a1, s.pallet_account, spv, d.spv_lawyer_costs) {
        Ok(a2) => a2,
        Err(_) => a1,
    };
    lemma_refund_books(s1, a2, listing, nft.asset_id, s.buyers(listing));
    let t = refund_investors_spec(s, a, listing, d)->Ok_0.0;
    assert forall|w: AccountId, k: ListingId| k != listing implies #[trigger] t.owner_details(w, k)
        == s.owner_details(w, k) by {
        assert(t.owner_details(w, k) == s1.owner_details(w, k));
    }
    lemma_closed_books(s, t, listing, l);
}

/// Burning a listed property and refunding its buyers keeps the books of
/// every listing.
proof fn lemma_burn_and_refund_books(
    s: MarketState,
    a: crate::assets::AssetsState,
    n: crate::nfts::NftsState,
    listing: ListingId,
    d: PropertyLawyerDetails,
    l: ListingId,
)
    requires
        burn_and_refund_spec(s, a, n, listing, d) is Ok,
        listing_books(s, l),
        listing_books(s, listing),
    ensures
        listing_books(burn_and_refund_spec(s, a, n, listing, d)->Ok_0.0, l),
{
    let (s1, a1, n1) = burn_tokens_and_nfts_spec(s, a, n, listing)->Ok_0;
    lemma_books_same(s, s1, l);
    lemma_books_same(s, s1, listing);
    lemma_refund_investors_books(s1, a1, listing, d, l);
}

/// A lawyer's confirmation keeps the books of every listing: a deal that
/// goes through or is refused closes the listing and the records of all
/// its buyers, any other outcome leaves the books as they are.
proof fn lemma_lawyer_confirm_books(
    s: MarketState,
    a: crate::assets::AssetsState,
    n: crate::nfts::NftsState,
    signer: AccountId,
    listing: ListingId,
    approve: bool,
    l: ListingId,
)
    requires
        lawyer_confirm_documents_spec(s, a, n, Origin::Signed(signer), listing, approve) is Ok,
        listing_books(s, l),
        listing_books(s, listing),
    ensures
        listing_books(lawyer_confirm_documents_spec(s, a, n, Origin::Signed(signer), listing, approve)->Ok_0.0, l),
{
    let d = s.property_lawyer[listing];
    let status = if approve {
        DocumentStatus::Approved
    } else {
        DocumentStatus::Rejected
    };
    let d1 = if d.real_estate_developer_lawyer == Some(signer) {
        PropertyLawyerDetails { real_estate_developer_status: status, ..d }
    } else {
        PropertyLawyerDetails { spv_status: status, ..d }
    };
    let s1 = MarketState {
        property_lawyer: s.property_lawyer.remove(listing),
        events: s.events.push(Event::DocumentsConfirmed { signer, listing_id: listing, approve }),
        ..s
    };
    let t = lawyer_confirm_documents_spec(s, a, n, Origin::Signed(signer), listing, approve)->Ok_0.0;
    lemma_books_same(s, s1, l);
    lemma_books_same(s, s1, listing);
    match (d1.real_estate_developer_status, d1.spv_status) {
        (DocumentStatus::Approved, DocumentStatus::Approved) => {
            lemma_execute_deal_books(s1, a, listing, d1, l);
        },
        (DocumentStatus::Rejected, DocumentStatus::Rejected) => {
            lemma_burn_and_refund_books(s1, a, n, listing, d1, l);
        },
        (DocumentStatus::Approved, DocumentStatus::Rejected) | (
            DocumentStatus::Rejected,
            DocumentStatus::Approved,
        ) => {
            if !d1.second_attempt {
                lemma_books_same(s1, t, l);
            } else {
                lemma_burn_and_refund_books(s1, a, n, listing, d1, l);
            }
        },
        _ => {
            lemma_books_same(s1, t, l);
        },
    }
}
/// The books of every listing hold.
pub open spec fn market_books(s: MarketState) -> bool {
    forall|l: ListingId| #[trigger] listing_books(s, l)
}

/// A marketplace that lists nothing yet keeps its books.
pub proof fn law_new_market_books(s: MarketState)
    requires
        s.ongoing_object_listing == Map::<ListingId, NftListingDetails>::empty(),
        s.listed_token == Map::<ListingId, u32>::empty(),
        s.token_buyer == Map::<ListingId, Seq<AccountId>>::empty(),
        s.token_owner == Map::<u128, TokenOwnerDetails>::empty(),
    ensures
        market_books(s),
{
    assert forall|l: ListingId| #[trigger] listing_books(s, l) by {
        assert(s.buyers(l) == Seq::<AccountId>::empty());
    }
}

/// The books rest only on the listings, the tokens for sale, the buyers,
/// the records of their tokens and the next listing id: a call that leaves
/// these as they are, but for handing out more listing ids, (creating a region or a location, registering a
/// lawyer, and the calls below) keeps the books.
pub proof fn law_market_books_frame(s: MarketState, t: MarketState)
    requires
        market_books(s),
        t.ongoing_object_listing == s.ongoing_object_listing,
        t.listed_token == s.listed_token,
        t.token_buyer == s.token_buyer,
        t.token_owner == s.token_owner,
        t.next_listing_id >= s.next_listing_id,
    ensures
        market_books(t),
{
    assert forall|l: ListingId| #[trigger] listing_books(t, l) by {
        lemma_books_frame(s, t, l);
    }
}

/// Listing an object keeps the books: the new listing has all its tokens
/// for sale and no buyers.
pub proof fn law_list_object_keeps_books(
    s: MarketState,
    assets: crate::assets::AssetsState,
    nfts: crate::nfts::NftsState,
    whitelisted: Seq<AccountId>,
    signer: AccountId,
    region: RegionId,
    location: Seq<u8>,
    token_price: Balance,
    token_amount: u32,
)
    requires
        Pallet::list_object_outcome(
            s,
            assets,
            nfts,
            whitelisted,
            Origin::Signed(signer),
            region,
            location,
            token_price,
            token_amount,
        ) is Ok,
        market_books(s),
    ensures
        market_books(after_list_object(s, assets, signer, region, location, token_price, token_amount)),
{
    let t = after_list_object(s, assets, signer, region, location, token_price, token_amount);
    assert forall|l: ListingId| #[trigger] listing_books(t, l) by {
        lemma_list_object_books(
            s,
            assets,
            nfts,
            whitelisted,
            signer,
            region,
            location,
            token_price,
            token_amount,
            l,
        );
    }
}

/// Buying tokens of a listed object keeps the books: the tokens move from
/// sale to the buyer, who is a buyer once.
pub proof fn law_buy_token_keeps_books(
    s: MarketState,
    assets: crate::assets::AssetsState,
    whitelisted: Seq<AccountId>,
    signer: AccountId,
    listing: ListingId,
    amount: u32,
)
    requires
        Pallet::buy_token_outcome(s, assets, whitelisted, Origin::Signed(signer), listing, amount) is Ok,
        market_books(s),
    ensures
        market_books(after_buy_token(s, signer, listing, amount)),
{
    let t = after_buy_token(s, signer, listing, amount);
    assert forall|l: ListingId| #[trigger] listing_books(t, l) by {
        lemma_buy_token_books(s, assets, whitelisted, signer, listing, amount, l);
    }
}

/// Changing the token price of a listed object keeps the books.
pub proof fn law_upgrade_object_keeps_books(
    s: MarketState,
    whitelisted: Seq<AccountId>,
    origin: Origin,
    listing: ListingId,
    new_price: Balance,
)
    requires
        upgrade_object_spec(s, whitelisted, origin, listing, new_price) is Ok,
        market_books(s),
    ensures
        market_books(upgrade_object_spec(s, whitelisted, origin, listing, new_price)->Ok_0),
{
    let t = upgrade_object_spec(s, whitelisted, origin, listing, new_price)->Ok_0;
    assert forall|l: ListingId| #[trigger] listing_books(t, l) by {
        lemma_upgrade_object_books(s, whitelisted, origin, listing, new_price, l);
    }
}

/// A lawyer's confirmation keeps the books: a deal that goes through or
/// is refused closes the listing and removes the records of all its buyers;
/// any other outcome leaves the books as they are.
pub proof fn law_lawyer_confirm_documents_keeps_books(
    s: MarketState,
    a: crate::assets::AssetsState,
    n: crate::nfts::NftsState,
    signer: AccountId,
    listing: ListingId,
    approve: bool,
)
    requires
        lawyer_confirm_documents_spec(s, a, n, Origin::Signed(signer), listing, approve) is Ok,
        market_books(s),
    ensures
        market_books(lawyer_confirm_documents_spec(s, a, n, Origin::Signed(signer), listing, approve)->Ok_0.0),
{
    let t = lawyer_confirm_documents_spec(s, a, n, Origin::Signed(signer), listing, approve)->Ok_0.0;
    assert(listing_books(s, listing));
    assert forall|l: ListingId| #[trigger] listing_books(t, l) by {
        assert(listing_books(s, l));
        lemma_lawyer_confirm_books(s, a, n, signer, listing, approve, l);
    }
}

/// The calls on token listings, offers and lawyers' cases keep the books:
/// buying relisted tokens, handling, making and cancelling an offer,
/// relisting and delisting tokens, changing a token listing's price, and a
/// lawyer taking or leaving a case.
pub proof fn law_token_and_case_calls_keep_books(
    s: MarketState,
    a: crate::assets::AssetsState,
    whitelisted: Seq<AccountId>,
    origin: Origin,
    listing: ListingId,
    region: RegionId,
    item: ItemId,
    offeror: AccountId,
    offer: Offer,
    price: Balance,
    amount: u32,
    legal_site: LegalProperty,
)
    requires
        market_books(s),
    ensures
        buy_relisted_token_spec(s, a, whitelisted, origin, listing, amount) matches Ok((t, _)) ==> market_books(t),
        handle_offer_spec(s, a, whitelisted, origin, listing, offeror, offer) matches Ok((t, _)) ==> market_books(t),
        make_offer_spec(s, a, whitelisted, origin, listing, price, amount) matches Ok((t, _)) ==> market_books(t),
        cancel_offer_spec(s, a, origin, listing) matches Ok((t, _)) ==> market_books(t),
        relist_token_spec(s, a, whitelisted, origin, region, item, price, amount) matches Ok((t, _)) ==> market_books(t),
        delist_token_spec(s, a, whitelisted, origin, listing) matches Ok((t, _)) ==> market_books(t),
        upgrade_listing_spec(s, whitelisted, origin, listing, price) matches Ok(t) ==> market_books(t),
        lawyer_claim_property_spec(s, origin, listing, legal_site, price) matches Ok(t) ==> market_books(t),
        remove_from_case_spec(s, origin, listing) matches Ok(t) ==> market_books(t),
{
    if let Ok((t, _)) = buy_relisted_token_spec(s, a, whitelisted, origin, listing, amount) {
        law_market_books_frame(s, t);
    }
    if let Ok((t, _)) = handle_offer_spec(s, a, whitelisted, origin, listing, offeror, offer) {
        law_market_books_frame(s, t);
    }
    if let Ok((t, _)) = make_offer_spec(s, a, whitelisted, origin, listing, price, amount) {
        law_market_books_frame(s, t);
    }
    if let Ok((t, _)) = cancel_offer_spec(s, a, origin, listing) {
        law_market_books_frame(s, t);
    }
    if let Ok((t, _)) = relist_token_spec(s, a, whitelisted, origin, region, item, price, amount) {
        law_market_books_frame(s, t);
    }
    if let Ok((t, _)) = delist_token_spec(s, a, whitelisted, origin, listing) {
        law_market_books_frame(s, t);
    }
    if let Ok(t) = upgrade_listing_spec(s, whitelisted, origin, listing, price) {
        law_market_books_frame(s, t);
    }
    if let Ok(t) = lawyer_claim_property_spec(s, origin, listing, legal_site, price) {
        law_market_books_frame(s, t);
    }
    if let Ok(t) = remove_from_case_spec(s, origin, listing) {
        law_market_books_frame(s, t);
    }
}
/// A purchase of listed tokens adds to the buyer's record of the listing:
/// `amount` more tokens, the price of them (`token_price * amount`) more
/// paid and 3 % of that price more tax paid; the records of everybody and
/// every other listing stay. So the record holds the sum over all the
/// buyer's purchases of what it paid, which a refund returns.
pub proof fn law_buy_token_records_payment(
    s: MarketState,
    assets: crate::assets::AssetsState,
    whitelisted: Seq<AccountId>,
    signer: AccountId,
    listing: ListingId,
    amount: u32,
)
    requires
        Pallet::buy_token_outcome(s, assets, whitelisted, Origin::Signed(signer), listing, amount) is Ok,
    ensures
        ({
            let t = after_buy_token(s, signer, listing, amount);
            let price = s.ongoing_object_listing[listing].token_price * amount;
            &&& t.owner_details(signer, listing).token_amount == s.owner_details(signer, listing).token_amount
                + amount
            &&& t.owner_details(signer, listing).paid_funds == s.owner_details(signer, listing).paid_funds
                + price
            &&& t.owner_details(signer, listing).paid_tax == s.owner_details(signer, listing).paid_tax + price
                * 3 / 100
            &&& forall|w: AccountId, l: ListingId|
                (w != signer || l != listing) ==> #[trigger] t.owner_details(w, l) == s.owner_details(w, l)
        }),
{
    let t = after_buy_token(s, signer, listing, amount);
    assert forall|w: AccountId, l: ListingId| (w != signer || l != listing) implies #[trigger] t.owner_details(
        w,
        l,
    ) == s.owner_details(w, l) by {
        lemma_pair_key_injective(w, l as u64, signer, listing as u64);
    }
}

/// Two purchases by one buyer of one listing add up in its record: it has
/// paid the price of both, `token_price * (first + second)`, and holds both
/// amounts of tokens.
pub proof fn law_two_purchases_add_up(
    s: MarketState,
    assets1: crate::assets::AssetsState,
    assets2: crate::assets::AssetsState,
    whitelisted: Seq<AccountId>,
    signer: AccountId,
    listing: ListingId,
    first: u32,
    second: u32,
)
    requires
        Pallet::buy_token_outcome(s, assets1, whitelisted, Origin::Signed(signer), listing, first) is Ok,
        Pallet::buy_token_outcome(
            after_buy_token(s, signer, listing, first),
            assets2,
            whitelisted,
            Origin::Signed(signer),
            listing,
            second,
        ) is Ok,
    ensures
        ({
            let t = after_buy_token(after_buy_token(s, signer, listing, first), signer, listing, second);
            let token_price = s.ongoing_object_listing[listing].token_price;
            &&& t.owner_details(signer, listing).paid_funds == s.owner_details(signer, listing).paid_funds
                + token_price * (first + second)
            &&& t.owner_details(signer, listing).token_amount == s.owner_details(signer, listing).token_amount
                + first + second
        }),
{
    let s1 = after_buy_token(s, signer, listing, first);
    law_buy_token_records_payment(s, assets1, whitelisted, signer, listing, first);
    law_buy_token_records_payment(s1, assets2, whitelisted, signer, listing, second);
    let p = s.ongoing_object_listing[listing].token_price;
    assert(s1.ongoing_object_listing[listing].token_price == p);
    assert(p * (first + second) == p * first + p * second) by (nonlinear_arith);
}
} // verus!
