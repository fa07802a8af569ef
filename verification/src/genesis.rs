use sp_core::{ed25519, sr25519, Pair};
use vstd::prelude::*;

use crate::arith::perbill_from_percent;

verus! {

/// A 32-byte account of the chain.
pub type AccountId32 = [u8; 32];

/// The keys of an initial authority: stash and controller accounts and the
/// Aura, Grandpa, ImOnline and authority discovery keys.
pub type AuthorityKeys = (AccountId32, AccountId32, [u8; 32], [u8; 32], [u8; 32], [u8; 32]);

/// The one unit of the native currency, in its smallest units.
pub const DOLLARS: u128 = 100_000_000_000_000;

/// What each development account is endowed with.
pub const ENDOWMENT: u128 = 10_000_000 * DOLLARS;

/// The signature schemes of the keys derived from seeds.
#[derive(Clone, Copy, Debug, PartialEq, Eq, Structural)]
pub enum KeyScheme {
    Sr25519,
    Ed25519,
}

/// The sr25519 public key that the development phrase derives along the
/// hard path `seed`, if the path is valid.
pub uninterp spec fn sr25519_dev_public(seed: Seq<char>) -> Option<Seq<u8>>;

/// The ed25519 public key that the development phrase derives along the
/// hard path `seed`, if the path is valid.
pub uninterp spec fn ed25519_dev_public(seed: Seq<char>) -> Option<Seq<u8>>;

/// `sp_core::sr25519::Pair::from_string("//" + seed, None)`, then its
/// public key. The contract names the key of each seed; which key it is,
/// is left unsaid.
#[verifier::external_body]
fn sr25519_public_from_seed(seed: &str) -> (r: Option<[u8; 32]>)
    ensures
        match r {
            Some(k) => sr25519_dev_public(seed@) == Some(k@),
            None => sr25519_dev_public(seed@) is None,
        },
{
    match sr25519::Pair::from_string(&format!("//{}", seed), None) {
        Ok(pair) => Some(pair.public().0),
        Err(_) => None,
    }
}

/// `sp_core::ed25519::Pair::from_string("//" + seed, None)`, then its
/// public key. The contract names the key of each seed; which key it is,
/// is left unsaid.
#[verifier::external_body]
fn ed25519_public_from_seed(seed: &str) -> (r: Option<[u8; 32]>)
    ensures
        match r {
            Some(k) => ed25519_dev_public(seed@) == Some(k@),
            None => ed25519_dev_public(seed@) is None,
        },
{
    match ed25519::Pair::from_string(&format!("//{}", seed), None) {
        Ok(pair) => Some(pair.public().0),
        Err(_) => None,
    }
}

/// The public key of `scheme` derived from `seed`.
pub open spec fn dev_public(scheme: KeyScheme, seed: Seq<char>) -> Option<Seq<u8>> {
    match scheme {
        KeyScheme::Sr25519 => sr25519_dev_public(seed),
        KeyScheme::Ed25519 => ed25519_dev_public(seed),
    }
}

/// The public key of `scheme` that the development phrase derives along
/// the hard path `seed`; `None` where the path is not valid.
pub fn get_from_seed(scheme: KeyScheme, seed: &str) -> (r: Option<[u8; 32]>)
    ensures
        match r {
            Some(k) => dev_public(scheme, seed@) == Some(k@),
            None => dev_public(scheme, seed@) is None,
        },
{
    match scheme {
        KeyScheme::Sr25519 => sr25519_public_from_seed(seed),
        KeyScheme::Ed25519 => ed25519_public_from_seed(seed),
    }
}

/// The account of the sr25519 key derived from `seed`: the public key
/// itself.
pub fn get_account_id_from_seed(seed: &str) -> (r: Option<AccountId32>)
    ensures
        match r {
            Some(k) => sr25519_dev_public(seed@) == Some(k@),
            None => sr25519_dev_public(seed@) is None,
        },
{
    get_from_seed(KeyScheme::Sr25519, seed)
}

/// The keys of an authority derived from `s`: its accounts and all but
/// the Grandpa key are sr25519, the Grandpa key is ed25519.
pub fn authority_keys_from_seed(s: &str) -> (r: Option<AuthorityKeys>)
    ensures
        match r {
            Some(k) => {
                &&& sr25519_dev_public(s@) == Some(k.0@)
                &&& k.1 == k.0
                &&& k.2 == k.0
                &&& ed25519_dev_public(s@) == Some(k.3@)
                &&& k.4 == k.0
                &&& k.5 == k.0
            },
            None => sr25519_dev_public(s@) is None || ed25519_dev_public(s@) is None,
        },
{
    let sr = match get_account_id_from_seed(s) {
        Some(k) => k,
        None => {
            return None;
        },
    };
    let ed = match get_from_seed(KeyScheme::Ed25519, s) {
        Some(k) => k,
        None => {
            return None;
        },
    };
    Some((sr, sr, sr, ed, sr, sr))
}

/// The session keys of a validator.
#[derive(Clone, Copy, Debug, PartialEq, Eq)]
pub struct SessionKeys {
    pub aura: [u8; 32],
    pub grandpa: [u8; 32],
    pub im_online: [u8; 32],
    pub authority_discovery: [u8; 32],
}

/// The session keys of the given keys.
pub fn session_keys(aura: [u8; 32], grandpa: [u8; 32], im_online: [u8; 32], authority_discovery: [u8; 32]) -> (r:
    SessionKeys)
    ensures
        r == (SessionKeys { aura, grandpa, im_online, authority_discovery }),
{
    SessionKeys { aura, grandpa, im_online, authority_discovery }
}

/// The genesis of the staking.
#[derive(Clone, Debug, PartialEq, Eq)]
pub struct StakingGenesis {
    pub validator_count: u32,
    pub minimum_validator_count: u32,
    pub invulnerables: Vec<AccountId32>,
    /// In parts per billion.
    pub slash_reward_fraction: u32,
}

/// The initial storage of a chain.
#[derive(Clone, Debug, PartialEq, Eq)]
pub struct GenesisConfig {
    /// Each endowed account with its balance.
    pub balances: Vec<(AccountId32, u64)>,
    /// The network admin.
    pub sudo_key: AccountId32,
    pub staking: StakingGenesis,
    /// Each validator's stash, controller and session keys.
    pub session_keys: Vec<(AccountId32, AccountId32, SessionKeys)>,
}

/// What every endowed account gets at genesis.
pub const GENESIS_BALANCE: u64 = 1u64 << 60;

/// The session keys of an authority.
pub open spec fn keys_of(a: AuthorityKeys) -> (AccountId32, AccountId32, SessionKeys) {
    (a.0, a.0, SessionKeys { aura: a.2, grandpa: a.3, im_online: a.4, authority_discovery: a.5 })
}

/// Whether `g` is the initial storage of a test network with these
/// authorities, admin and endowed accounts.
pub open spec fn genesis_of(
    g: GenesisConfig,
    authorities: Seq<AuthorityKeys>,
    root_key: AccountId32,
    endowed: Seq<(AccountId32, u128)>,
) -> bool {
    &&& g.balances@ == endowed.map_values(|e: (AccountId32, u128)| (e.0, GENESIS_BALANCE))
    &&& g.sudo_key == root_key
    &&& g.staking.validator_count == authorities.len() as u32
    &&& g.staking.minimum_validator_count == authorities.len() as u32
    &&& g.staking.invulnerables@ == authorities.map_values(|a: AuthorityKeys| a.0)
    &&& g.staking.slash_reward_fraction == 100_000_000
    &&& g.session_keys@ == authorities.map_values(|a: AuthorityKeys| keys_of(a))
}

/// The initial storage of a test network: every endowed account gets
/// `GENESIS_BALANCE` whatever balance it comes with, the authorities are the
/// validators and invulnerables with their session keys, `root_key` is the
/// admin and a tenth of a slash rewards the reporter.
pub fn testnet_genesis(
    initial_authorities: Vec<AuthorityKeys>,
    root_key: AccountId32,
    endowed_accounts: Vec<(AccountId32, u128)>,
    _enable_println: bool,
) -> (g: GenesisConfig)
    ensures
        genesis_of(g, initial_authorities@, root_key, endowed_accounts@),
{
    let mut balances: Vec<(AccountId32, u64)> = Vec::new();
    let mut i: usize = 0;
    while i < endowed_accounts.len()
        invariant
            i <= endowed_accounts.len(),
            balances@ == endowed_accounts@.take(i as int).map_values(
                |e: (AccountId32, u128)| (e.0, GENESIS_BALANCE),
            ),
        decreases endowed_accounts.len() - i,
    {
        balances.push((endowed_accounts[i].0, GENESIS_BALANCE));
        proof {
            assert(endowed_accounts@.take(i as int + 1).map_values(
                |e: (AccountId32, u128)| (e.0, GENESIS_BALANCE),
            ) =~= endowed_accounts@.take(i as int).map_values(
                |e: (AccountId32, u128)| (e.0, GENESIS_BALANCE),
            ).push((endowed_accounts@[i as int].0, GENESIS_BALANCE)));
        }
        i = i + 1;
    }
    assert(endowed_accounts@.take(i as int) =~= endowed_accounts@);
    let mut invulnerables: Vec<AccountId32> = Vec::new();
    let mut keys: Vec<(AccountId32, AccountId32, SessionKeys)> = Vec::new();
    let mut k: usize = 0;
    while k < initial_authorities.len()
        invariant
            k <= initial_authorities.len(),
            invulnerables@ == initial_authorities@.take(k as int).map_values(|a: AuthorityKeys| a.0),
            keys@ == initial_authorities@.take(k as int).map_values(|a: AuthorityKeys| keys_of(a)),
        decreases initial_authorities.len() - k,
    {
        let a = initial_authorities[k];
        invulnerables.push(a.0);
        keys.push((a.0, a.0, session_keys(a.2, a.3, a.4, a.5)));
        proof {
            assert(initial_authorities@.take(k as int + 1).map_values(|a: AuthorityKeys| a.0)
                =~= initial_authorities@.take(k as int).map_values(|a: AuthorityKeys| a.0).push(a.0));
            assert(initial_authorities@.take(k as int + 1).map_values(|a: AuthorityKeys| keys_of(a))
                =~= initial_authorities@.take(k as int).map_values(|a: AuthorityKeys| keys_of(a)).push(
                keys_of(a),
            ));
        }
        k = k + 1;
    }
    assert(initial_authorities@.take(k as int) =~= initial_authorities@);
    let count = initial_authorities.len() as u32;
    GenesisConfig {
        balances,
        sudo_key: root_key,
        staking: StakingGenesis {
            validator_count: count,
            minimum_validator_count: count,
            invulnerables,
            slash_reward_fraction: perbill_from_percent(10),
        },
        session_keys: keys,
    }
}

/// Whether `list` holds an entry for account `a`.
pub open spec fn has_account(list: Seq<(AccountId32, u128)>, a: Seq<u8>) -> bool {
    exists|j: int| 0 <= j < list.len() && (#[trigger] list[j]).0@ == a
}

/// The entries of `defaults`, in order, whose account has no entry in
/// `additional`.
pub open spec fn kept(defaults: Seq<(AccountId32, u128)>, additional: Seq<(AccountId32, u128)>) -> Seq<
    (AccountId32, u128),
>
    decreases defaults.len(),
{
    if defaults.len() == 0 {
        Seq::empty()
    } else {
        let rest = kept(defaults.drop_last(), additional);
        if has_account(additional, defaults.last().0@) {
            rest
        } else {
            rest.push(defaults.last())
        }
    }
}

/// Whether two accounts are the same.
pub fn same_account(a: &AccountId32, b: &AccountId32) -> (r: bool)
    ensures
        r == (a@ == b@),
{
    let mut i: usize = 0;
    while i < 32
        invariant
            i <= 32,
            a@.len() == 32,
            b@.len() == 32,
            forall|j: int| 0 <= j < i ==> a@[j] == b@[j],
        decreases 32 - i,
    {
        if a[i] != b[i] {
            return false;
        }
        i = i + 1;
    }
    assert(a@ =~= b@);
    true
}

/// The endowed accounts: those of `additional` first, then those of
/// `defaults` whose account `additional` does not endow.
pub fn merge_endowed(defaults: &Vec<(AccountId32, u128)>, additional: Vec<(AccountId32, u128)>) -> (r: Vec<
    (AccountId32, u128),
>)
    ensures
        r@ == additional@ + kept(defaults@, additional@),
{
    let mut extra: Vec<(AccountId32, u128)> = Vec::new();
    let mut i: usize = 0;
    assert(defaults@.take(0) =~= Seq::<(AccountId32, u128)>::empty());
    while i < defaults.len()
        invariant
            i <= defaults.len(),
            extra@ == kept(defaults@.take(i as int), additional@),
        decreases defaults.len() - i,
    {
        let tup1 = defaults[i];
        let mut found = false;
        let mut j: usize = 0;
        while j < additional.len()
            invariant
                j <= additional.len(),
                found == (exists|m: int| 0 <= m < j && (#[trigger] additional@[m]).0@ == tup1.0@),
            decreases additional.len() - j,
        {
            if same_account(&tup1.0, &additional[j].0) {
                found = true;
            }
            j = j + 1;
        }
        assert(found == has_account(additional@, tup1.0@));
        assert(defaults@.take(i as int + 1).drop_last() =~= defaults@.take(i as int));
        if !found {
            extra.push(tup1);
        }
        i = i + 1;
    }
    assert(defaults@.take(i as int) =~= defaults@);
    let ghost add = additional@;
    let mut accounts = additional;
    let mut k: usize = 0;
    while k < extra.len()
        invariant
            k <= extra.len(),
            accounts@ == add + extra@.take(k as int),
        decreases extra.len() - k,
    {
        accounts.push(extra[k]);
        proof {
            assert(accounts@ =~= add + extra@.take(k as int + 1));
        }
        k = k + 1;
    }
    assert(extra@.take(k as int) =~= extra@);
    accounts
}

/// The accounts read from the balances file take precedence: the merged
/// list starts with them, and no built-in entry that follows is for one of
/// their accounts; every built-in account is endowed.
pub proof fn law_additional_accounts_take_precedence(
    defaults: Seq<(AccountId32, u128)>,
    additional: Seq<(AccountId32, u128)>,
)
    ensures
        (additional + kept(defaults, additional)).take(additional.len() as int) == additional,
        forall|i: int|
            additional.len() <= i < (additional + kept(defaults, additional)).len() ==> !has_account(
                additional,
                #[trigger] (additional + kept(defaults, additional))[i].0@,
            ),
        forall|d: int|
            0 <= d < defaults.len() ==> has_account(
                additional + kept(defaults, additional),
                #[trigger] defaults[d].0@,
            ),
    decreases defaults.len(),
{
    let merged = additional + kept(defaults, additional);
    assert(merged.take(additional.len() as int) =~= additional);
    lemma_kept_not_additional(defaults, additional);
    assert forall|i: int| additional.len() <= i < merged.len() implies !has_account(
        additional,
        #[trigger] merged[i].0@,
    ) by {
        assert(merged[i] == kept(defaults, additional)[i - additional.len()]);
    }
    assert forall|d: int| 0 <= d < defaults.len() implies has_account(merged, #[trigger] defaults[d].0@) by {
        lemma_default_endowed(defaults, additional, d);
        if has_account(additional, defaults[d].0@) {
            let j = choose|j: int| 0 <= j < additional.len() && (#[trigger] additional[j]).0@ == defaults[d].0@;
            assert(merged[j] == additional[j]);
        } else {
            let k = choose|k: int| 0 <= k < kept(defaults, additional).len() && (#[trigger] kept(defaults, additional)[k]).0@ == defaults[d].0@;
            assert(merged[additional.len() + k] == kept(defaults, additional)[k]);
        }
    }
}

/// No kept entry is for an account of `additional`.
proof fn lemma_kept_not_additional(defaults: Seq<(AccountId32, u128)>, additional: Seq<(AccountId32, u128)>)
    ensures
        forall|k: int|
            0 <= k < kept(defaults, additional).len() ==> !has_account(
                additional,
                #[trigger] kept(defaults, additional)[k].0@,
            ),
    decreases defaults.len(),
{
    if defaults.len() > 0 {
        lemma_kept_not_additional(defaults.drop_last(), additional);
        let rest = kept(defaults.drop_last(), additional);
        assert forall|k: int| 0 <= k < kept(defaults, additional).len() implies !has_account(
            additional,
            #[trigger] kept(defaults, additional)[k].0@,
        ) by {
            if k < rest.len() {
                assert(kept(defaults, additional)[k] == rest[k]);
            }
        }
    }
}

/// A default entry's account is either in `additional` or kept.
proof fn lemma_default_endowed(defaults: Seq<(AccountId32, u128)>, additional: Seq<(AccountId32, u128)>, d: int)
    requires
        0 <= d < defaults.len(),
    ensures
        has_account(additional, defaults[d].0@) || exists|k: int|
            0 <= k < kept(defaults, additional).len() && (#[trigger] kept(defaults, additional)[k]).0@
                == defaults[d].0@,
    decreases defaults.len(),
{
    let rest = kept(defaults.drop_last(), additional);
    if d < defaults.len() - 1 {
        lemma_default_endowed(defaults.drop_last(), additional, d);
        if !has_account(additional, defaults[d].0@) {
            let k = choose|k: int| 0 <= k < rest.len() && (#[trigger] rest[k]).0@ == defaults.drop_last()[d].0@;
            assert(kept(defaults, additional)[k] == rest[k]);
        }
    } else if !has_account(additional, defaults[d].0@) {
        assert(kept(defaults, additional)[rest.len() as int] == defaults[d]);
    }
}


/// The seeds of the development accounts.
pub open spec fn dev_seeds() -> Seq<Seq<char>> {
    seq![
        "Alice"@,
        "Bob"@,
        "Charlie"@,
        "Dave"@,
        "Eve"@,
        "Ferdie"@,
        "Alice//stash"@,
        "Bob//stash"@,
        "Charlie//stash"@,
        "Dave//stash"@,
    ]
}

/// Whether `accs` are the accounts of the development seeds, in order.
pub open spec fn dev_accounts_are(accs: Seq<AccountId32>) -> bool {
    &&& accs.len() == dev_seeds().len()
    &&& forall|i: int| 0 <= i < accs.len() ==> sr25519_dev_public(dev_seeds()[i]) == Some(#[trigger] accs[i]@)
}

/// Whether some development seed derives no account.
pub open spec fn some_dev_seed_fails() -> bool {
    exists|i: int| 0 <= i < dev_seeds().len() && (#[trigger] sr25519_dev_public(dev_seeds()[i])) is None
}

/// Each account endowed with `ENDOWMENT`.
pub open spec fn endowed(accs: Seq<AccountId32>) -> Seq<(AccountId32, u128)> {
    accs.map_values(|a: AccountId32| (a, ENDOWMENT))
}

/// Whether `e` is what `get_endowed_accounts_with_balance` gives for the
/// accounts read from the balances file.
pub open spec fn endowment_list(e: Seq<(AccountId32, u128)>, additional: Seq<(AccountId32, u128)>) -> bool {
    exists|accs: Seq<AccountId32>| #[trigger] dev_accounts_are(accs) && e == additional + kept(endowed(accs), additional)
}

/// Pushes the account of `seed` onto `accs`.
fn push_dev_account(accs: &mut Vec<AccountId32>, seed: &str) -> (ok: bool)
    ensures
        ok ==> exists|k: AccountId32| sr25519_dev_public(seed@) == Some(k@) && final(accs)@ == old(accs)@.push(k),
        !ok ==> sr25519_dev_public(seed@) is None,
{
    match get_account_id_from_seed(seed) {
        Some(k) => {
            accs.push(k);
            true
        },
        None => false,
    }
}

/// The accounts of the development seeds; `None` where a seed derives none.
pub fn dev_accounts() -> (r: Option<Vec<AccountId32>>)
    ensures
        match r {
            Some(v) => dev_accounts_are(v@),
            None => some_dev_seed_fails(),
        },
{
    let mut accs: Vec<AccountId32> = Vec::new();
    let seeds = [
        "Alice",
        "Bob",
        "Charlie",
        "Dave",
        "Eve",
        "Ferdie",
        "Alice//stash",
        "Bob//stash",
        "Charlie//stash",
        "Dave//stash",
    ];
    assert(seeds@ == seq![
        "Alice",
        "Bob",
        "Charlie",
        "Dave",
        "Eve",
        "Ferdie",
        "Alice//stash",
        "Bob//stash",
        "Charlie//stash",
        "Dave//stash",
    ]);
    let mut i: usize = 0;
    while i < 10
        invariant
            i <= 10,
            seeds@.len() == 10,
            forall|j: int| 0 <= j < 10 ==> (#[trigger] seeds@[j])@ == dev_seeds()[j],
            accs@.len() == i,
            forall|j: int| 0 <= j < i ==> sr25519_dev_public(dev_seeds()[j]) == Some(#[trigger] accs@[j]@),
        decreases 10 - i,
    {
        let ghost before = accs@;
        if !push_dev_account(&mut accs, seeds[i]) {
            assert(sr25519_dev_public(dev_seeds()[i as int]) is None);
            return None;
        }
        proof {
            assert forall|j: int| 0 <= j < i + 1 implies sr25519_dev_public(dev_seeds()[j]) == Some(
                #[trigger] accs@[j]@,
            ) by {
                if j < i {
                    assert(accs@[j] == before[j]);
                }
            }
        }
        i = i + 1;
    }
    Some(accs)
}

/// The endowed accounts of a development chain: those read from the
/// balances file first, then each development account the file does not
/// endow, with `ENDOWMENT`; `None` where a development seed derives no
/// account.
pub fn get_endowed_accounts_with_balance(additional: Vec<(AccountId32, u128)>) -> (r: Option<
    Vec<(AccountId32, u128)>,
>)
    ensures
        match r {
            Some(v) => endowment_list(v@, additional@),
            None => some_dev_seed_fails(),
        },
{
    let accounts = match dev_accounts() {
        Some(v) => v,
        None => {
            return None;
        },
    };
    let mut accounts_with_balance: Vec<(AccountId32, u128)> = Vec::new();
    let mut i: usize = 0;
    while i < accounts.len()
        invariant
            i <= accounts.len(),
            accounts_with_balance@ == endowed(accounts@.take(i as int)),
        decreases accounts.len() - i,
    {
        accounts_with_balance.push((accounts[i], ENDOWMENT));
        proof {
            assert(endowed(accounts@.take(i as int + 1)) =~= endowed(accounts@.take(i as int)).push(
                (accounts@[i as int], ENDOWMENT),
            ));
        }
        i = i + 1;
    }
    assert(accounts@.take(i as int) =~= accounts@);
    let ghost add = additional@;
    let merged = merge_endowed(&accounts_with_balance, additional);
    assert(dev_accounts_are(accounts@));
    Some(merged)
}

/// Whether a chain is for development or a local test network.
#[derive(Clone, Copy, Debug, PartialEq, Eq, Structural)]
pub enum ChainType {
    Development,
    Local,
}

/// What a chain specification is made of: its name, id, type and genesis.
pub struct ChainSpecParts {
    pub name: String,
    pub id: String,
    pub chain_type: ChainType,
    pub genesis: GenesisConfig,
}

/// Whether `g` is the genesis of a chain whose only authority and admin
/// derive from "Alice", endowed as `get_endowed_accounts_with_balance`
/// endows for the accounts read from the balances file.
pub open spec fn alice_genesis(g: GenesisConfig, additional: Seq<(AccountId32, u128)>) -> bool {
    exists|a: AuthorityKeys, e: Seq<(AccountId32, u128)>|
        {
            &&& sr25519_dev_public("Alice"@) == Some(a.0@)
            &&& ed25519_dev_public("Alice"@) == Some(a.3@)
            &&& a.1 == a.0 && a.2 == a.0 && a.4 == a.0 && a.5 == a.0
            &&& endowment_list(e, additional)
            &&& #[trigger] genesis_of(g, seq![a], a.0, e)
        }
}

/// Builds the genesis of a chain with "Alice" as its authority and admin.
fn alice_chain(additional: Vec<(AccountId32, u128)>) -> (r: Option<GenesisConfig>)
    ensures
        match r {
            Some(g) => alice_genesis(g, additional@),
            None => some_dev_seed_fails() || sr25519_dev_public("Alice"@) is None
                || ed25519_dev_public("Alice"@) is None,
        },
{
    let keys = match authority_keys_from_seed("Alice") {
        Some(k) => k,
        None => {
            return None;
        },
    };
    let root = match get_account_id_from_seed("Alice") {
        Some(k) => k,
        None => {
            return None;
        },
    };
    let ghost add = additional@;
    let endowed_accounts = match get_endowed_accounts_with_balance(additional) {
        Some(v) => v,
        None => {
            return None;
        },
    };
    let ghost e = endowed_accounts@;
    let mut authorities: Vec<AuthorityKeys> = Vec::new();
    authorities.push(keys);
    assert(authorities@ =~= seq![keys]);
    let g = testnet_genesis(authorities, root, endowed_accounts, true);
    assert(root@ == keys.0@);
    assert(root == keys.0) by {
        assert(root@ =~= keys.0@);
    }
    assert(genesis_of(g, seq![keys], keys.0, e));
    Some(g)
}

/// The specification of the development chain.
pub fn development_config(additional: Vec<(AccountId32, u128)>) -> (r: Option<ChainSpecParts>)
    ensures
        match r {
            Some(c) => c.name@ == "Development"@ && c.id@ == "dev"@ && c.chain_type == ChainType::Development
                && alice_genesis(c.genesis, additional@),
            None => some_dev_seed_fails() || sr25519_dev_public("Alice"@) is None
                || ed25519_dev_public("Alice"@) is None,
        },
{
    let genesis = match alice_chain(additional) {
        Some(g) => g,
        None => {
            return None;
        },
    };
    Some(ChainSpecParts {
        name: "Development".to_owned(),
        id: "dev".to_owned(),
        chain_type: ChainType::Development,
        genesis,
    })
}

/// The specification of the local test network.
pub fn local_testnet_config(additional: Vec<(AccountId32, u128)>) -> (r: Option<ChainSpecParts>)
    ensures
        match r {
            Some(c) => c.name@ == "Local Testnet"@ && c.id@ == "local_testnet"@ && c.chain_type
                == ChainType::Local && alice_genesis(c.genesis, additional@),
            None => some_dev_seed_fails() || sr25519_dev_public("Alice"@) is None
                || ed25519_dev_public("Alice"@) is None,
        },
{
    let genesis = match alice_chain(additional) {
        Some(g) => g,
        None => {
            return None;
        },
    };
    Some(ChainSpecParts {
        name: "Local Testnet".to_owned(),
        id: "local_testnet".to_owned(),
        chain_type: ChainType::Local,
        genesis,
    })
}
} // verus!
