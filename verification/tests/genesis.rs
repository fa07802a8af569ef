use xcavate::genesis::{
    authority_keys_from_seed, development_config, dev_accounts, get_account_id_from_seed, get_endowed_accounts_with_balance,
    get_from_seed, local_testnet_config, merge_endowed, same_account, session_keys, testnet_genesis, AccountId32,
    ChainType, KeyScheme, ENDOWMENT, GENESIS_BALANCE,
};

fn hex32(s: &str) -> AccountId32 {
    let mut out = [0u8; 32];
    for i in 0..32 {
        out[i] = u8::from_str_radix(&s[2 * i..2 * i + 2], 16).unwrap();
    }
    out
}

fn alice() -> AccountId32 {
    hex32("d43593c715fdd31c61141abd04a99fd6822c8558854ccde39a5684e7a56da27d")
}

fn alice_ed() -> AccountId32 {
    hex32("88dc3417d5058ec4b4503e0c12ea1a0a89be200fe98922423d4334014fa6b0ee")
}

fn bob() -> AccountId32 {
    hex32("8eaf04151687736326c9fea17e25fc5287613693c912909cb226aa4794f26a48")
}

#[test]
fn seed_derives_the_development_keys() {
    assert_eq!(get_account_id_from_seed("Alice"), Some(alice()));
    assert_eq!(get_from_seed(KeyScheme::Sr25519, "Bob"), Some(bob()));
    assert_eq!(get_from_seed(KeyScheme::Ed25519, "Alice"), Some(alice_ed()));
    assert_ne!(get_account_id_from_seed("Alice//stash"), Some(alice()));
}

#[test]
fn authority_keys_of_alice() {
    let k = authority_keys_from_seed("Alice").unwrap();
    assert_eq!(k.0, alice());
    assert_eq!(k.1, alice());
    assert_eq!(k.2, alice());
    assert_eq!(k.3, alice_ed());
    assert_eq!(k.4, alice());
    assert_eq!(k.5, alice());
}

#[test]
fn session_keys_keep_their_order() {
    let k = session_keys([1; 32], [2; 32], [3; 32], [4; 32]);
    assert_eq!((k.aura, k.grandpa, k.im_online, k.authority_discovery), ([1; 32], [2; 32], [3; 32], [4; 32]));
}

#[test]
fn testnet_genesis_endows_every_account_alike() {
    let keys = authority_keys_from_seed("Alice").unwrap();
    let g = testnet_genesis(vec![keys], alice(), vec![([7; 32], 5), ([8; 32], 6)], true);
    assert_eq!(g.balances, vec![([7; 32], GENESIS_BALANCE), ([8; 32], GENESIS_BALANCE)]);
    assert_eq!(g.sudo_key, alice());
    assert_eq!(g.staking.validator_count, 1);
    assert_eq!(g.staking.minimum_validator_count, 1);
    assert_eq!(g.staking.invulnerables, vec![alice()]);
    assert_eq!(g.staking.slash_reward_fraction, 100_000_000);
    assert_eq!(g.session_keys.len(), 1);
    assert_eq!(g.session_keys[0].0, alice());
    assert_eq!(g.session_keys[0].2.grandpa, alice_ed());
}

#[test]
fn additional_accounts_take_precedence() {
    let defaults = vec![([1; 32], 10), ([2; 32], 20), ([3; 32], 30)];
    let merged = merge_endowed(&defaults, vec![([2; 32], 99), ([9; 32], 1)]);
    assert_eq!(merged, vec![([2; 32], 99), ([9; 32], 1), ([1; 32], 10), ([3; 32], 30)]);
    assert_eq!(merge_endowed(&defaults, vec![]), defaults);
    assert!(same_account(&[5; 32], &[5; 32]));
    assert!(!same_account(&[5; 32], &[6; 32]));
}

#[test]
fn development_accounts_are_endowed() {
    let accs = dev_accounts().unwrap();
    assert_eq!(accs.len(), 10);
    assert_eq!(accs[0], alice());
    assert_eq!(accs[1], bob());
    let endowed = get_endowed_accounts_with_balance(vec![(bob(), 5)]).unwrap();
    assert_eq!(endowed.len(), 10);
    assert_eq!(endowed[0], (bob(), 5));
    assert_eq!(endowed[1], (alice(), ENDOWMENT));
    assert_eq!(ENDOWMENT, 1_000_000_000_000_000_000_000);
}

#[test]
fn chain_specs_of_alice() {
    let dev = development_config(vec![]).unwrap();
    assert_eq!(dev.name, "Development");
    assert_eq!(dev.id, "dev");
    assert_eq!(dev.chain_type, ChainType::Development);
    assert_eq!(dev.genesis.sudo_key, alice());
    assert_eq!(dev.genesis.balances.len(), 10);
    let local = local_testnet_config(vec![([42; 32], 1)]).unwrap();
    assert_eq!(local.name, "Local Testnet");
    assert_eq!(local.id, "local_testnet");
    assert_eq!(local.chain_type, ChainType::Local);
    assert_eq!(local.genesis.balances.len(), 11);
    assert_eq!(local.genesis.balances[0], ([42; 32], GENESIS_BALANCE));
}
