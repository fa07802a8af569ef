use sp_core::{Blake2Hasher, Hasher};
use xcavate::common::Origin;
use xcavate::user::{Error, Event, Pallet};

/// The Blake2-256 hash of a SCALE-encoded `(u64, Vec<u8>)` with a name
/// shorter than 64 bytes, encoded by hand.
fn expected_id(owner: u64, name: &[u8]) -> [u8; 32] {
    let mut bytes = owner.to_le_bytes().to_vec();
    bytes.push((name.len() as u8) << 2);
    bytes.extend_from_slice(name);
    Blake2Hasher::hash(&bytes).0
}

#[test]
fn generated_profile_id_is_the_hash_of_owner_and_name() {
    let mut p = Pallet::new(32);
    let id = p.generate_profile(1, b"alice".to_vec()).unwrap();
    assert_eq!(id, expected_id(1, b"alice"));
    assert_ne!(id, expected_id(2, b"alice"));
    assert_eq!(p.profile_count(), 1);
    assert_eq!(p.profiles(1).unwrap().name, b"alice".to_vec());
}

#[test]
fn create_profile_works() {
    let mut p = Pallet::new(32);
    assert_eq!(p.create_profile(Origin::Signed(3), b"carol".to_vec()), Ok(()));
    assert_eq!(p.profiles(3).unwrap().owner, 3);
    assert_eq!(p.profile_count(), 1);
    assert_eq!(*p.events().last().unwrap(), Event::ProfileCreated { who: 3 });
}

#[test]
fn one_profile_per_account() {
    let mut p = Pallet::new(32);
    assert_eq!(p.create_profile(Origin::Signed(3), b"carol".to_vec()), Ok(()));
    assert_eq!(p.create_profile(Origin::Signed(3), b"other".to_vec()), Err(Error::ProfileAlreadyCreated));
    assert_eq!(p.profiles(3).unwrap().name, b"carol".to_vec());
    assert_eq!(p.profile_count(), 1);
}

#[test]
fn create_profile_refusals() {
    let mut p = Pallet::new(4);
    assert_eq!(p.create_profile(Origin::Root, b"x".to_vec()), Err(Error::BadOrigin));
    assert_eq!(p.create_profile(Origin::Signed(1), b"toolong".to_vec()), Err(Error::Badmetadata));
    assert_eq!(p.profiles(1), None);
    assert_eq!(p.create_profile(Origin::Signed(1), b"four".to_vec()), Ok(()));
}
