use vstd::prelude::*;

verus! {

/// Account identifiers.
pub type AccountId = u64;

/// Amounts of a fungible asset or of the native currency.
pub type Balance = u128;

/// Block numbers.
pub type BlockNumber = u64;

/// The key of a storage map indexed by two integers.
pub open spec fn spec_pair_key(a: u64, b: u64) -> u128 {
    ((a as int) * 0x1_0000_0000_0000_0000 + (b as int)) as u128
}

/// The pair key never leaves the range of `u128`.
proof fn lemma_pair_key_fits(a: u64, b: u64)
    ensures
        0 <= (a as int) * 0x1_0000_0000_0000_0000 + (b as int) <= u128::MAX,
{
    assert(0 <= (a as int) * 0x1_0000_0000_0000_0000 + (b as int) <= u128::MAX)
        by (nonlinear_arith)
        requires a <= u64::MAX, b <= u64::MAX;
}

/// Two different pairs never share a key.
pub proof fn lemma_pair_key_injective(a1: u64, b1: u64, a2: u64, b2: u64)
    ensures
        spec_pair_key(a1, b1) == spec_pair_key(a2, b2) <==> (a1 == a2 && b1 == b2),
{
    lemma_pair_key_fits(a1, b1);
    lemma_pair_key_fits(a2, b2);
    let x1 = (a1 as int) * 0x1_0000_0000_0000_0000 + (b1 as int);
    let x2 = (a2 as int) * 0x1_0000_0000_0000_0000 + (b2 as int);
    assert(x1 == x2 ==> (a1 == a2 && b1 == b2)) by (nonlinear_arith)
        requires
            x1 == (a1 as int) * 0x1_0000_0000_0000_0000 + (b1 as int),
            x2 == (a2 as int) * 0x1_0000_0000_0000_0000 + (b2 as int),
            0 <= b1 < 0x1_0000_0000_0000_0000,
            0 <= b2 < 0x1_0000_0000_0000_0000,
    ;
}

/// Combines two integers into one storage key.
#[verifier::when_used_as_spec(spec_pair_key)]
pub fn pair_key(a: u64, b: u64) -> (k: u128)
    ensures
        k == spec_pair_key(a, b),
{
    proof {
        lemma_pair_key_fits(a, b);
    }
    (a as u128) * 0x1_0000_0000_0000_0000u128 + (b as u128)
}

/// Who dispatches a call: the privileged root origin or a signed account.
#[derive(Clone, Copy, Debug, PartialEq, Eq, Structural)]
pub enum Origin {
    Root,
    Signed(AccountId),
}

/// The signer of a signed origin.
pub fn ensure_signed(origin: Origin) -> (r: Option<AccountId>)
    ensures
        r == (match origin {
            Origin::Signed(a) => Some(a),
            Origin::Root => None::<AccountId>,
        }),
{
    match origin {
        Origin::Signed(a) => Some(a),
        Origin::Root => None,
    }
}

/// Whether the origin is the privileged root origin.
pub fn is_root(origin: Origin) -> (r: bool)
    ensures
        r == (origin is Root),
{
    match origin {
        Origin::Root => true,
        Origin::Signed(_) => false,
    }
}

/// Whether `v` holds `x`.
pub fn vec_contains(v: &Vec<AccountId>, x: AccountId) -> (r: bool)
    ensures
        r == v@.contains(x),
{
    let mut i: usize = 0;
    while i < v.len()
        invariant
            i <= v.len(),
            forall|j: int| 0 <= j < i ==> v@[j] != x,
        decreases v.len() - i,
    {
        if v[i] == x {
            return true;
        }
        i = i + 1;
    }
    false
}

/// The first position of `x` in `v`.
pub fn vec_position(v: &Vec<AccountId>, x: AccountId) -> (r: Option<usize>)
    ensures
        match r {
            Some(i) => i < v@.len() && v@[i as int] == x && forall|j: int|
                0 <= j < i ==> v@[j] != x,
            None => !v@.contains(x),
        },
{
    let mut i: usize = 0;
    while i < v.len()
        invariant
            i <= v.len(),
            forall|j: int| 0 <= j < i ==> v@[j] != x,
        decreases v.len() - i,
    {
        if v[i] == x {
            return Some(i);
        }
        i = i + 1;
    }
    None
}

/// A map of stored values read through their views.
pub open spec fn view_map<K, V: View>(m: Map<K, V>) -> Map<K, V::V> {
    Map::new(|k: K| m.contains_key(k), |k: K| m[k]@)
}

/// A storage map of vectors read as a map of sequences.
pub open spec fn seq_map<K, V>(m: Map<K, Vec<V>>) -> Map<K, Seq<V>> {
    Map::new(|k: K| m.contains_key(k), |k: K| m[k]@)
}

/// Storing a vector is storing its sequence.
pub proof fn lemma_seq_map_insert<K, V>(m: Map<K, Vec<V>>, k: K, v: Vec<V>)
    ensures
        seq_map(m.insert(k, v)) == seq_map(m).insert(k, v@),
{
    assert(seq_map(m.insert(k, v)) =~= seq_map(m).insert(k, v@));
}

/// Removing a vector is removing its sequence.
pub proof fn lemma_seq_map_remove<K, V>(m: Map<K, Vec<V>>, k: K)
    ensures
        seq_map(m.remove(k)) == seq_map(m).remove(k),
{
    assert(seq_map(m.remove(k)) =~= seq_map(m).remove(k));
}

/// The value stored under `k`, or `d` where nothing is stored: a storage map
/// read with a default value.
pub open spec fn get_or<K, V>(m: Map<K, V>, k: K, d: V) -> V {
    if m.contains_key(k) {
        m[k]
    } else {
        d
    }
}

} // verus!
