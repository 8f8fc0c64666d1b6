use std::collections::BTreeMap;

use one_time_keys::{
    Curve25519PublicKey, Curve25519SecretKey, KeyId, OneTimeKeys, OneTimeKeysPickle,
};

fn secret(seed: u8) -> Curve25519SecretKey {
    let mut bytes = [seed; 32];
    bytes[0] = seed.wrapping_mul(8);
    Curve25519SecretKey::from_bytes(bytes)
}

fn public(seed: u8) -> Curve25519PublicKey {
    secret(seed).public_key()
}

#[test]
fn pickle_holds_counter_private_and_unpublished_keys() {
    let mut store = OneTimeKeys::new();
    store.generate(3);
    store.mark_as_published();
    store.generate(2);
    let secrets: Vec<(u64, [u8; 32])> =
        store.private_keys().iter().map(|(id, k)| (*id, k.to_bytes())).collect();
    let unpublished: Vec<(u64, Curve25519PublicKey)> =
        store.unpublished_public_keys().iter().map(|(id, k)| (*id, *k)).collect();

    let pickle = OneTimeKeysPickle::from(store);

    assert_eq!(pickle.key_id, 5);
    let pickled: Vec<(u64, [u8; 32])> =
        pickle.private_keys.iter().map(|(id, k)| (*id, k.to_bytes())).collect();
    assert_eq!(pickled, secrets);
    let public_keys: Vec<(u64, Curve25519PublicKey)> =
        pickle.public_keys.iter().map(|(id, k)| (*id, *k)).collect();
    assert_eq!(public_keys, unpublished);
    assert_eq!(pickle.public_keys.keys().copied().collect::<Vec<u64>>(), vec![3, 4]);
}

#[test]
fn round_trip_keeps_unpublished_keys_resolvable() {
    let mut store = OneTimeKeys::new();
    store.generate(4);
    store.mark_as_published();
    store.generate(3);
    let unpublished: Vec<(u64, Curve25519PublicKey)> =
        store.unpublished_public_keys().iter().map(|(id, k)| (*id, *k)).collect();
    let secrets: BTreeMap<u64, [u8; 32]> =
        store.private_keys().iter().map(|(id, k)| (*id, k.to_bytes())).collect();
    assert_eq!(unpublished.len(), 3);

    let restored = OneTimeKeys::from(OneTimeKeysPickle::from(store));

    assert_eq!(restored.next_key_id(), KeyId(7));
    assert_eq!(restored.private_keys().len(), 7);
    assert_eq!(restored.oldest_key_id(), Some(KeyId(0)));
    for (id, public) in &unpublished {
        let found = restored.get_secret_key(public).expect("an unpublished key resolves");
        assert_eq!(Some(&found.to_bytes()), secrets.get(id));
        assert_eq!(restored.unpublished_public_keys().get(id), Some(public));
        assert_eq!(restored.reverse_public_keys().get(public), Some(*id));
    }
}

#[test]
fn round_trip_leaves_published_keys_out_of_the_index() {
    let mut store = OneTimeKeys::new();
    store.generate(4);
    store.mark_as_published();
    store.generate(3);
    let published: Vec<Curve25519PublicKey> =
        (0u64..4).map(|id| store.private_keys().get(&id).expect("held").public_key()).collect();
    for public in &published {
        assert!(store.get_secret_key(public).is_some());
    }

    let mut restored = OneTimeKeys::from(OneTimeKeysPickle::from(store));

    assert_eq!(restored.private_keys().len(), 7);
    assert_eq!(restored.reverse_public_keys().len(), 3);
    for public in &published {
        assert!(restored.get_secret_key(public).is_none());
        assert!(restored.remove_secret_key(public).is_none());
    }
    assert_eq!(restored.private_keys().len(), 7);
}

#[test]
fn restored_store_goes_on_generating() {
    let mut store = OneTimeKeys::new();
    store.generate(100);
    let mut restored = OneTimeKeys::from(OneTimeKeysPickle::from(store));
    restored.generate(5);
    assert_eq!(restored.next_key_id(), KeyId(105));
    assert_eq!(restored.private_keys().len(), 100);
    assert_eq!(restored.oldest_key_id(), Some(KeyId(5)));
    assert_eq!(restored.reverse_public_keys().len(), 100);
}

#[test]
fn store_from_pickle_indexes_the_public_keys_it_is_given() {
    let mut public_keys = BTreeMap::new();
    public_keys.insert(4, public(1));
    public_keys.insert(6, public(2));
    let mut private_keys = BTreeMap::new();
    private_keys.insert(2, secret(3));
    private_keys.insert(4, secret(1));
    private_keys.insert(6, secret(2));
    let pickle = OneTimeKeysPickle { key_id: 9, public_keys, private_keys };

    let store = OneTimeKeys::from(pickle);

    assert_eq!(store.next_key_id(), KeyId(9));
    assert_eq!(store.private_keys().keys().copied().collect::<Vec<u64>>(), vec![2, 4, 6]);
    assert_eq!(store.unpublished_public_keys().keys().copied().collect::<Vec<u64>>(), vec![4, 6]);
    assert_eq!(store.reverse_public_keys().len(), 2);
    assert_eq!(store.reverse_public_keys().get(&public(1)), Some(4));
    assert_eq!(store.reverse_public_keys().get(&public(2)), Some(6));
    assert_eq!(store.reverse_public_keys().get(&public(3)), None);
    let found = store.get_secret_key(&public(2)).map(|k| k.to_bytes());
    assert_eq!(found, Some(secret(2).to_bytes()));
    assert!(store.get_secret_key(&public(3)).is_none());
}

#[test]
fn repeated_public_key_is_indexed_under_its_largest_id() {
    let mut public_keys = BTreeMap::new();
    public_keys.insert(1, public(1));
    public_keys.insert(8, public(1));
    public_keys.insert(5, public(1));
    public_keys.insert(3, public(2));
    let mut private_keys = BTreeMap::new();
    private_keys.insert(8, secret(1));
    let pickle = OneTimeKeysPickle { key_id: 9, public_keys, private_keys };

    let store = OneTimeKeys::from(pickle);

    assert_eq!(store.reverse_public_keys().len(), 2);
    assert_eq!(store.reverse_public_keys().get(&public(1)), Some(8));
    assert_eq!(store.reverse_public_keys().get(&public(2)), Some(3));
    assert!(store.get_secret_key(&public(1)).is_some());
    assert!(store.get_secret_key(&public(2)).is_none());
}

#[test]
fn empty_pickle_gives_an_empty_store() {
    let pickle = OneTimeKeysPickle::from(OneTimeKeys::new());
    assert_eq!(pickle.key_id, 0);
    assert!(pickle.public_keys.is_empty());
    assert!(pickle.private_keys.is_empty());
    let store = OneTimeKeys::from(pickle);
    assert_eq!(store.next_key_id(), KeyId(0));
    assert!(store.private_keys().is_empty());
    assert!(store.reverse_public_keys().is_empty());
}

#[test]
fn zeroize_wipes_every_private_key() {
    let mut store = OneTimeKeys::new();
    store.generate(5);
    store.mark_as_published();
    store.generate(2);
    let mut pickle = OneTimeKeysPickle::from(store);
    let public_keys: Vec<(u64, Curve25519PublicKey)> =
        pickle.public_keys.iter().map(|(id, k)| (*id, *k)).collect();

    pickle.zeroize();

    assert_eq!(pickle.key_id, 7);
    assert_eq!(
        pickle.private_keys.keys().copied().collect::<Vec<u64>>(),
        (0..7).collect::<Vec<u64>>()
    );
    for key in pickle.private_keys.values() {
        assert_eq!(key.to_bytes(), [0u8; 32]);
    }
    let after: Vec<(u64, Curve25519PublicKey)> =
        pickle.public_keys.iter().map(|(id, k)| (*id, *k)).collect();
    assert_eq!(after, public_keys);
}

#[test]
fn pickle_clone_is_independent() {
    let mut store = OneTimeKeys::new();
    store.generate(2);
    let mut pickle = OneTimeKeysPickle::from(store);
    let copy = pickle.clone();
    pickle.zeroize();
    assert_eq!(copy.key_id, 2);
    assert_eq!(copy.private_keys.len(), 2);
    for key in copy.private_keys.values() {
        assert_ne!(key.to_bytes(), [0u8; 32]);
    }
    assert_eq!(copy.public_keys.len(), 2);
}
