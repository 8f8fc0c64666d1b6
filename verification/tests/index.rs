use std::collections::BTreeMap;

use one_time_keys::ordered::{ascending_keys, first_key};
use one_time_keys::{Curve25519PublicKey, ReverseIndex};

fn public(tag: u8) -> Curve25519PublicKey {
    let mut bytes = [0u8; 32];
    bytes[31] = tag;
    Curve25519PublicKey::from_bytes(bytes)
}

#[test]
fn new_index_is_empty() {
    let index = ReverseIndex::new();
    assert_eq!(index.len(), 0);
    assert!(index.is_empty());
    assert_eq!(index.get(&public(1)), None);
}

#[test]
fn index_finds_what_was_inserted() {
    let mut index = ReverseIndex::new();
    index.insert(public(1), 10);
    index.insert(public(2), 20);
    assert_eq!(index.len(), 2);
    assert!(!index.is_empty());
    assert_eq!(index.get(&public(1)), Some(10));
    assert_eq!(index.get(&public(2)), Some(20));
    assert_eq!(index.get(&public(3)), None);
}

#[test]
fn index_replaces_the_entry_of_a_known_key() {
    let mut index = ReverseIndex::new();
    index.insert(public(1), 10);
    index.insert(public(2), 20);
    index.insert(public(1), 30);
    assert_eq!(index.len(), 2);
    assert_eq!(index.get(&public(1)), Some(30));
    assert_eq!(index.get(&public(2)), Some(20));
}

#[test]
fn index_removes_one_entry() {
    let mut index = ReverseIndex::new();
    index.insert(public(1), 10);
    index.insert(public(2), 20);
    index.insert(public(3), 30);
    assert_eq!(index.remove(&public(2)), Some(20));
    assert_eq!(index.len(), 2);
    assert_eq!(index.get(&public(2)), None);
    assert_eq!(index.get(&public(1)), Some(10));
    assert_eq!(index.get(&public(3)), Some(30));
    assert_eq!(index.remove(&public(2)), None);
    assert_eq!(index.len(), 2);
}

#[test]
fn index_clone_is_independent() {
    let mut index = ReverseIndex::new();
    index.insert(public(1), 10);
    let copy = index.clone();
    index.remove(&public(1));
    assert_eq!(copy.get(&public(1)), Some(10));
    assert_eq!(copy.len(), 1);
    assert_eq!(index.len(), 0);
}

#[test]
fn first_key_is_the_smallest() {
    let mut map: BTreeMap<u64, u8> = BTreeMap::new();
    assert_eq!(first_key(&map), None);
    map.insert(7, 0);
    map.insert(3, 0);
    map.insert(u64::MAX, 0);
    assert_eq!(first_key(&map), Some(3));
    map.remove(&3);
    assert_eq!(first_key(&map), Some(7));
}

#[test]
fn ascending_keys_lists_every_key_once() {
    let mut map: BTreeMap<u64, u8> = BTreeMap::new();
    assert_eq!(ascending_keys(&map), Vec::<u64>::new());
    map.insert(9, 0);
    map.insert(2, 0);
    map.insert(5, 0);
    map.insert(2, 1);
    assert_eq!(ascending_keys(&map), vec![2, 5, 9]);
}
