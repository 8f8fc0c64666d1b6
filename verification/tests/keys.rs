use one_time_keys::{Curve25519PublicKey, Curve25519SecretKey, KeyId};

const ALICE_SECRET: [u8; 32] = [
    0x77, 0x07, 0x6d, 0x0a, 0x73, 0x18, 0xa5, 0x7d, 0x3c, 0x16, 0xc1, 0x72, 0x51, 0xb2, 0x66, 0x45,
    0xdf, 0x4c, 0x2f, 0x87, 0xeb, 0xc0, 0x99, 0x2a, 0xb1, 0x77, 0xfb, 0xa5, 0x1d, 0xb9, 0x2c, 0x2a,
];

const ALICE_PUBLIC: [u8; 32] = [
    0x85, 0x20, 0xf0, 0x09, 0x89, 0x30, 0xa7, 0x54, 0x74, 0x8b, 0x7d, 0xdc, 0xb4, 0x3e, 0xf7, 0x5a,
    0x0d, 0xbf, 0x3a, 0x0d, 0x26, 0x38, 0x1a, 0xf4, 0xeb, 0xa4, 0xa9, 0x8e, 0xaa, 0x9b, 0x4e, 0x6a,
];

const BOB_SECRET: [u8; 32] = [
    0x5d, 0xab, 0x08, 0x7e, 0x62, 0x4a, 0x8a, 0x4b, 0x79, 0xe1, 0x7f, 0x8b, 0x83, 0x80, 0x0e, 0xe6,
    0x6f, 0x3b, 0xb1, 0x29, 0x26, 0x18, 0xb6, 0xfd, 0x1c, 0x2f, 0x8b, 0x27, 0xff, 0x88, 0xe0, 0xeb,
];

const BOB_PUBLIC: [u8; 32] = [
    0xde, 0x9e, 0xdb, 0x7d, 0x7b, 0x7d, 0xc1, 0xb4, 0xd3, 0x5b, 0x61, 0xc2, 0xec, 0xe4, 0x35, 0x37,
    0x3f, 0x83, 0x43, 0xc8, 0x5b, 0x78, 0x67, 0x4d, 0xad, 0xfc, 0x7e, 0x14, 0x6f, 0x88, 0x2b, 0x4f,
];

#[test]
fn secret_key_round_trips_its_bytes() {
    let key = Curve25519SecretKey::from_bytes([7u8; 32]);
    assert_eq!(key.to_bytes(), [7u8; 32]);
}

#[test]
fn public_key_round_trips_its_bytes() {
    let key = Curve25519PublicKey::from_bytes(ALICE_PUBLIC);
    assert_eq!(key.to_bytes(), ALICE_PUBLIC);
}

#[test]
fn public_key_of_known_secrets() {
    let alice = Curve25519SecretKey::from_bytes(ALICE_SECRET);
    assert_eq!(alice.public_key().to_bytes(), ALICE_PUBLIC);
    let bob = Curve25519SecretKey::from_bytes(BOB_SECRET);
    assert_eq!(bob.public_key().to_bytes(), BOB_PUBLIC);
}

#[test]
fn public_key_is_not_the_secret() {
    let key = Curve25519SecretKey::from_bytes(ALICE_SECRET);
    assert_ne!(key.public_key().to_bytes(), key.to_bytes());
}

#[test]
fn public_key_depends_on_the_secret_alone() {
    let first = Curve25519SecretKey::from_bytes(BOB_SECRET);
    let second = Curve25519SecretKey::from_bytes(BOB_SECRET);
    assert_eq!(first.public_key(), second.public_key());
}

#[test]
fn secrets_that_differ_in_masked_bits_share_a_public_key() {
    let mut low = [0x42u8; 32];
    let mut high = [0x42u8; 32];
    low[0] = 0x40;
    high[0] = 0x47;
    let low = Curve25519SecretKey::from_bytes(low);
    let high = Curve25519SecretKey::from_bytes(high);
    assert_ne!(low.to_bytes(), high.to_bytes());
    assert_eq!(low.public_key(), high.public_key());
}

#[test]
fn public_keys_compare_by_their_bytes() {
    let alice = Curve25519PublicKey::from_bytes(ALICE_PUBLIC);
    let again = Curve25519PublicKey::from_bytes(ALICE_PUBLIC);
    let bob = Curve25519PublicKey::from_bytes(BOB_PUBLIC);
    assert_eq!(alice, again);
    assert_ne!(alice, bob);
    let mut last_differs = ALICE_PUBLIC;
    last_differs[31] ^= 1;
    assert_ne!(alice, Curve25519PublicKey::from_bytes(last_differs));
}

#[test]
fn zeroize_overwrites_the_secret() {
    let mut key = Curve25519SecretKey::from_bytes(ALICE_SECRET);
    key.zeroize();
    assert_eq!(key.to_bytes(), [0u8; 32]);
}

#[test]
fn clone_copies_the_secret() {
    let key = Curve25519SecretKey::from_bytes(ALICE_SECRET);
    let mut copy = key.clone();
    assert_eq!(copy.to_bytes(), ALICE_SECRET);
    copy.zeroize();
    assert_eq!(key.to_bytes(), ALICE_SECRET);
}

#[test]
fn key_ids_order_by_their_number() {
    assert!(KeyId(3) < KeyId(10));
    assert_eq!(KeyId(5), KeyId(5));
    assert_ne!(KeyId(5), KeyId(6));
    assert_eq!(KeyId(9).0, 9);
}
