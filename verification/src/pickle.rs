//! The saved form of a one-time key store.

use std::collections::BTreeMap;
use vstd::prelude::*;
use crate::keys::{Curve25519PublicKey, Curve25519SecretKey};
use crate::model::OneTimeKeysPickleView;
use crate::ordered::ascending_keys;
use crate::primitives::zeroed;

verus! {

/// The bytes of each secret key in `keys`.
pub open spec fn secret_bytes(keys: Map<u64, Curve25519SecretKey>) -> Map<u64, Seq<u8>> {
    keys.map_values(|key: Curve25519SecretKey| key@)
}

/// The bytes of each public key in `keys`.
pub open spec fn public_bytes(keys: Map<u64, Curve25519PublicKey>) -> Map<u64, Seq<u8>> {
    keys.map_values(|key: Curve25519PublicKey| key@)
}

/// What is written out of a store: its counter, its unpublished public keys
/// and all its private keys, each map in ascending order of identifier.
pub struct OneTimeKeysPickle {
    pub key_id: u64,
    pub public_keys: BTreeMap<u64, Curve25519PublicKey>,
    pub private_keys: BTreeMap<u64, Curve25519SecretKey>,
}

impl View for OneTimeKeysPickle {
    type V = OneTimeKeysPickleView;

    open spec fn view(&self) -> OneTimeKeysPickleView {
        OneTimeKeysPickleView {
            key_id: self.key_id,
            public_keys: public_bytes(self.public_keys@),
            private_keys: secret_bytes(self.private_keys@),
        }
    }
}

impl Clone for OneTimeKeysPickle {
    fn clone(&self) -> (copy: Self)
        ensures
            copy@ == self@,
    {
        OneTimeKeysPickle {
            key_id: self.key_id,
            public_keys: self.public_keys.clone(),
            private_keys: self.private_keys.clone(),
        }
    }
}

impl OneTimeKeysPickle {
    /// Overwrites the bytes of every private key with zeros. The
    /// identifiers, the public keys and the counter stay. Each key is
    /// replaced in its place in the map by a key of zeros, and the key
    /// that comes out is erased as it goes out of use.
    pub fn zeroize(&mut self)
        ensures
            final(self)@.key_id == old(self)@.key_id,
            final(self)@.public_keys == old(self)@.public_keys,
            final(self)@.private_keys.dom() == old(self)@.private_keys.dom(),
            forall|id: u64| #[trigger]
                final(self)@.private_keys.contains_key(id) ==> final(self)@.private_keys[id]
                    == zeroed(32),
    {
        let ids = ascending_keys(&self.private_keys);
        let mut done: usize = 0;
        while done < ids.len()
            invariant
                done <= ids@.len(),
                self.key_id == old(self).key_id,
                self.public_keys == old(self).public_keys,
                self.private_keys@.dom() == old(self).private_keys@.dom(),
                forall|id: u64| ids@.contains(id) <==> old(self).private_keys@.contains_key(id),
                forall|i: int|
                    0 <= i < done ==> (#[trigger] self.private_keys@[ids@[i]])@ == zeroed(32),
            decreases ids@.len() - done,
        {
            let id = ids[done];
            assert(ids@.contains(id));
            self.private_keys.insert(id, Curve25519SecretKey::from_bytes([0u8; 32]));
            done += 1;
        }
        proof {
            assert forall|id: u64| #[trigger]
                self@.private_keys.contains_key(id) implies self@.private_keys[id] == zeroed(
                32,
            ) by {
                assert(ids@.contains(id));
                let i = choose|i: int| 0 <= i < ids@.len() && ids@[i] == id;
                assert((self.private_keys@[ids@[i]])@ == zeroed(32));
            }
        }
    }
}

} // verus!
