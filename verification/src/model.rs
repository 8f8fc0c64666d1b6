//! The mathematical model of a one-time key store: its state as maps over
//! integers and byte sequences, and each operation as a function from state
//! to state.

use vstd::prelude::*;
use crate::primitives::x25519_public_key;
use crate::MAX_ONE_TIME_KEYS;

verus! {

/// Whether `id` is the smallest identifier in `ids`.
pub open spec fn is_oldest(ids: Set<u64>, id: u64) -> bool {
    ids.contains(id) && forall|other: u64| ids.contains(other) ==> id <= other
}

/// The smallest identifier in `ids`, if `ids` has one.
pub open spec fn oldest(ids: Set<u64>) -> Option<u64> {
    if exists|id: u64| is_oldest(ids, id) {
        Some(choose|id: u64| is_oldest(ids, id))
    } else {
        None
    }
}

/// The number of keys a store holds after `count` keys were generated in a
/// store that held `held` keys: `count` more, as far as there is room.
pub open spec fn filled(held: nat, count: nat) -> nat {
    if held + count <= MAX_ONE_TIME_KEYS {
        held + count
    } else {
        MAX_ONE_TIME_KEYS as nat
    }
}

/// Whether `id` is the largest identifier under which `public_keys` holds
/// the public key `public`.
pub open spec fn is_newest_for(public_keys: Map<u64, Seq<u8>>, public: Seq<u8>, id: u64) -> bool {
    &&& public_keys.contains_key(id)
    &&& public_keys[id] == public
    &&& forall|other: u64|
        public_keys.contains_key(other) && public_keys[other] == public ==> other <= id
}

/// The index over `public_keys`: every public key that occurs in it leads
/// to the largest identifier that holds it.
pub open spec fn index_over(public_keys: Map<u64, Seq<u8>>) -> Map<Seq<u8>, u64> {
    Map::new(
        |public: Seq<u8>|
            exists|id: u64| #[trigger] public_keys.contains_key(id) && public_keys[id] == public,
        |public: Seq<u8>| choose|id: u64| is_newest_for(public_keys, public, id),
    )
}

/// The index over the part of `public_keys` that `ids` names, built by
/// going through `ids` from first to last: a later identifier takes the
/// place of an earlier one with the same public key.
pub open spec fn index_up_to(public_keys: Map<u64, Seq<u8>>, ids: Seq<u64>) -> Map<Seq<u8>, u64>
    decreases ids.len(),
{
    if ids.len() == 0 {
        Map::empty()
    } else {
        index_up_to(public_keys, ids.drop_last()).insert(public_keys[ids.last()], ids.last())
    }
}

/// What is kept of a store when it is saved.
pub struct OneTimeKeysPickleView {
    /// The identifier that the next generated key gets.
    pub key_id: u64,
    /// The public keys not yet marked as published, by identifier.
    pub public_keys: Map<u64, Seq<u8>>,
    /// The secret bytes of every key held, by identifier.
    pub private_keys: Map<u64, Seq<u8>>,
}

/// The state of a one-time key store.
pub struct OneTimeKeysView {
    /// The identifier that the next generated key gets.
    pub next_key_id: u64,
    /// The secret bytes of every key held, by identifier.
    pub private_keys: Map<u64, Seq<u8>>,
    /// The public keys not yet marked as published, by identifier.
    pub unpublished_public_keys: Map<u64, Seq<u8>>,
    /// The identifier recorded for each public key.
    pub reverse_public_keys: Map<Seq<u8>, u64>,
}

impl OneTimeKeysView {
    /// The state of a new store: nothing held, counter at zero.
    pub open spec fn empty() -> Self {
        OneTimeKeysView {
            next_key_id: 0,
            private_keys: Map::empty(),
            unpublished_public_keys: Map::empty(),
            reverse_public_keys: Map::empty(),
        }
    }

    /// What is saved of the state: the counter, every private key, and the
    /// public keys that are unpublished. The index is not saved.
    pub open spec fn to_pickle(self) -> OneTimeKeysPickleView {
        OneTimeKeysPickleView {
            key_id: self.next_key_id,
            public_keys: self.unpublished_public_keys,
            private_keys: self.private_keys,
        }
    }

    /// The state restored from `pickle`: the saved public keys are the
    /// unpublished keys, and the index is built over them alone.
    pub open spec fn from_pickle(pickle: OneTimeKeysPickleView) -> Self {
        OneTimeKeysView {
            next_key_id: pickle.key_id,
            private_keys: pickle.private_keys,
            unpublished_public_keys: pickle.public_keys,
            reverse_public_keys: index_over(pickle.public_keys),
        }
    }

    /// The public key of the key pair held under `id`.
    pub open spec fn public_key_of(self, id: u64) -> Seq<u8> {
        x25519_public_key(self.private_keys[id])
    }

    /// Whether the state holds finitely many keys and index entries.
    pub open spec fn finite(self) -> bool {
        &&& self.private_keys.dom().finite()
        &&& self.unpublished_public_keys.dom().finite()
        &&& self.reverse_public_keys.dom().finite()
    }

    /// Whether every entry of the index leads to a key that is held and
    /// whose public key is the entry's.
    pub open spec fn index_sound(self) -> bool {
        forall|public: Seq<u8>| #[trigger]
            self.reverse_public_keys.contains_key(public) ==> {
                let id = self.reverse_public_keys[public];
                self.private_keys.contains_key(id) && self.public_key_of(id) == public
            }
    }

    /// Whether the index leads from the public key of every key held back
    /// to that key.
    pub open spec fn index_complete(self) -> bool {
        forall|id: u64| #[trigger]
            self.private_keys.contains_key(id) ==> {
                let public = self.public_key_of(id);
                self.reverse_public_keys.contains_key(public) && self.reverse_public_keys[public]
                    == id
            }
    }

    /// Whether every unpublished public key belongs to a key that is held.
    pub open spec fn unpublished_sound(self) -> bool {
        forall|id: u64| #[trigger]
            self.unpublished_public_keys.contains_key(id) ==> self.private_keys.contains_key(id)
                && self.unpublished_public_keys[id] == self.public_key_of(id)
    }

    /// Whether the store holds no more keys than it has room for.
    pub open spec fn within_capacity(self) -> bool {
        self.private_keys.len() <= MAX_ONE_TIME_KEYS
    }

    /// Whether every identifier in use lies below the counter, so that the
    /// counter's value is new.
    pub open spec fn ids_below_counter(self) -> bool {
        forall|id: u64| #[trigger] self.private_keys.contains_key(id) ==> id < self.next_key_id
    }

    /// Whether the identifiers in use are the latest values of the counter,
    /// without a gap: as it is in a store from which no key was taken out.
    pub open spec fn holds_latest_ids(self) -> bool {
        &&& self.private_keys.len() <= self.next_key_id
        &&& forall|id: u64|
            self.private_keys.contains_key(id) <==> self.next_key_id - self.private_keys.len()
                <= id < self.next_key_id
    }

    /// What holds of a store however it was used: it is finite and within
    /// its capacity, its index and its unpublished keys speak of keys that
    /// are held, and its counter is past every identifier in use.
    pub open spec fn consistent(self) -> bool {
        &&& self.finite()
        &&& self.index_sound()
        &&& self.unpublished_sound()
        &&& self.within_capacity()
        &&& self.ids_below_counter()
    }

    /// The identifier of the oldest key held.
    pub open spec fn oldest_key_id(self) -> Option<u64> {
        oldest(self.private_keys.dom())
    }

    /// The state after the key pair with identifier `id` and public key
    /// `public` was removed: `id` leaves the private and the unpublished
    /// keys, and the index forgets `public`.
    pub open spec fn remove_key_pair(self, id: u64, public: Seq<u8>) -> Self {
        OneTimeKeysView {
            next_key_id: self.next_key_id,
            private_keys: self.private_keys.remove(id),
            unpublished_public_keys: self.unpublished_public_keys.remove(id),
            reverse_public_keys: self.reverse_public_keys.remove(public),
        }
    }

    /// The state after the key pair of the secret bytes `key` and the
    /// public key `public` was recorded under `id`: `key` is held under
    /// `id`, the index leads from `public` to `id`, and unless the pair is
    /// `published`, `public` joins the unpublished keys.
    pub open spec fn insert_key_pair(
        self,
        id: u64,
        key: Seq<u8>,
        public: Seq<u8>,
        published: bool,
    ) -> Self {
        OneTimeKeysView {
            next_key_id: self.next_key_id,
            private_keys: self.private_keys.insert(id, key),
            unpublished_public_keys: if published {
                self.unpublished_public_keys
            } else {
                self.unpublished_public_keys.insert(id, public)
            },
            reverse_public_keys: self.reverse_public_keys.insert(public, id),
        }
    }

    /// The state without its oldest key pair. A state that holds no key is
    /// left as it is.
    pub open spec fn evict_oldest(self) -> Self {
        match self.oldest_key_id() {
            Some(id) => self.remove_key_pair(id, self.public_key_of(id)),
            None => self,
        }
    }

    /// Whether the store is full, so that the next insertion evicts a key.
    pub open spec fn is_full(self) -> bool {
        self.private_keys.len() >= MAX_ONE_TIME_KEYS
    }

    /// The state with room for one more key: a full store has lost its
    /// oldest key pair.
    pub open spec fn make_room(self) -> Self {
        if self.is_full() {
            self.evict_oldest()
        } else {
            self
        }
    }

    /// The state after the key with secret bytes `key` was inserted under
    /// `id`: room is made, then the pair of `key` and its public key is
    /// recorded.
    pub open spec fn insert_secret_key(self, id: u64, key: Seq<u8>, published: bool) -> Self {
        self.make_room().insert_key_pair(id, key, x25519_public_key(key), published)
    }

    /// The state after one fresh key with secret bytes `key` was generated:
    /// it is inserted unpublished under the counter's value, and the counter
    /// moves on by one.
    pub open spec fn generate_one(self, key: Seq<u8>) -> Self {
        let inserted = self.insert_secret_key(self.next_key_id, key, false);
        OneTimeKeysView { next_key_id: (self.next_key_id + 1) as u64, ..inserted }
    }

    /// The state after the keys with secret bytes `keys` were generated one
    /// after the other.
    pub open spec fn generate(self, keys: Seq<Seq<u8>>) -> Self
        decreases keys.len(),
    {
        if keys.len() == 0 {
            self
        } else {
            self.generate(keys.drop_last()).generate_one(keys.last())
        }
    }

    /// Whether `after` is a state that generating `count` keys in this state
    /// leads to, for some choice of their secret bytes.
    pub open spec fn generates(self, count: nat, after: Self) -> bool {
        exists|keys: Seq<Seq<u8>>| keys.len() == count && after == #[trigger] self.generate(keys)
    }

    /// Whether the unpublished keys of `after` are those that are
    /// unpublished in this state and those under the `count` identifiers
    /// from the counter on, as far as `after` holds them.
    pub open spec fn unpublished_after_generating(self, count: nat, after: Self) -> bool {
        forall|id: u64| #[trigger]
            after.unpublished_public_keys.contains_key(id) <==> after.private_keys.contains_key(id)
                && (self.unpublished_public_keys.contains_key(id) || self.next_key_id <= id
                < self.next_key_id + count)
    }

    /// The state after every key held was marked as published.
    pub open spec fn mark_as_published(self) -> Self {
        OneTimeKeysView { unpublished_public_keys: Map::empty(), ..self }
    }

    /// The secret bytes that the public key `public` resolves to: those held
    /// under the identifier that the index records for `public`.
    pub open spec fn secret_key(self, public: Seq<u8>) -> Option<Seq<u8>> {
        if self.reverse_public_keys.contains_key(public) && self.private_keys.contains_key(
            self.reverse_public_keys[public],
        ) {
            Some(self.private_keys[self.reverse_public_keys[public]])
        } else {
            None
        }
    }

    /// The state after the key that `public` leads to was taken out: the
    /// key pair of `public` and of the identifier that the index records
    /// for it is removed. Where the index has no entry for `public`, the
    /// state stays as it is.
    pub open spec fn remove_secret_key(self, public: Seq<u8>) -> Self {
        if self.reverse_public_keys.contains_key(public) {
            self.remove_key_pair(self.reverse_public_keys[public], public)
        } else {
            self
        }
    }
}

} // verus!
