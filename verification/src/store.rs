//! The one-time key store: a bounded pool of key pairs that are generated
//! in batches, published, and handed out once each.

use std::collections::BTreeMap;
use vstd::prelude::*;
use vstd::std_specs::convert::FromSpecImpl;
use crate::keys::{Curve25519PublicKey, Curve25519SecretKey, KeyId};
use crate::laws::{
    lemma_generate_holds_latest_ids, lemma_generate_is_consistent, lemma_generate_len,
    lemma_generate_unpublished, lemma_generate_within_capacity,
    lemma_index_up_to_is_index_over, lemma_insert_keeps_index_complete,
    lemma_insert_keeps_sound, lemma_insert_within_capacity,
    lemma_mark_as_published_is_consistent, lemma_remove_secret_key_is_consistent,
};
use crate::model::{filled, index_over, index_up_to, OneTimeKeysView};
use crate::ordered::{ascending_keys, first_key};
use crate::pickle::{public_bytes, secret_bytes, OneTimeKeysPickle};
use crate::primitives::{random_secret, thread_rng, x25519_public_key};
use crate::reverse_index::ReverseIndex;
use crate::MAX_ONE_TIME_KEYS;

verus! {

/// A bounded pool of one-time key pairs.
pub struct OneTimeKeys {
    key_id: u64,
    unpublished_public_keys: BTreeMap<u64, Curve25519PublicKey>,
    private_keys: BTreeMap<u64, Curve25519SecretKey>,
    reverse_public_keys: ReverseIndex,
}

impl View for OneTimeKeys {
    type V = OneTimeKeysView;

    closed spec fn view(&self) -> OneTimeKeysView {
        OneTimeKeysView {
            next_key_id: self.key_id,
            private_keys: secret_bytes(self.private_keys@),
            unpublished_public_keys: public_bytes(self.unpublished_public_keys@),
            reverse_public_keys: self.reverse_public_keys@,
        }
    }
}

impl OneTimeKeys {
    /// The largest number of keys a store holds at once.
    pub const MAX_ONE_TIME_KEYS: usize = MAX_ONE_TIME_KEYS;

    /// A store holds finitely many keys and index entries.
    pub proof fn lemma_view_is_finite(self)
        ensures
            self@.finite(),
    {
        self.reverse_public_keys.lemma_view_is_finite();
        assert(self@.private_keys.dom() =~= self.private_keys@.dom());
        assert(self@.unpublished_public_keys.dom() =~= self.unpublished_public_keys@.dom());
    }

    /// An empty store.
    pub fn new() -> (store: Self)
        ensures
            store@ == OneTimeKeysView::empty(),
            store@.consistent(),
            store@.index_complete(),
            store@.holds_latest_ids(),
    {
        let store = OneTimeKeys {
            key_id: 0,
            unpublished_public_keys: BTreeMap::new(),
            private_keys: BTreeMap::new(),
            reverse_public_keys: ReverseIndex::new(),
        };
        assert(store@.private_keys =~= Map::empty());
        assert(store@.unpublished_public_keys =~= Map::empty());
        store
    }

    /// Marks every key held as published: no public key is unpublished
    /// afterwards, and the keys held and the index stay as they are.
    pub fn mark_as_published(&mut self)
        ensures
            final(self)@ == old(self)@.mark_as_published(),
            final(self)@.unpublished_public_keys == Map::<u64, Seq<u8>>::empty(),
            final(self)@.private_keys == old(self)@.private_keys,
            final(self)@.reverse_public_keys == old(self)@.reverse_public_keys,
            final(self)@.next_key_id == old(self)@.next_key_id,
            old(self)@.consistent() ==> final(self)@.consistent(),
            old(self)@.index_complete() ==> final(self)@.index_complete(),
            old(self)@.holds_latest_ids() ==> final(self)@.holds_latest_ids(),
    {
        self.unpublished_public_keys.clear();
        assert(self@.unpublished_public_keys =~= Map::empty());
        proof {
            if old(self)@.consistent() {
                lemma_mark_as_published_is_consistent(old(self)@);
            }
        }
    }

    /// The secret key that `public_key` resolves to: the one held under the
    /// identifier that the index records for `public_key`. The key stays in
    /// the store.
    pub fn get_secret_key(&self, public_key: &Curve25519PublicKey) -> (secret: Option<
        &Curve25519SecretKey,
    >)
        ensures
            match secret {
                Some(key) => self@.secret_key(public_key@) == Some(key@),
                None => self@.secret_key(public_key@) is None,
            },
    {
        match self.reverse_public_keys.get(public_key) {
            Some(key_id) => self.private_keys.get(&key_id),
            None => None,
        }
    }

    /// Takes the secret key that `public_key` resolves to out of the store
    /// and hands it to the caller. Afterwards `public_key` resolves to
    /// nothing.
    pub fn remove_secret_key(&mut self, public_key: &Curve25519PublicKey) -> (secret: Option<
        Curve25519SecretKey,
    >)
        ensures
            final(self)@ == old(self)@.remove_secret_key(public_key@),
            match secret {
                Some(key) => old(self)@.secret_key(public_key@) == Some(key@),
                None => old(self)@.secret_key(public_key@) is None,
            },
            final(self)@.secret_key(public_key@) is None,
            old(self)@.consistent() ==> final(self)@.consistent(),
            old(self)@.consistent() && old(self)@.index_complete()
                ==> final(self)@.index_complete(),
    {
        proof {
            if old(self)@.consistent() {
                lemma_remove_secret_key_is_consistent(old(self)@, public_key@);
            }
        }
        match self.reverse_public_keys.get(public_key) {
            Some(key_id) => self.remove_key_pair(KeyId(key_id), public_key),
            None => None,
        }
    }

    /// Removes the key pair with identifier `key_id` and public key
    /// `public_key`: the secret key held under `key_id` leaves the store and
    /// is handed to the caller, `key_id` leaves the unpublished keys, and
    /// the index forgets `public_key`.
    pub fn remove_key_pair(&mut self, key_id: KeyId, public_key: &Curve25519PublicKey) -> (secret:
        Option<Curve25519SecretKey>)
        ensures
            final(self)@ == old(self)@.remove_key_pair(key_id.0, public_key@),
            match secret {
                Some(key) => old(self)@.private_keys.contains_key(key_id.0)
                    && old(self)@.private_keys[key_id.0] == key@,
                None => !old(self)@.private_keys.contains_key(key_id.0),
            },
    {
        self.reverse_public_keys.remove(public_key);
        self.unpublished_public_keys.remove(&key_id.0);
        let secret = self.private_keys.remove(&key_id.0);
        assert(self@.private_keys =~= old(self)@.private_keys.remove(key_id.0));
        assert(self@.unpublished_public_keys =~= old(self)@.unpublished_public_keys.remove(
            key_id.0,
        ));
        secret
    }

    /// Records the key pair of `key` and `public_key` under `key_id`: `key`
    /// is held under `key_id`, in place of what `key_id` held before, the
    /// index leads from `public_key` to `key_id`, and unless `published` is
    /// set `public_key` joins the unpublished keys. No key is evicted.
    pub fn insert_key_pair(
        &mut self,
        key_id: KeyId,
        key: Curve25519SecretKey,
        public_key: Curve25519PublicKey,
        published: bool,
    )
        ensures
            final(self)@ == old(self)@.insert_key_pair(key_id.0, key@, public_key@, published),
    {
        self.private_keys.insert(key_id.0, key);
        self.reverse_public_keys.insert(public_key, key_id.0);
        if !published {
            self.unpublished_public_keys.insert(key_id.0, public_key);
        }
        assert(self@.private_keys =~= old(self)@.private_keys.insert(key_id.0, key@));
        assert(self@.unpublished_public_keys =~= if published {
            old(self)@.unpublished_public_keys
        } else {
            old(self)@.unpublished_public_keys.insert(key_id.0, public_key@)
        });
    }

    /// Evicts the oldest key pair: the key with the smallest identifier
    /// leaves the store, with its entries among the unpublished keys and in
    /// the index. A store without keys is left as it is.
    pub fn evict_oldest(&mut self)
        ensures
            final(self)@ == old(self)@.evict_oldest(),
    {
        assert(self@.private_keys.dom() =~= self.private_keys@.dom());
        match first_key(&self.private_keys) {
            Some(key_id) => {
                match self.private_keys.get(&key_id) {
                    Some(private_key) => {
                        let public_key = private_key.public_key();
                        self.remove_key_pair(KeyId(key_id), &public_key);
                    },
                    None => {},
                }
            },
            None => {},
        }
    }

    /// Inserts `key` under `key_id`. A store that already holds
    /// `MAX_ONE_TIME_KEYS` keys first evicts its oldest key pair. Then the
    /// pair of `key` and its public key is recorded under `key_id`.
    pub fn insert_secret_key(&mut self, key_id: KeyId, key: Curve25519SecretKey, published: bool)
        ensures
            final(self)@ == old(self)@.insert_secret_key(key_id.0, key@, published),
            old(self)@.within_capacity() ==> final(self)@.within_capacity(),
            old(self)@.consistent() && key_id.0 < old(self)@.next_key_id
                && !old(self)@.private_keys.contains_key(key_id.0) ==> final(self)@.consistent(),
            old(self)@.consistent() && old(self)@.index_complete()
                && !old(self)@.private_keys.contains_key(key_id.0)
                && !old(self)@.reverse_public_keys.contains_key(x25519_public_key(key@))
                ==> final(self)@.index_complete(),
    {
        assert(self@.private_keys.dom() =~= self.private_keys@.dom());
        proof {
            if old(self)@.within_capacity() {
                lemma_insert_within_capacity(old(self)@, key_id.0, key@, published);
            }
            if old(self)@.consistent() && !old(self)@.private_keys.contains_key(key_id.0) {
                lemma_insert_keeps_sound(old(self)@, key_id.0, key@, published);
                if old(self)@.index_complete() && !old(self)@.reverse_public_keys.contains_key(
                    x25519_public_key(key@),
                ) {
                    lemma_insert_keeps_index_complete(old(self)@, key_id.0, key@, published);
                }
            }
        }
        if self.private_keys.len() >= MAX_ONE_TIME_KEYS {
            self.evict_oldest();
        }
        let public_key = key.public_key();
        self.insert_key_pair(key_id, key, public_key, published);
    }

    /// Generates `count` fresh key pairs, each unpublished and under the
    /// next identifier of the counter. Which secrets are drawn is left to
    /// the random generator: the store ends in the state that generating
    /// some `count` secrets, one after the other, leads to. A store within
    /// its capacity stays within it. A consistent store stays consistent
    /// and holds `count` keys more, as far as there is room; its unpublished
    /// keys are the earlier ones and the new ones, as far as they are still
    /// held. A store that held the latest identifiers without a gap still
    /// does.
    pub fn generate(&mut self, count: usize)
        requires
            old(self)@.next_key_id + count <= u64::MAX,
        ensures
            old(self)@.generates(count as nat, final(self)@),
            count == 0 ==> final(self)@ == old(self)@,
            final(self)@.next_key_id == old(self)@.next_key_id + count,
            old(self)@.within_capacity() ==> final(self)@.within_capacity(),
            old(self)@.within_capacity() && old(self)@.holds_latest_ids()
                ==> final(self)@.holds_latest_ids(),
            old(self)@.consistent() ==> final(self)@.consistent(),
            old(self)@.consistent() ==> final(self)@.private_keys.len() == filled(
                old(self)@.private_keys.len(),
                count as nat,
            ),
            old(self)@.consistent() ==> old(self)@.unpublished_after_generating(
                count as nat,
                final(self)@,
            ),
    {
        let mut rng = thread_rng();
        let ghost mut keys: Seq<Seq<u8>> = Seq::empty();
        let mut generated: usize = 0;
        while generated < count
            invariant
                generated <= count,
                keys.len() == generated,
                self@ == old(self)@.generate(keys),
                self@.next_key_id == old(self)@.next_key_id + generated,
                old(self)@.next_key_id + count <= u64::MAX,
            decreases count - generated,
        {
            let key_id = KeyId(self.key_id);
            let key = Curve25519SecretKey::from_bytes(random_secret(&mut rng));
            proof {
                assert(keys.push(key@).drop_last() =~= keys);
                keys = keys.push(key@);
            }
            self.insert_secret_key(key_id, key, false);
            self.key_id += 1;
            generated += 1;
        }
        proof {
            assert(old(self)@.private_keys.dom() =~= old(self).private_keys@.dom());
            if old(self)@.within_capacity() {
                lemma_generate_within_capacity(old(self)@, keys);
            }
            if old(self)@.consistent() {
                lemma_generate_is_consistent(old(self)@, keys);
                lemma_generate_len(old(self)@, keys);
                lemma_generate_unpublished(old(self)@, keys);
            }
            if old(self)@.within_capacity() && old(self)@.holds_latest_ids() {
                lemma_generate_holds_latest_ids(old(self)@, keys);
            }
        }
    }

    /// The identifier that the next generated key gets.
    pub fn next_key_id(&self) -> (id: KeyId)
        ensures
            id.0 == self@.next_key_id,
    {
        KeyId(self.key_id)
    }

    /// The identifier of the oldest key held.
    pub fn oldest_key_id(&self) -> (id: Option<KeyId>)
        ensures
            match id {
                Some(id) => self@.oldest_key_id() == Some(id.0),
                None => self@.oldest_key_id() is None,
            },
    {
        assert(self@.private_keys.dom() =~= self.private_keys@.dom());
        match first_key(&self.private_keys) {
            Some(id) => Some(KeyId(id)),
            None => None,
        }
    }

    /// The private keys held, by identifier.
    pub fn private_keys(&self) -> (keys: &BTreeMap<u64, Curve25519SecretKey>)
        ensures
            secret_bytes(keys@) == self@.private_keys,
    {
        &self.private_keys
    }

    /// The public keys that are not marked as published, by identifier.
    pub fn unpublished_public_keys(&self) -> (keys: &BTreeMap<u64, Curve25519PublicKey>)
        ensures
            public_bytes(keys@) == self@.unpublished_public_keys,
    {
        &self.unpublished_public_keys
    }

    /// The index from public keys to identifiers.
    pub fn reverse_public_keys(&self) -> (index: &ReverseIndex)
        ensures
            index@ == self@.reverse_public_keys,
    {
        &self.reverse_public_keys
    }
}

impl Clone for OneTimeKeys {
    fn clone(&self) -> (copy: Self)
        ensures
            copy@ == self@,
    {
        OneTimeKeys {
            key_id: self.key_id,
            unpublished_public_keys: self.unpublished_public_keys.clone(),
            private_keys: self.private_keys.clone(),
            reverse_public_keys: self.reverse_public_keys.clone(),
        }
    }
}

/// The index over `public_keys`: every public key leads to the largest
/// identifier that holds it.
fn index_public_keys(public_keys: &BTreeMap<u64, Curve25519PublicKey>) -> (index: ReverseIndex)
    ensures
        index@ == index_over(public_bytes(public_keys@)),
{
    let ids = ascending_keys(public_keys);
    let mut index = ReverseIndex::new();
    let mut done: usize = 0;
    while done < ids.len()
        invariant
            done <= ids@.len(),
            forall|id: u64| ids@.contains(id) <==> public_keys@.contains_key(id),
            index@ == index_up_to(public_bytes(public_keys@), ids@.take(done as int)),
        decreases ids@.len() - done,
    {
        let id = ids[done];
        assert(ids@.contains(id));
        match public_keys.get(&id) {
            Some(public_key) => {
                index.insert(*public_key, id);
            },
            None => {},
        }
        proof {
            let next = ids@.take(done + 1);
            assert(next.drop_last() =~= ids@.take(done as int));
        }
        done += 1;
    }
    proof {
        assert(ids@.take(done as int) =~= ids@);
        lemma_index_up_to_is_index_over(public_bytes(public_keys@), ids@);
    }
    index
}

impl From<OneTimeKeysPickle> for OneTimeKeys {
    /// The store that `pickle` describes: it has the counter, the private
    /// keys and the unpublished keys of `pickle`, and an index over the
    /// unpublished keys alone.
    fn from(pickle: OneTimeKeysPickle) -> (store: OneTimeKeys)
        ensures
            store@ == OneTimeKeysView::from_pickle(pickle@),
    {
        let reverse_public_keys = index_public_keys(&pickle.public_keys);
        OneTimeKeys {
            key_id: pickle.key_id,
            unpublished_public_keys: pickle.public_keys,
            private_keys: pickle.private_keys,
            reverse_public_keys,
        }
    }
}

impl FromSpecImpl<OneTimeKeysPickle> for OneTimeKeys {
    open spec fn obeys_from_spec() -> bool {
        false
    }

    open spec fn from_spec(pickle: OneTimeKeysPickle) -> OneTimeKeys {
        arbitrary()
    }
}

impl From<OneTimeKeys> for OneTimeKeysPickle {
    /// What is written out of `store`: its counter, its unpublished public
    /// keys and all its private keys.
    fn from(store: OneTimeKeys) -> (pickle: OneTimeKeysPickle)
        ensures
            pickle@ == store@.to_pickle(),
    {
        OneTimeKeysPickle {
            key_id: store.key_id,
            public_keys: store.unpublished_public_keys,
            private_keys: store.private_keys,
        }
    }
}

impl FromSpecImpl<OneTimeKeys> for OneTimeKeysPickle {
    open spec fn obeys_from_spec() -> bool {
        false
    }

    open spec fn from_spec(store: OneTimeKeys) -> OneTimeKeysPickle {
        arbitrary()
    }
}

} // verus!
