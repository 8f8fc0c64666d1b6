//! What holds of the store's model, proved once for every state.

use vstd::prelude::*;
use crate::model::{
    filled, index_over, index_up_to, is_newest_for, is_oldest, oldest, OneTimeKeysView,
};
use crate::ordered::is_ascending;
use crate::primitives::x25519_public_key;
use crate::MAX_ONE_TIME_KEYS;

verus! {

/// A finite set of identifiers that is not empty has a smallest member.
pub proof fn lemma_oldest_exists(ids: Set<u64>)
    requires
        ids.finite(),
        ids.len() > 0,
    ensures
        oldest(ids) is Some,
        is_oldest(ids, oldest(ids)->0),
    decreases ids.len(),
{
    let id = ids.choose();
    let rest = ids.remove(id);
    if rest.len() == 0 {
        assert(is_oldest(ids, id));
    } else {
        lemma_oldest_exists(rest);
        let least = oldest(rest)->0;
        if id <= least {
            assert(is_oldest(ids, id));
        } else {
            assert(is_oldest(ids, least));
        }
    }
}

/// The smallest member of a set of identifiers is unique.
pub proof fn lemma_oldest_is(ids: Set<u64>, id: u64)
    requires
        is_oldest(ids, id),
    ensures
        oldest(ids) == Some(id),
{
}

/// The state of a new store is consistent, and its index is complete.
pub proof fn lemma_empty_is_consistent()
    ensures
        OneTimeKeysView::empty().consistent(),
        OneTimeKeysView::empty().index_complete(),
{
}

/// Evicting the oldest key keeps a state finite, and keeps what holds of
/// its index and of its unpublished keys; a state that holds a key holds
/// one key less afterwards.
pub proof fn lemma_evict_oldest_keeps_sound(state: OneTimeKeysView)
    requires
        state.finite(),
    ensures
        state.evict_oldest().finite(),
        state.index_sound() ==> state.evict_oldest().index_sound(),
        state.unpublished_sound() ==> state.evict_oldest().unpublished_sound(),
        state.index_sound() && state.index_complete() ==> state.evict_oldest().index_complete(),
        state.evict_oldest().private_keys.dom().subset_of(state.private_keys.dom()),
        state.private_keys.len() > 0 ==> state.evict_oldest().private_keys.len()
            == state.private_keys.len() - 1,
{
    if state.private_keys.len() > 0 {
        lemma_oldest_exists(state.private_keys.dom());
    }
}

/// Inserting a key into a store within its capacity leaves the store
/// within its capacity, whatever the identifier.
pub proof fn lemma_insert_within_capacity(
    state: OneTimeKeysView,
    id: u64,
    key: Seq<u8>,
    published: bool,
)
    requires
        state.private_keys.dom().finite(),
        state.within_capacity(),
    ensures
        state.insert_secret_key(id, key, published).private_keys.dom().finite(),
        state.insert_secret_key(id, key, published).within_capacity(),
{
    if state.is_full() {
        lemma_oldest_exists(state.private_keys.dom());
    }
}

/// Inserting a key under an identifier that is not in use keeps a state
/// finite, and its index and unpublished keys sound. No identifier comes
/// into use but the new one.
pub proof fn lemma_insert_keeps_sound(
    state: OneTimeKeysView,
    id: u64,
    key: Seq<u8>,
    published: bool,
)
    requires
        state.finite(),
        state.index_sound(),
        state.unpublished_sound(),
        !state.private_keys.contains_key(id),
    ensures
        state.insert_secret_key(id, key, published).finite(),
        state.insert_secret_key(id, key, published).index_sound(),
        state.insert_secret_key(id, key, published).unpublished_sound(),
        state.insert_secret_key(id, key, published).private_keys.dom().subset_of(
            state.private_keys.dom().insert(id),
        ),
{
    lemma_evict_oldest_keeps_sound(state);
}

/// Inserting a key whose identifier is not in use and whose public key is
/// not indexed keeps a complete index complete.
pub proof fn lemma_insert_keeps_index_complete(
    state: OneTimeKeysView,
    id: u64,
    key: Seq<u8>,
    published: bool,
)
    requires
        state.finite(),
        state.index_sound(),
        state.index_complete(),
        !state.private_keys.contains_key(id),
        !state.reverse_public_keys.contains_key(x25519_public_key(key)),
    ensures
        state.insert_secret_key(id, key, published).index_complete(),
{
    lemma_evict_oldest_keeps_sound(state);
}

/// Generating one key in a consistent store whose counter can still move
/// on leaves the store consistent.
pub proof fn lemma_generate_one_is_consistent(state: OneTimeKeysView, key: Seq<u8>)
    requires
        state.consistent(),
        state.next_key_id < u64::MAX,
    ensures
        state.generate_one(key).consistent(),
        state.generate_one(key).next_key_id == state.next_key_id + 1,
{
    lemma_insert_keeps_sound(state, state.next_key_id, key, false);
    lemma_insert_within_capacity(state, state.next_key_id, key, false);
}

/// Generating keys in a consistent store leaves the store consistent, as
/// long as the counter does not run out. The counter moves on by the number
/// of keys.
pub proof fn lemma_generate_is_consistent(state: OneTimeKeysView, keys: Seq<Seq<u8>>)
    requires
        state.consistent(),
        state.next_key_id + keys.len() <= u64::MAX,
    ensures
        state.generate(keys).consistent(),
        state.generate(keys).next_key_id == state.next_key_id + keys.len(),
    decreases keys.len(),
{
    if keys.len() > 0 {
        lemma_generate_is_consistent(state, keys.drop_last());
        lemma_generate_one_is_consistent(state.generate(keys.drop_last()), keys.last());
    }
}

/// Generating keys in two batches leads to the state that generating them
/// in one batch leads to.
pub proof fn lemma_generate_in_batches(
    state: OneTimeKeysView,
    first: Seq<Seq<u8>>,
    second: Seq<Seq<u8>>,
)
    ensures
        state.generate(first).generate(second) == state.generate(first + second),
    decreases second.len(),
{
    if second.len() > 0 {
        lemma_generate_in_batches(state, first, second.drop_last());
        assert((first + second).drop_last() =~= first + second.drop_last());
    }
}

/// However many keys are generated, and whatever they are, a store within
/// its capacity stays within its capacity.
pub proof fn lemma_generate_within_capacity(state: OneTimeKeysView, keys: Seq<Seq<u8>>)
    requires
        state.private_keys.dom().finite(),
        state.within_capacity(),
    ensures
        state.generate(keys).private_keys.dom().finite(),
        state.generate(keys).within_capacity(),
    decreases keys.len(),
{
    if keys.len() > 0 {
        lemma_generate_within_capacity(state, keys.drop_last());
        let before = state.generate(keys.drop_last());
        lemma_insert_within_capacity(before, before.next_key_id, keys.last(), false);
    }
}

/// The number of keys that a store holds after one more was generated: one
/// more than before, or as many as there is room for where the store was
/// full.
pub proof fn lemma_generate_one_len(state: OneTimeKeysView, key: Seq<u8>)
    requires
        state.private_keys.dom().finite(),
        state.within_capacity(),
        state.ids_below_counter(),
    ensures
        state.generate_one(key).private_keys.len() == filled(state.private_keys.len(), 1),
{
    if state.is_full() {
        lemma_oldest_exists(state.private_keys.dom());
    }
}

/// The number of keys that a consistent store holds after keys were
/// generated: as many more as were generated, as far as there is room.
pub proof fn lemma_generate_len(state: OneTimeKeysView, keys: Seq<Seq<u8>>)
    requires
        state.consistent(),
        state.next_key_id + keys.len() <= u64::MAX,
    ensures
        state.generate(keys).private_keys.len() == filled(state.private_keys.len(), keys.len()),
    decreases keys.len(),
{
    if keys.len() > 0 {
        lemma_generate_len(state, keys.drop_last());
        lemma_generate_is_consistent(state, keys.drop_last());
        lemma_generate_one_len(state.generate(keys.drop_last()), keys.last());
    }
}

/// Generating keys in a store that holds the latest identifiers without a
/// gap leaves such a store: the keys held are the newest ones.
pub proof fn lemma_generate_holds_latest_ids(state: OneTimeKeysView, keys: Seq<Seq<u8>>)
    requires
        state.private_keys.dom().finite(),
        state.within_capacity(),
        state.holds_latest_ids(),
        state.next_key_id + keys.len() <= u64::MAX,
    ensures
        state.generate(keys).holds_latest_ids(),
        state.generate(keys).private_keys.dom().finite(),
        state.generate(keys).within_capacity(),
        state.generate(keys).next_key_id == state.next_key_id + keys.len(),
        state.generate(keys).private_keys.len() == filled(state.private_keys.len(), keys.len()),
    decreases keys.len(),
{
    if keys.len() > 0 {
        lemma_generate_holds_latest_ids(state, keys.drop_last());
        let before = state.generate(keys.drop_last());
        lemma_insert_within_capacity(before, before.next_key_id, keys.last(), false);
        lemma_generate_one_len(before, keys.last());
        if before.is_full() {
            lemma_oldest_exists(before.private_keys.dom());
            let first = (before.next_key_id - before.private_keys.len()) as u64;
            lemma_oldest_is(before.private_keys.dom(), first);
        }
    }
}

/// In a store that holds the latest identifiers without a gap, the oldest
/// key is as many steps behind the counter as there are keys.
pub proof fn lemma_oldest_of_latest_ids(state: OneTimeKeysView)
    requires
        state.private_keys.dom().finite(),
        state.holds_latest_ids(),
    ensures
        state.oldest_key_id() == if state.private_keys.len() == 0 {
            None
        } else {
            Some((state.next_key_id - state.private_keys.len()) as u64)
        },
{
    if state.private_keys.len() > 0 {
        let first = (state.next_key_id - state.private_keys.len()) as u64;
        lemma_oldest_is(state.private_keys.dom(), first);
    }
}

/// After keys were generated in a consistent store, the unpublished keys
/// are those that were unpublished before and those that were generated, as
/// far as they are still held.
pub proof fn lemma_generate_unpublished(state: OneTimeKeysView, keys: Seq<Seq<u8>>)
    requires
        state.consistent(),
        state.next_key_id + keys.len() <= u64::MAX,
    ensures
        state.unpublished_after_generating(keys.len(), state.generate(keys)),
    decreases keys.len(),
{
    if keys.len() > 0 {
        let front = keys.drop_last();
        lemma_generate_unpublished(state, front);
        lemma_generate_is_consistent(state, front);
        let before = state.generate(front);
        if before.is_full() {
            lemma_oldest_exists(before.private_keys.dom());
        }
    }
}

/// Marking the keys as published a second time changes nothing.
pub proof fn lemma_mark_as_published_is_idempotent(state: OneTimeKeysView)
    ensures
        state.mark_as_published().mark_as_published() == state.mark_as_published(),
{
}

/// Marking the keys as published keeps a consistent store consistent and a
/// complete index complete.
pub proof fn lemma_mark_as_published_is_consistent(state: OneTimeKeysView)
    requires
        state.consistent(),
    ensures
        state.mark_as_published().consistent(),
        state.index_complete() ==> state.mark_as_published().index_complete(),
{
}

/// Taking a key out keeps a consistent store consistent and a complete
/// index complete.
pub proof fn lemma_remove_secret_key_is_consistent(state: OneTimeKeysView, public: Seq<u8>)
    requires
        state.consistent(),
    ensures
        state.remove_secret_key(public).consistent(),
        state.index_complete() ==> state.remove_secret_key(public).index_complete(),
{
    vstd::set_lib::lemma_len_subset(
        state.remove_secret_key(public).private_keys.dom(),
        state.private_keys.dom(),
    );
}

/// The index of a store has as many entries as the store holds keys,
/// wherever the index is sound and complete.
pub proof fn lemma_index_has_one_entry_per_key(state: OneTimeKeysView)
    requires
        state.finite(),
        state.index_sound(),
        state.index_complete(),
    ensures
        state.reverse_public_keys.len() == state.private_keys.len(),
{
    let public_key_of = |id: u64| state.public_key_of(id);
    let ids = state.private_keys.dom();
    let publics = state.reverse_public_keys.dom();
    assert(ids.map(public_key_of) =~= publics);
    vstd::set_lib::lemma_map_size(ids, publics, public_key_of);
}

/// Generating one key whose public key is not indexed keeps the index of a
/// consistent store complete.
pub proof fn lemma_generate_one_keeps_index_complete(state: OneTimeKeysView, key: Seq<u8>)
    requires
        state.consistent(),
        state.index_complete(),
        !state.reverse_public_keys.contains_key(x25519_public_key(key)),
    ensures
        state.generate_one(key).index_complete(),
{
    lemma_insert_keeps_index_complete(state, state.next_key_id, key, false);
}

/// Whether the secrets of `keys` have public keys that differ from one
/// another and from every public key in `index`.
pub open spec fn are_new_to(keys: Seq<Seq<u8>>, index: Map<Seq<u8>, u64>) -> bool {
    &&& forall|i: int|
        0 <= i < keys.len() ==> !index.contains_key(#[trigger] x25519_public_key(keys[i]))
    &&& forall|i: int, j: int|
        0 <= i < j < keys.len() ==> #[trigger] x25519_public_key(keys[i])
            != #[trigger] x25519_public_key(keys[j])
}

/// Generating keys indexes their public keys and none besides.
proof fn lemma_generate_indexes_new_keys_only(state: OneTimeKeysView, keys: Seq<Seq<u8>>)
    requires
        state.private_keys.dom().finite(),
    ensures
        forall|public: Seq<u8>| #[trigger]
            state.generate(keys).reverse_public_keys.contains_key(public)
                ==> state.reverse_public_keys.contains_key(public) || exists|i: int|
                0 <= i < keys.len() && #[trigger] x25519_public_key(keys[i]) == public,
        state.generate(keys).private_keys.dom().finite(),
    decreases keys.len(),
{
    if keys.len() > 0 {
        let front = keys.drop_last();
        lemma_generate_indexes_new_keys_only(state, front);
        let before = state.generate(front);
        if before.is_full() && before.private_keys.len() > 0 {
            lemma_oldest_exists(before.private_keys.dom());
        }
    }
}

/// In every store reached by generating keys whose public keys are new, the
/// index leads from the public key of every key held back to that key, and
/// has one entry for each key held.
pub proof fn lemma_generate_keeps_index_complete(state: OneTimeKeysView, keys: Seq<Seq<u8>>)
    requires
        state.consistent(),
        state.index_complete(),
        state.next_key_id + keys.len() <= u64::MAX,
        are_new_to(keys, state.reverse_public_keys),
    ensures
        state.generate(keys).index_complete(),
        state.generate(keys).reverse_public_keys.len() == state.generate(
            keys,
        ).private_keys.len(),
    decreases keys.len(),
{
    if keys.len() > 0 {
        let front = keys.drop_last();
        let before = state.generate(front);
        lemma_generate_keeps_index_complete(state, front);
        lemma_generate_is_consistent(state, front);
        lemma_generate_indexes_new_keys_only(state, front);
        lemma_generate_one_keeps_index_complete(before, keys.last());
    }
    lemma_generate_is_consistent(state, keys);
    lemma_index_has_one_entry_per_key(state.generate(keys));
}

/// A full store that is given a key under an identifier above all those in
/// use loses its oldest key and no other. The oldest key afterwards is the
/// one that was second oldest before.
pub proof fn lemma_full_store_evicts_oldest(
    state: OneTimeKeysView,
    id: u64,
    key: Seq<u8>,
    published: bool,
)
    requires
        state.private_keys.dom().finite(),
        state.is_full(),
        forall|held: u64| state.private_keys.contains_key(held) ==> held < id,
    ensures
        state.oldest_key_id() is Some,
        state.insert_secret_key(id, key, published).private_keys == state.private_keys.remove(
            state.oldest_key_id()->0,
        ).insert(id, key),
        state.insert_secret_key(id, key, published).oldest_key_id() == oldest(
            state.private_keys.dom().remove(state.oldest_key_id()->0),
        ),
        state.insert_secret_key(id, key, published).oldest_key_id() is Some,
        state.insert_secret_key(id, key, published).oldest_key_id()->0 > state.oldest_key_id()->0,
        x25519_public_key(key) != state.public_key_of(state.oldest_key_id()->0)
            ==> state.insert_secret_key(id, key, published).secret_key(
            state.public_key_of(state.oldest_key_id()->0),
        ) is None,
{
    let ids = state.private_keys.dom();
    lemma_oldest_exists(ids);
    let first = state.oldest_key_id()->0;
    let rest = ids.remove(first);
    lemma_oldest_exists(rest);
    lemma_oldest_is(
        state.insert_secret_key(id, key, published).private_keys.dom(),
        oldest(rest)->0,
    );
}

/// Generating one more key in a full store whose counter is past every
/// identifier in use evicts the oldest key and no other. The oldest key
/// afterwards is the one that was second oldest before.
pub proof fn lemma_generate_one_evicts_oldest(state: OneTimeKeysView, key: Seq<u8>)
    requires
        state.private_keys.dom().finite(),
        state.is_full(),
        state.ids_below_counter(),
    ensures
        state.oldest_key_id() is Some,
        state.generate_one(key).private_keys == state.private_keys.remove(
            state.oldest_key_id()->0,
        ).insert(state.next_key_id, key),
        state.generate_one(key).oldest_key_id() == oldest(
            state.private_keys.dom().remove(state.oldest_key_id()->0),
        ),
        state.generate_one(key).oldest_key_id() is Some,
        state.generate_one(key).oldest_key_id()->0 > state.oldest_key_id()->0,
        x25519_public_key(key) != state.public_key_of(state.oldest_key_id()->0)
            ==> state.generate_one(key).secret_key(
            state.public_key_of(state.oldest_key_id()->0),
        ) is None,
{
    lemma_full_store_evicts_oldest(state, state.next_key_id, key, false);
}

/// Generating as many keys as a new store has room for fills the store with
/// the identifiers from zero on. Generating one key more evicts the key
/// with identifier zero and no other: the oldest key is then the one with
/// identifier one.
pub proof fn lemma_eviction_order(keys: Seq<Seq<u8>>, extra: Seq<u8>)
    requires
        keys.len() == MAX_ONE_TIME_KEYS,
    ensures
        OneTimeKeysView::empty().generate(keys).private_keys.dom() == Set::new(
            |id: u64| id < MAX_ONE_TIME_KEYS,
        ),
        OneTimeKeysView::empty().generate(keys).oldest_key_id() == Some(0u64),
        OneTimeKeysView::empty().generate(keys).generate_one(extra).private_keys.dom()
            == Set::new(|id: u64| 1 <= id <= MAX_ONE_TIME_KEYS),
        OneTimeKeysView::empty().generate(keys).generate_one(extra).oldest_key_id() == Some(
            1u64,
        ),
{
    let new = OneTimeKeysView::empty();
    let full = new.generate(keys);
    let after = full.generate_one(extra);
    lemma_generate_holds_latest_ids(new, keys);
    lemma_oldest_of_latest_ids(full);
    let one_more = seq![extra];
    lemma_generate_holds_latest_ids(full, one_more);
    lemma_oldest_of_latest_ids(after);
}

/// Once a key was taken out by its public key, the public key resolves to
/// nothing, and taking it out again changes nothing.
pub proof fn lemma_secret_key_is_taken_once(state: OneTimeKeysView, public: Seq<u8>)
    ensures
        state.remove_secret_key(public).secret_key(public) is None,
        state.remove_secret_key(public).remove_secret_key(public) == state.remove_secret_key(
            public,
        ),
{
}

/// A finite map that holds `public` somewhere holds it under a largest
/// identifier.
pub proof fn lemma_newest_exists(public_keys: Map<u64, Seq<u8>>, public: Seq<u8>, id: u64)
    requires
        public_keys.dom().finite(),
        public_keys.contains_key(id),
        public_keys[id] == public,
    ensures
        index_over(public_keys).contains_key(public),
        is_newest_for(public_keys, public, index_over(public_keys)[public]),
    decreases public_keys.dom().len(),
{
    if exists|other: u64|
        public_keys.contains_key(other) && public_keys[other] == public && other > id {
        let other = choose|other: u64|
            public_keys.contains_key(other) && public_keys[other] == public && other > id;
        let rest = public_keys.remove(id);
        lemma_newest_exists(rest, public, other);
        let newest = index_over(rest)[public];
        assert(is_newest_for(public_keys, public, newest));
    } else {
        assert(is_newest_for(public_keys, public, id));
    }
}

/// Saving a store and restoring it keeps the counter, the private keys and
/// the unpublished keys. The public key of every key that was unpublished
/// still resolves to a secret key with that public key; where the index
/// was complete before, it resolves to the very key it belonged to.
pub proof fn lemma_pickle_round_trip(state: OneTimeKeysView, id: u64)
    requires
        state.unpublished_public_keys.dom().finite(),
        state.unpublished_sound(),
        state.unpublished_public_keys.contains_key(id),
    ensures
        OneTimeKeysView::from_pickle(state.to_pickle()).next_key_id == state.next_key_id,
        OneTimeKeysView::from_pickle(state.to_pickle()).private_keys == state.private_keys,
        OneTimeKeysView::from_pickle(state.to_pickle()).unpublished_public_keys
            == state.unpublished_public_keys,
        OneTimeKeysView::from_pickle(state.to_pickle()).secret_key(
            state.unpublished_public_keys[id],
        ) is Some,
        x25519_public_key(
            OneTimeKeysView::from_pickle(state.to_pickle()).secret_key(
                state.unpublished_public_keys[id],
            )->0,
        ) == state.unpublished_public_keys[id],
        state.index_complete() ==> OneTimeKeysView::from_pickle(state.to_pickle()).secret_key(
            state.unpublished_public_keys[id],
        ) == Some(state.private_keys[id]),
{
    lemma_newest_exists(state.unpublished_public_keys, state.unpublished_public_keys[id], id);
}

/// Saving a store and restoring it leaves the published keys out of the
/// index: where the index was sound and complete before, the public key of
/// a key that is held but not unpublished resolves to nothing afterwards.
pub proof fn lemma_pickle_round_trip_forgets_published(state: OneTimeKeysView, id: u64)
    requires
        state.index_sound(),
        state.index_complete(),
        state.unpublished_sound(),
        state.private_keys.contains_key(id),
        !state.unpublished_public_keys.contains_key(id),
    ensures
        OneTimeKeysView::from_pickle(state.to_pickle()).private_keys.contains_key(id),
        OneTimeKeysView::from_pickle(state.to_pickle()).secret_key(state.public_key_of(id))
            is None,
{
    let restored = OneTimeKeysView::from_pickle(state.to_pickle());
    let public = state.public_key_of(id);
    if restored.reverse_public_keys.contains_key(public) {
        let other = choose|other: u64| #[trigger]
            state.unpublished_public_keys.contains_key(other)
                && state.unpublished_public_keys[other] == public;
        assert(state.private_keys.contains_key(other));
    }
}

/// Saving a consistent store and restoring it gives a consistent store.
pub proof fn lemma_pickle_round_trip_is_consistent(state: OneTimeKeysView)
    requires
        state.consistent(),
    ensures
        OneTimeKeysView::from_pickle(state.to_pickle()).consistent(),
{
    let restored = OneTimeKeysView::from_pickle(state.to_pickle());
    let public_of = |id: u64| state.unpublished_public_keys[id];
    assert forall|public: Seq<u8>| #[trigger]
        restored.reverse_public_keys.contains_key(public) implies {
        let held = restored.reverse_public_keys[public];
        restored.private_keys.contains_key(held) && restored.public_key_of(held) == public
    } by {
        let id = choose|id: u64| #[trigger]
            state.unpublished_public_keys.contains_key(id) && state.unpublished_public_keys[id]
                == public;
        lemma_newest_exists(state.unpublished_public_keys, public, id);
        assert(state.unpublished_public_keys.contains_key(restored.reverse_public_keys[public]));
    }
    state.unpublished_public_keys.dom().lemma_map_finite(public_of);
    vstd::set_lib::lemma_len_subset(
        restored.reverse_public_keys.dom(),
        state.unpublished_public_keys.dom().map(public_of),
    );
}

/// Going through ascending identifiers, the index built so far holds the
/// public keys met so far, each with the last identifier that held it.
proof fn lemma_index_up_to_holds_last(public_keys: Map<u64, Seq<u8>>, ids: Seq<u64>)
    requires
        is_ascending(ids),
    ensures
        forall|public: Seq<u8>| #[trigger]
            index_up_to(public_keys, ids).contains_key(public) <==> exists|i: int|
                0 <= i < ids.len() && #[trigger] public_keys[ids[i]] == public,
        forall|public: Seq<u8>| #[trigger]
            index_up_to(public_keys, ids).contains_key(public) ==> {
                let id = index_up_to(public_keys, ids)[public];
                &&& ids.contains(id)
                &&& public_keys[id] == public
                &&& forall|j: int|
                    0 <= j < ids.len() && #[trigger] public_keys[ids[j]] == public ==> ids[j]
                        <= id
            },
    decreases ids.len(),
{
    if ids.len() > 0 {
        let front = ids.drop_last();
        let last = ids.last();
        lemma_index_up_to_holds_last(public_keys, front);
        let before = index_up_to(public_keys, front);
        let after = index_up_to(public_keys, ids);
        assert forall|public: Seq<u8>|
            (exists|i: int|
                0 <= i < ids.len() && #[trigger] public_keys[ids[i]]
                    == public) implies #[trigger] after.contains_key(public) by {
            let i = choose|i: int| 0 <= i < ids.len() && #[trigger] public_keys[ids[i]] == public;
            if i < front.len() {
                assert(public_keys[front[i]] == public);
            }
        }
        assert forall|public: Seq<u8>| #[trigger] after.contains_key(public) implies {
            let id = after[public];
            &&& ids.contains(id)
            &&& public_keys[id] == public
            &&& forall|j: int|
                0 <= j < ids.len() && #[trigger] public_keys[ids[j]] == public ==> ids[j] <= id
        } by {
            let id = after[public];
            if public == public_keys[last] {
                assert(ids[ids.len() - 1] == id);
            } else {
                assert(before.contains_key(public));
                let i = choose|i: int| 0 <= i < front.len() && front[i] == id;
                assert(ids[i] == id);
                assert forall|j: int|
                    0 <= j < ids.len() && #[trigger] public_keys[ids[j]] == public implies ids[j]
                    <= id by {
                    assert(j < front.len());
                    assert(public_keys[front[j]] == public);
                }
            }
        }
    }
}

/// Going through every identifier of a map in ascending order builds the
/// index over the map.
pub proof fn lemma_index_up_to_is_index_over(public_keys: Map<u64, Seq<u8>>, ids: Seq<u64>)
    requires
        is_ascending(ids),
        forall|id: u64| ids.contains(id) <==> public_keys.contains_key(id),
    ensures
        index_up_to(public_keys, ids) == index_over(public_keys),
{
    lemma_index_up_to_holds_last(public_keys, ids);
    let built = index_up_to(public_keys, ids);
    let index = index_over(public_keys);
    assert forall|public: Seq<u8>| built.contains_key(public) <==> index.contains_key(
        public,
    ) by {
        if built.contains_key(public) {
            let i = choose|i: int| 0 <= i < ids.len() && #[trigger] public_keys[ids[i]] == public;
            assert(ids.contains(ids[i]));
            assert(public_keys.contains_key(ids[i]));
        }
        if index.contains_key(public) {
            let id = choose|id: u64| #[trigger]
                public_keys.contains_key(id) && public_keys[id] == public;
            assert(ids.contains(id));
            let i = choose|i: int| 0 <= i < ids.len() && ids[i] == id;
            assert(public_keys[ids[i]] == public);
        }
    }
    assert forall|public: Seq<u8>| #[trigger] built.contains_key(public) implies built[public]
        == index[public] by {
        let id = built[public];
        assert forall|other: u64|
            public_keys.contains_key(other) && public_keys[other] == public implies other
            <= id by {
            assert(ids.contains(other));
            let j = choose|j: int| 0 <= j < ids.len() && ids[j] == other;
            assert(public_keys[ids[j]] == public);
        }
        assert(is_newest_for(public_keys, public, id));
        let chosen = index[public];
        assert(is_newest_for(public_keys, public, chosen));
        assert(chosen <= id && id <= chosen);
    }
}

} // verus!
