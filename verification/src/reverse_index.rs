//! A map from public keys to key identifiers, kept as a list of entries in
//! which no public key occurs twice.

use vstd::prelude::*;
use crate::keys::Curve25519PublicKey;

verus! {

/// The index from a public key to the identifier of the key pair it belongs
/// to.
pub struct ReverseIndex {
    entries: Vec<(Curve25519PublicKey, u64)>,
}

/// The public keys of `entries`, in the order of the entries.
spec fn entry_keys(entries: Seq<(Curve25519PublicKey, u64)>) -> Seq<Seq<u8>> {
    entries.map_values(|e: (Curve25519PublicKey, u64)| e.0@)
}

/// The map that a duplicate-free list of entries stands for.
spec fn entries_map(entries: Seq<(Curve25519PublicKey, u64)>) -> Map<Seq<u8>, u64> {
    Map::new(
        |public: Seq<u8>| entry_keys(entries).contains(public),
        |public: Seq<u8>| entries[entry_keys(entries).index_of(public)].1,
    )
}

/// In a duplicate-free list every entry is what the map holds for its key.
proof fn lemma_entries_map_holds_entries(entries: Seq<(Curve25519PublicKey, u64)>)
    requires
        entry_keys(entries).no_duplicates(),
    ensures
        forall|i: int|
            0 <= i < entries.len() ==> entries_map(entries).contains_key(#[trigger] entries[i].0@)
                && entries_map(entries)[entries[i].0@] == entries[i].1,
        forall|public: Seq<u8>| #[trigger]
            entries_map(entries).contains_key(public) ==> exists|i: int|
                0 <= i < entries.len() && #[trigger] entries[i].0@ == public,
{
    let keys = entry_keys(entries);
    assert forall|i: int| 0 <= i < entries.len() implies entries_map(entries).contains_key(
        #[trigger] entries[i].0@,
    ) && entries_map(entries)[entries[i].0@] == entries[i].1 by {
        assert(keys[i] == entries[i].0@);
        let j = keys.index_of(entries[i].0@);
        assert(0 <= j < keys.len() && keys[j] == keys[i]);
    }
}

/// A map that holds exactly the entries of a duplicate-free list is the map
/// the list stands for.
proof fn lemma_entries_map_is(entries: Seq<(Curve25519PublicKey, u64)>, map: Map<Seq<u8>, u64>)
    requires
        entry_keys(entries).no_duplicates(),
        forall|i: int|
            0 <= i < entries.len() ==> map.contains_key(#[trigger] entries[i].0@)
                && map[entries[i].0@] == entries[i].1,
        forall|public: Seq<u8>| #[trigger]
            map.contains_key(public) ==> exists|i: int|
                0 <= i < entries.len() && #[trigger] entries[i].0@ == public,
    ensures
        entries_map(entries) == map,
{
    lemma_entries_map_holds_entries(entries);
}

/// The map of a duplicate-free list has as many entries as the list.
proof fn lemma_entries_map_len(entries: Seq<(Curve25519PublicKey, u64)>)
    requires
        entry_keys(entries).no_duplicates(),
    ensures
        entries_map(entries).dom().finite(),
        entries_map(entries).len() == entries.len(),
{
    let keys = entry_keys(entries);
    keys.unique_seq_to_set();
    vstd::seq_lib::seq_to_set_is_finite(keys);
}

impl ReverseIndex {
    /// No public key occurs in two entries.
    #[verifier::type_invariant]
    spec fn well_formed(self) -> bool {
        entry_keys(self.entries@).no_duplicates()
    }

    /// An index has finitely many entries.
    pub proof fn lemma_view_is_finite(self)
        ensures
            self@.dom().finite(),
    {
        vstd::seq_lib::seq_to_set_is_finite(entry_keys(self.entries@));
    }

    /// The index with no entry.
    pub fn new() -> (index: Self)
        ensures
            index@ == Map::<Seq<u8>, u64>::empty(),
    {
        ReverseIndex { entries: Vec::new() }
    }

    /// The number of entries.
    pub fn len(&self) -> (len: usize)
        ensures
            self@.dom().finite(),
            len == self@.len(),
    {
        proof {
            use_type_invariant(self);
            lemma_entries_map_len(self.entries@);
        }
        self.entries.len()
    }

    /// Whether the index has no entry.
    pub fn is_empty(&self) -> (empty: bool)
        ensures
            empty == (self@.len() == 0),
            self@.dom().finite(),
    {
        self.len() == 0
    }

    /// The position of the entry for `public`, if there is one.
    fn position(&self, public: &Curve25519PublicKey) -> (position: Option<usize>)
        ensures
            match position {
                Some(i) => i < self.entries@.len() && self.entries@[i as int].0@ == public@,
                None => !self@.contains_key(public@),
            },
    {
        let mut i: usize = 0;
        while i < self.entries.len()
            invariant
                i <= self.entries@.len(),
                forall|j: int| 0 <= j < i ==> self.entries@[j].0@ != public@,
            decreases self.entries@.len() - i,
        {
            if self.entries[i].0 == *public {
                return Some(i);
            }
            i += 1;
        }
        None
    }

    /// The identifier recorded for `public`.
    pub fn get(&self, public: &Curve25519PublicKey) -> (id: Option<u64>)
        ensures
            id == (if self@.contains_key(public@) {
                Some(self@[public@])
            } else {
                None
            }),
    {
        proof {
            use_type_invariant(self);
        }
        match self.position(public) {
            Some(i) => {
                proof {
                    lemma_entries_map_holds_entries(self.entries@);
                }
                Some(self.entries[i].1)
            },
            None => None,
        }
    }

    /// Records `id` for `public`, in place of what was recorded for it
    /// before.
    pub fn insert(&mut self, public: Curve25519PublicKey, id: u64)
        ensures
            final(self)@ == old(self)@.insert(public@, id),
    {
        proof {
            use_type_invariant(&*self);
        }
        let position = self.position(&public);
        let mut entries = Vec::new();
        core::mem::swap(&mut entries, &mut self.entries);
        let ghost before = entries@;
        let ghost target = entries_map(before).insert(public@, id);
        proof {
            lemma_entries_map_holds_entries(before);
        }
        match position {
            Some(i) => {
                entries.set(i, (public, id));
                proof {
                    assert(entry_keys(entries@) =~= entry_keys(before));
                    assert forall|j: int| 0 <= j < entries@.len() implies target.contains_key(
                        #[trigger] entries@[j].0@,
                    ) && target[entries@[j].0@] == entries@[j].1 by {
                        if j != i {
                            assert(entry_keys(before)[j] != entry_keys(before)[i as int]);
                            assert(entries@[j] == before[j]);
                        }
                    }
                    lemma_entries_map_is(entries@, target);
                }
            },
            None => {
                entries.push((public, id));
                proof {
                    assert(entry_keys(entries@) =~= entry_keys(before).push(public@));
                    assert forall|p: Seq<u8>| #[trigger] target.contains_key(p) implies exists|
                        j: int,
                    |
                        0 <= j < entries@.len() && #[trigger] entries@[j].0@ == p by {
                        if p == public@ {
                            assert(entries@[before.len() as int].0@ == p);
                        } else {
                            let k = choose|k: int|
                                0 <= k < before.len() && #[trigger] before[k].0@ == p;
                            assert(entries@[k].0@ == p);
                        }
                    }
                    lemma_entries_map_is(entries@, target);
                }
            },
        }
        self.entries = entries;
    }

    /// Removes the entry for `public` and returns the identifier it held.
    pub fn remove(&mut self, public: &Curve25519PublicKey) -> (id: Option<u64>)
        ensures
            final(self)@ == old(self)@.remove(public@),
            id == (if old(self)@.contains_key(public@) {
                Some(old(self)@[public@])
            } else {
                None
            }),
    {
        proof {
            use_type_invariant(&*self);
        }
        match self.position(public) {
            Some(i) => {
                let mut entries = Vec::new();
                core::mem::swap(&mut entries, &mut self.entries);
                let ghost before = entries@;
                let ghost target = entries_map(before).remove(public@);
                proof {
                    lemma_entries_map_holds_entries(before);
                }
                let entry = entries.remove(i);
                proof {
                    assert(entry_keys(entries@) =~= entry_keys(before).remove(i as int));
                    assert forall|j: int| 0 <= j < entries@.len() implies target.contains_key(
                        #[trigger] entries@[j].0@,
                    ) && target[entries@[j].0@] == entries@[j].1 by {
                        let k = if j < i { j } else { j + 1 };
                        assert(entries@[j] == before[k]);
                        assert(entry_keys(before)[k] != entry_keys(before)[i as int]);
                    }
                    assert forall|p: Seq<u8>| #[trigger] target.contains_key(p) implies exists|
                        j: int,
                    |
                        0 <= j < entries@.len() && #[trigger] entries@[j].0@ == p by {
                        let k = choose|k: int|
                            0 <= k < before.len() && #[trigger] before[k].0@ == p;
                        let j = if k < i { k } else { k - 1 };
                        assert(entries@[j] == before[k]);
                    }
                    lemma_entries_map_is(entries@, target);
                }
                self.entries = entries;
                Some(entry.1)
            },
            None => None,
        }
    }
}

impl Clone for ReverseIndex {
    fn clone(&self) -> (copy: Self)
        ensures
            copy@ == self@,
    {
        proof {
            use_type_invariant(self);
        }
        let mut entries: Vec<(Curve25519PublicKey, u64)> = Vec::new();
        let mut i: usize = 0;
        while i < self.entries.len()
            invariant
                i <= self.entries@.len(),
                entries@ == self.entries@.take(i as int),
            decreases self.entries@.len() - i,
        {
            entries.push(self.entries[i]);
            i += 1;
        }
        assert(entries@ =~= self.entries@);
        ReverseIndex { entries }
    }
}

impl View for ReverseIndex {
    type V = Map<Seq<u8>, u64>;

    closed spec fn view(&self) -> Map<Seq<u8>, u64> {
        entries_map(self.entries@)
    }
}

} // verus!
