//! Reading the keys of an ordered map in their order.

use std::collections::BTreeMap;
use vstd::prelude::*;
use vstd::std_specs::btree::*;
use vstd::std_specs::cmp::OrdSpec;
use vstd::std_specs::iter::IteratorSpec;
use crate::model::{is_oldest, oldest};

verus! {

/// Whether the numbers of `ids` stand in strictly ascending order.
pub open spec fn is_ascending(ids: Seq<u64>) -> bool {
    forall|i: int, j: int| 0 <= i < j < ids.len() ==> ids[i] < ids[j]
}

/// The keys of `map`, each once, in ascending order.
pub fn ascending_keys<V>(map: &BTreeMap<u64, V>) -> (keys: Vec<u64>)
    ensures
        is_ascending(keys@),
        forall|id: u64| keys@.contains(id) <==> map@.contains_key(id),
{
    let mut keys: Vec<u64> = Vec::new();
    for id in iter: map.keys()
        invariant
            iter.seq() == map.keys().remaining(),
            keys@.len() == iter.index(),
            forall|i: int| 0 <= i < keys@.len() ==> keys@[i] == *iter.seq()[i],
    {
        keys.push(*id);
    }
    proof {
        broadcast use vstd::laws_cmp::group_laws_cmp;

        let all = map.keys().remaining();
        assert(keys@ =~= all.unref());
        axiom_increasing_seq_meaning::<&u64>(all);
        assert forall|i: int, j: int| 0 <= i < j < keys@.len() implies keys@[i] < keys@[j] by {
            assert(OrdSpec::cmp_spec(&all[i], &all[j]) is Less);
        }
    }
    keys
}

/// The smallest key of `map`, if it has a key at all.
pub fn first_key<V>(map: &BTreeMap<u64, V>) -> (first: Option<u64>)
    ensures
        first == oldest(map@.dom()),
{
    for id in keys: map.keys()
        invariant
            keys.index() == 0,
    {
        proof {
            broadcast use vstd::laws_cmp::group_laws_cmp;

            let all = keys.seq();
            axiom_increasing_seq_meaning::<&u64>(all);
            assert forall|other: u64| map@.dom().contains(other) implies *id <= other by {
                assert(all.unref().contains(other));
                let j = choose|j: int| 0 <= j < all.unref().len() && all.unref()[j] == other;
                if j > 0 {
                    assert(OrdSpec::cmp_spec(&all[0], &all[j]) is Less);
                }
            }
            assert(is_oldest(map@.dom(), *id));
        }
        return Some(*id);
    }
    None
}

} // verus!
