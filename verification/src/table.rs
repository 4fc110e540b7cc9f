//! Walking hash tables. A table hands its keys out in an order of its own, so
//! what is known of a walk is that every key comes once.

use std::collections::{HashMap, HashSet};
use std::hash::Hash;
use vstd::prelude::*;
use vstd::std_specs::hash::obeys_key_model;
use vstd::std_specs::iter::IteratorSpec;

verus! {

broadcast use vstd::std_specs::hash::group_hash_axioms;

/// That `list` holds the members of `members`, each of them once.
pub open spec fn enumerates<K>(list: Seq<K>, members: Set<K>) -> bool {
    &&& list.no_duplicates()
    &&& forall|k: K| members.contains(k) <==> list.contains(k)
}

/// What a prefix of a list holds, once it is one longer.
pub proof fn lemma_prefix_grows<K>(list: Seq<K>, n: int)
    requires
        0 <= n < list.len(),
    ensures
        list.take(n + 1) == list.take(n).push(list[n]),
        forall|q: K| #[trigger]
            list.take(n + 1).contains(q) <==> (list.take(n).contains(q) || q == list[n]),
        list.no_duplicates() ==> !list.take(n).contains(list[n]),
{
    let grown = list.take(n + 1);
    assert(grown =~= list.take(n).push(list[n]));
    assert forall|q: K| #[trigger] grown.contains(q) <==> (list.take(n).contains(q) || q
        == list[n]) by {
        if grown.contains(q) {
            let i = choose|i: int| 0 <= i < grown.len() && grown[i] == q;
            if i < n {
                assert(list.take(n)[i] == q);
            }
        }
        if list.take(n).contains(q) {
            let i = choose|i: int| 0 <= i < list.take(n).len() && list.take(n)[i] == q;
            assert(grown[i] == q);
        }
        if q == list[n] {
            assert(grown[n] == q);
        }
    }
    if list.no_duplicates() && list.take(n).contains(list[n]) {
        let i = choose|i: int| 0 <= i < list.take(n).len() && list.take(n)[i] == list[n];
        assert(list[i] == list[n]);
    }
}

/// What a list holds once one more item has been pushed, and that a list
/// without duplicates stays so when the item is new to it.
pub proof fn lemma_push_holds<K>(list: Seq<K>, item: K)
    ensures
        forall|q: K| #[trigger] list.push(item).contains(q) <==> (list.contains(q) || q == item),
        list.no_duplicates() && !list.contains(item) ==> list.push(item).no_duplicates(),
{
    let grown = list.push(item);
    assert forall|q: K| #[trigger] grown.contains(q) <==> (list.contains(q) || q == item) by {
        if grown.contains(q) {
            let i = choose|i: int| 0 <= i < grown.len() && grown[i] == q;
            if i < list.len() {
                assert(list[i] == q);
            }
        }
        if list.contains(q) {
            let i = choose|i: int| 0 <= i < list.len() && list[i] == q;
            assert(grown[i] == q);
        }
        if q == item {
            assert(grown[list.len() as int] == q);
        }
    }
    if list.no_duplicates() && !list.contains(item) {
        assert forall|i: int, j: int|
            0 <= i < grown.len() && 0 <= j < grown.len() && i != j implies grown[i] != grown[j] by {
            if i < list.len() && j >= list.len() {
                assert(list.contains(list[i]));
            } else if j < list.len() && i >= list.len() {
                assert(list.contains(list[j]));
            }
        }
    }
}

/// The keys of a map, each of them once, in the order in which the map hands
/// them out.
pub fn key_list<K: Copy + Eq + Hash, V>(map: &HashMap<K, V>) -> (keys: Vec<K>)
    requires
        obeys_key_model::<K>(),
    ensures
        enumerates(keys@, map@.dom()),
{
    let mut keys: Vec<K> = Vec::new();
    let ghost walk = vstd::std_specs::hash::spec_keys_iter(map).remaining();
    for key in it: map.keys()
        invariant
            it.seq() == walk,
            keys@.len() == it.index(),
            forall|j: int| 0 <= j < keys@.len() ==> keys@[j] == *walk[j],
    {
        keys.push(*key);
    }
    proof {
        assert(keys@ =~= walk.unref());
        assert forall|i: int, j: int|
            0 <= i < keys@.len() && 0 <= j < keys@.len() && i != j implies keys@[i] != keys@[j] by {
            assert(walk[i] != walk[j]);
        }
        assert forall|k: K| map@.dom().contains(k) <==> keys@.contains(k) by {
            assert(keys@.to_set().contains(k) <==> keys@.contains(k));
        }
    }
    keys
}

/// The members of a set, each of them once, in the order in which the set
/// hands them out.
pub fn member_list<K: Copy + Eq + Hash>(set: &HashSet<K>) -> (members: Vec<K>)
    requires
        obeys_key_model::<K>(),
    ensures
        enumerates(members@, set@),
{
    let mut members: Vec<K> = Vec::new();
    let ghost walk = vstd::std_specs::hash::spec_hash_keys_iter(set).remaining();
    for member in it: set.iter()
        invariant
            it.seq() == walk,
            members@.len() == it.index(),
            forall|j: int| 0 <= j < members@.len() ==> members@[j] == *walk[j],
    {
        members.push(*member);
    }
    proof {
        assert(members@ =~= walk.unref());
        assert forall|i: int, j: int|
            0 <= i < members@.len() && 0 <= j < members@.len() && i != j implies members@[i]
            != members@[j] by {
            assert(walk[i] != walk[j]);
        }
        assert forall|k: K| set@.contains(k) <==> members@.contains(k) by {
            assert(members@.to_set().contains(k) <==> members@.contains(k));
        }
    }
    members
}

} // verus!
