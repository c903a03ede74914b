//! the keys of an ordered collection, as a list from the lowest up.

use std::collections::{BTreeMap, BTreeSet};
use vstd::prelude::*;

verus! {

broadcast use {vstd::laws_cmp::group_laws_cmp, vstd::std_specs::btree::group_btree_axioms};

/// every item is above the one before it.
pub open spec fn ascending(items: Seq<u32>) -> bool {
    forall|i: int, j: int| 0 <= i < j < items.len() ==> items[i] < items[j]
}

/// whether items lists exactly the members of set, from the lowest up.
pub open spec fn lists(items: Seq<u32>, set: Set<u32>) -> bool {
    &&& ascending(items)
    &&& forall|item: u32| items.contains(item) <==> set.contains(item)
}

/// the keys of map, from the lowest up.
pub fn sorted_keys<V>(map: &BTreeMap<u32, V>) -> (keys: Vec<u32>)
    ensures
        lists(keys@, map@.dom()),
{
    assert(vstd::laws_cmp::obeys_cmp::<u32>());
    let mut keys: Vec<u32> = Vec::new();
    let iter = map.iter();
    let ghost pairs = vstd::std_specs::iter::IteratorSpec::remaining(&iter);
    let ghost expected = pairs.map_values(|pair: (&u32, &V)| *pair.0);
    assert(vstd::std_specs::btree::increasing_seq(expected));
    for pair in walk: iter
        invariant
            walk.seq() == pairs,
            keys.len() == walk.index(),
            forall|i: int| 0 <= i < keys.len() ==> keys[i] == *pairs[i].0,
    {
        keys.push(*pair.0);
    }
    assert(keys@ =~= expected);
    assert forall|i: int, j: int| 0 <= i < j < keys.len() implies keys[i] < keys[j] by {
        assert(vstd::std_specs::cmp::OrdSpec::cmp_spec(&expected[i], &expected[j]) is Less);
    }
    assert forall|key: u32| keys@.contains(key) <==> map@.dom().contains(key) by {
        if map@.contains_key(key) {
            assert(pairs.contains((&key, &map@[key])));
            let i = pairs.index_of((&key, &map@[key]));
            assert(keys@[i] == key);
        }
        if keys@.contains(key) {
            let i = keys@.index_of(key);
            assert(map@.contains_key(*pairs[i].0));
        }
    }
    keys
}

/// the members of set, from the lowest up.
pub fn sorted_items(set: &BTreeSet<u32>) -> (items: Vec<u32>)
    ensures
        lists(items@, set@),
{
    assert(vstd::laws_cmp::obeys_cmp::<u32>());
    assert(vstd::laws_cmp::obeys_cmp::<&u32>());
    let mut items: Vec<u32> = Vec::new();
    let iter = set.iter();
    let ghost members = vstd::std_specs::iter::IteratorSpec::remaining(&iter);
    for item in walk: iter
        invariant
            walk.seq() == members,
            items.len() == walk.index(),
            forall|i: int| 0 <= i < items.len() ==> items[i] == *members[i],
    {
        items.push(*item);
    }
    assert(vstd::std_specs::btree::increasing_seq(members));
    assert forall|i: int, j: int| 0 <= i < j < items.len() implies items[i] < items[j] by {
        assert(vstd::std_specs::cmp::OrdSpec::cmp_spec(&members[i], &members[j]) is Less);
    }
    assert(members.unref() =~= items@);
    assert forall|item: u32| items@.contains(item) <==> set@.contains(item) by {
        assert(items@.to_set().contains(item) <==> set@.contains(item));
    }
    items
}

/// a set has one ascending list of its members.
pub proof fn lemma_lists_unique(a: Seq<u32>, b: Seq<u32>, set: Set<u32>)
    requires
        lists(a, set),
        lists(b, set),
    ensures
        a == b,
    decreases a.len(),
{
    if a.len() == 0 {
        if b.len() > 0 {
            assert(b.contains(b[0]));
            assert(a.contains(b[0]));
        }
        assert(a =~= b);
    } else {
        assert(a.contains(a.last()));
        assert(b.contains(a.last()));
        assert(b.len() > 0);
        assert(b.contains(b.last()));
        assert(a.contains(b.last()));
        let i = b.index_of(a.last());
        let j = a.index_of(b.last());
        assert(a.last() <= b.last() && b.last() <= a.last());
        let rest = set.remove(a.last());
        assert forall|item: u32| a.drop_last().contains(item) <==> rest.contains(item) by {
            if rest.contains(item) {
                let k = a.index_of(item);
                assert(a.drop_last()[k] == item);
            }
            if a.drop_last().contains(item) {
                let k = a.drop_last().index_of(item);
                assert(a[k] == item);
                assert(a.contains(item));
            }
        }
        assert forall|item: u32| b.drop_last().contains(item) <==> rest.contains(item) by {
            if rest.contains(item) {
                let k = b.index_of(item);
                assert(b.drop_last()[k] == item);
            }
            if b.drop_last().contains(item) {
                let k = b.drop_last().index_of(item);
                assert(b[k] == item);
                assert(b.contains(item));
            }
        }
        lemma_lists_unique(a.drop_last(), b.drop_last(), rest);
        assert(a =~= a.drop_last().push(a.last()));
        assert(b =~= b.drop_last().push(b.last()));
    }
}

/// the members of set, from the lowest up.
pub open spec fn listing(set: Set<u32>) -> Seq<u32> {
    choose|items: Seq<u32>| lists(items, set)
}

/// a list of the members of set is the listing of it.
pub proof fn lemma_listing(items: Seq<u32>, set: Set<u32>)
    requires
        lists(items, set),
    ensures
        listing(set) == items,
        lists(listing(set), set),
{
    lemma_lists_unique(listing(set), items, set);
}

/// every set of addresses has a listing.
pub proof fn law_listing(set: Set<u32>)
    ensures
        lists(listing(set), set),
{
    let items = lemma_some_listing(set, 0x1_0000_0000);
    assert(lists(items, set));
}

proof fn lemma_some_listing(set: Set<u32>, bound: nat) -> (items: Seq<u32>)
    requires
        bound <= 0x1_0000_0000,
        forall|item: u32| #[trigger] set.contains(item) ==> item < bound,
    ensures
        lists(items, set),
        items.len() == set.len(),
    decreases set.len(),
{
    crate::discover::lemma_addresses_finite(set);
    if set.len() == 0 {
        assert(set =~= Set::empty());
        Seq::empty()
    } else {
        let top = lemma_highest(set);
        let rest = set.remove(top);
        let before = lemma_some_listing(rest, top as nat);
        let items = before.push(top);
        assert forall|item: u32| items.contains(item) <==> set.contains(item) by {
            if set.contains(item) {
                if item == top {
                    assert(items[before.len() as int] == item);
                } else {
                    assert(before.contains(item));
                    assert(items[before.index_of(item)] == item);
                }
            }
            if items.contains(item) {
                let i = items.index_of(item);
                if i < before.len() {
                    assert(before.contains(item));
                }
            }
        }
        assert forall|i: int, j: int| 0 <= i < j < items.len() implies items[i] < items[j] by {
            assert(before.contains(before[i]));
        }
        items
    }
}

proof fn lemma_highest(set: Set<u32>) -> (top: u32)
    requires
        set.len() > 0,
        set.finite(),
    ensures
        set.contains(top),
        forall|item: u32| #[trigger] set.contains(item) ==> item <= top,
    decreases set.len(),
{
    let any = set.choose();
    let rest = set.remove(any);
    if rest.len() == 0 {
        assert forall|item: u32| #[trigger] set.contains(item) implies item <= any by {
            if item != any {
                assert(rest.contains(item));
                assert(rest =~= Set::empty());
            }
        }
        any
    } else {
        let top = lemma_highest(rest);
        assert forall|item: u32| #[trigger] set.contains(item) implies item <= (if any > top {
            any
        } else {
            top
        }) by {
            if item != any {
                assert(rest.contains(item));
            }
        }
        if any > top {
            any
        } else {
            top
        }
    }
}

} // verus!
