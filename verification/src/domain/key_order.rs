//! Entities keyed by their 128-bit id in a `BTreeMap`, visited in ascending
//! key order as the map's iterators yield them.

use std::collections::BTreeMap;

use vstd::prelude::*;
use vstd::std_specs::iter::IteratorSpec;

verus! {

broadcast use vstd::std_specs::btree::group_btree_axioms;

pub open spec fn ascending(s: Seq<u128>) -> bool {
    forall|i: int, j: int| 0 <= i < j < s.len() ==> s[i] < s[j]
}

/// The keys of a map in ascending order.
pub open spec fn key_order<V>(m: Map<u128, V>) -> Seq<u128> {
    choose|s: Seq<u128>| ascending(s) && s.to_set() == m.dom()
}

/// Two ascending sequences with the same elements are the same sequence.
pub proof fn lemma_ascending_unique(a: Seq<u128>, b: Seq<u128>)
    requires
        ascending(a),
        ascending(b),
        a.to_set() == b.to_set(),
    ensures
        a == b,
    decreases a.len(),
{
    if a.len() == 0 {
        if b.len() > 0 {
            assert(b.to_set().contains(b[0]));
        }
        assert(a =~= b);
    } else if b.len() == 0 {
        assert(a.to_set().contains(a[0]));
    } else {
        assert(b.to_set().contains(a[0]));
        assert(a.to_set().contains(b[0]));
        let a1 = a.drop_first();
        let b1 = b.drop_first();
        assert forall|x: u128| a1.to_set().contains(x) implies b1.to_set().contains(x) by {
            let k = choose|k: int| 0 <= k < a1.len() && a1[k] == x;
            assert(a.to_set().contains(x));
            let m = choose|m: int| 0 <= m < b.len() && b[m] == x;
            assert(a[k + 1] == x);
            assert(m != 0);
            assert(b1[m - 1] == x);
        }
        assert forall|x: u128| b1.to_set().contains(x) implies a1.to_set().contains(x) by {
            let k = choose|k: int| 0 <= k < b1.len() && b1[k] == x;
            assert(b.to_set().contains(x));
            let m = choose|m: int| 0 <= m < a.len() && a[m] == x;
            assert(b[k + 1] == x);
            assert(m != 0);
            assert(a1[m - 1] == x);
        }
        assert(a1.to_set() =~= b1.to_set());
        lemma_ascending_unique(a1, b1);
        assert(a =~= b1.insert(0, b[0]));
        assert(b =~= b1.insert(0, b[0]));
    }
}

/// `key_order` lists each key of a finite map once, ascending.
pub proof fn lemma_key_order<V>(m: Map<u128, V>, witness: Seq<u128>)
    requires
        ascending(witness),
        witness.to_set() == m.dom(),
    ensures
        key_order(m) == witness,
        forall|k: u128| m.contains_key(k) <==> key_order(m).contains(k),
{
    lemma_ascending_unique(witness, key_order(m));
    assert forall|k: u128| m.contains_key(k) <==> key_order(m).contains(k) by {
        assert(witness.to_set().contains(k) <==> witness.contains(k));
    }
}

/// 128-bit keys obey the laws of a total order, on which the map's
/// specifications rest.
pub open spec fn keys_ordered() -> bool {
    vstd::laws_cmp::obeys_cmp::<u128>()
}

pub proof fn lemma_keys_ordered()
    ensures
        keys_ordered(),
{
    broadcast use vstd::laws_cmp::group_laws_cmp;

}

spec fn precedes<K: Ord>(s: Seq<K>, i: int, j: int) -> bool {
    vstd::std_specs::cmp::OrdSpec::cmp_spec(&s[i], &s[j]) is Less
}

proof fn lemma_increasing_keys(rem: Seq<&u128>)
    requires
        vstd::std_specs::btree::increasing_seq(rem),
    ensures
        ascending(rem.unref()),
{
    broadcast use vstd::laws_cmp::group_laws_cmp;

    assert(vstd::laws_cmp::obeys_cmp::<u128>());
    assert(vstd::laws_cmp::obeys_cmp::<&u128>());
    vstd::std_specs::btree::axiom_increasing_seq_meaning::<&u128>(rem);
    assert forall|i: int, j: int| 0 <= i < j < rem.unref().len() implies rem.unref()[i]
        < rem.unref()[j] by {
        assert(precedes(rem, i, j));
    }
}

/// The keys of a map, ascending, as the map's key iterator yields them.
pub fn keys_in_order<V>(m: &BTreeMap<u128, V>) -> (r: Vec<u128>)
    ensures
        r@ == key_order(m@),
        ascending(r@),
        forall|k: u128| m@.contains_key(k) <==> r@.contains(k),
{
    let mut r: Vec<u128> = Vec::new();
    let ks = m.keys();
    let ghost all = IteratorSpec::remaining(&ks).unref();
    proof {
        lemma_increasing_keys(IteratorSpec::remaining(&ks));
    }
    for k in it: ks
        invariant
            it.seq() == IteratorSpec::remaining(&ks),
            r@ == it.seq().take(it.index() as int).unref(),
    {
        r.push(*k);
        proof {
            assert(r@ =~= it.seq().take(it.index() + 1).unref());
        }
    }
    proof {
        assert(r@ =~= all);
        assert(all.to_set() =~= m@.dom());
        lemma_key_order(m@, all);
    }
    r
}

} // verus!
