//! Listing the entries of an ordered map.
use std::collections::BTreeMap;
use vstd::prelude::*;
use vstd::std_specs::iter::IteratorSpec;

verus! {

/// Whether `es` lists the entries of `m`, each key once.
pub open spec fn entries_of(es: Seq<(u64, i128)>, m: Map<u64, i128>) -> bool {
    &&& es.len() == m.len()
    &&& forall|i: int| 0 <= i < es.len() ==> m.contains_key((#[trigger] es[i]).0) && m[es[i].0] == es[i].1
    &&& forall|k: u64| m.contains_key(k) ==> exists|i: int| 0 <= i < es.len() && (#[trigger] es[i]).0 == k
    &&& forall|i: int, j: int| 0 <= i < es.len() && 0 <= j < es.len() && i != j ==> (#[trigger] es[i]).0 != (#[trigger] es[j]).0
}

/// The entries of a map, each key once.
pub fn map_entries(m: &BTreeMap<u64, i128>) -> (v: Vec<(u64, i128)>)
    ensures
        entries_of(v@, m@),
{
    let mut v: Vec<(u64, i128)> = Vec::new();
    for kv in it: m.iter()
        invariant
            v@.len() == it.index(),
            forall|i: int| 0 <= i < v@.len() ==> (#[trigger] v@[i]).0 == *it.seq()[i].0 && v@[i].1 == *it.seq()[i].1,
            it.seq() == vstd::std_specs::btree::spec_btree_map_iter(m).remaining(),
    {
        let (k, val) = kv;
        v.push((*k, *val));
    }
    proof {
        let rem = vstd::std_specs::btree::spec_btree_map_iter(m).remaining();
        assert(v@.len() == rem.len());
        assert forall|k: u64| m@.contains_key(k) implies exists|i: int| 0 <= i < v@.len() && (#[trigger] v@[i]).0 == k by {
            assert(rem.contains((&k, &m@[k])));
            let i = choose|i: int| 0 <= i < rem.len() && rem[i] == (&k, &m@[k]);
            assert(v@[i].0 == k);
        }
        assert(rem.no_duplicates());
        assert forall|i: int, j: int| 0 <= i < v@.len() && 0 <= j < v@.len() && i != j implies (#[trigger] v@[i]).0 != (#[trigger] v@[j]).0 by {
            if v@[i].0 == v@[j].0 {
                assert(*rem[i].1 == m@[v@[i].0]);
                assert(*rem[j].1 == m@[v@[j].0]);
                assert(rem[i] == rem[j]);
            }
        }
    }
    v
}

} // verus!
