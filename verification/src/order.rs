//! Key order of the maps the library walks: coordinates and bin numbers
//! come out of a map's iterator in strictly increasing order.

use crate::recording::sorted_dies;
use crate::wafer::DieState;
use std::collections::BTreeMap;
use vstd::prelude::*;
use vstd::std_specs::cmp::OrdSpec;
use vstd::std_specs::iter::IteratorSpec;

verus! {

broadcast use {vstd::std_specs::btree::group_btree_axioms, vstd::laws_cmp::group_laws_cmp};

pub proof fn lemma_keys_ordered()
    ensures
        vstd::laws_cmp::obeys_cmp::<(i32, i32)>(),
        vstd::laws_cmp::obeys_cmp::<u16>(),
{
}

/// The map's entries as the iterator hands them out are sorted and complete.
pub proof fn lemma_dies_sorted(m: &BTreeMap<(i32, i32), DieState>)
    requires
        m.iter().remaining().no_duplicates(),
        vstd::std_specs::btree::increasing_seq(m.iter().remaining().map_values(|kv: (&(i32, i32), &DieState)| *kv.0)),
    ensures
        sorted_dies(m.iter().remaining().unref(), m@),
{
    lemma_keys_ordered();
    let r = m.iter().remaining();
    let s = r.unref();
    let ks = r.map_values(|kv: (&(i32, i32), &DieState)| *kv.0);
    assert forall|i: int, j: int| 0 <= i < j < s.len() implies (s[i].0.0 < s[j].0.0 || (s[i].0.0 == s[j].0.0 && s[i].0.1 < s[j].0.1)) by {
        assert(ks[i] == s[i].0 && ks[j] == s[j].0);
        assert(ks[i].cmp_spec(&ks[j]) is Less);
    }
}


/// `es` lists a count map's entries without repetition, in strictly
/// increasing key order.
pub open spec fn sorted_bins(es: Seq<(u16, u32)>, m: Map<u16, u32>) -> bool {
    &&& es.to_set() == m.kv_pairs()
    &&& forall|i: int, j: int| 0 <= i < j < es.len() ==> es[i].0 < es[j].0
}

/// A count map's entries as its iterator hands them out are sorted and
/// complete.
pub proof fn lemma_bins_sorted(m: &BTreeMap<u16, u32>)
    requires
        m.iter().remaining().no_duplicates(),
        vstd::std_specs::btree::increasing_seq(m.iter().remaining().map_values(|kv: (&u16, &u32)| *kv.0)),
    ensures
        sorted_bins(m.iter().remaining().unref(), m@),
{
    lemma_keys_ordered();
    let r = m.iter().remaining();
    let s = r.unref();
    let ks = r.map_values(|kv: (&u16, &u32)| *kv.0);
    assert forall|i: int, j: int| 0 <= i < j < s.len() implies s[i].0 < s[j].0 by {
        assert(ks[i] == s[i].0 && ks[j] == s[j].0);
        assert(ks[i].cmp_spec(&ks[j]) is Less);
    }
}

} // verus!
