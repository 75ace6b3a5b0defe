//! Listings of what the hashed collections of the server hold.

use std::collections::HashMap;
use std::collections::HashSet;
use vstd::prelude::*;

verus! {

broadcast use vstd::std_specs::hash::group_hash_axioms;

/// Whether `list` names each member of `set` once and nothing else.
pub open spec fn lists<A>(list: Seq<A>, set: Set<A>) -> bool {
    list.no_duplicates() && forall|a: A| list.contains(a) <==> set.contains(a)
}

/// A list that names each member of a finite set once has the set's size.
pub proof fn lemma_lists_len<A>(list: Seq<A>, set: Set<A>)
    requires
        lists(list, set),
    ensures
        set.finite(),
        list.len() == set.len(),
{
    assert(list.to_set() =~= set);
    list.unique_seq_to_set();
}

/// The keys of a map, each once, in no stated order.
pub fn keys_of<V>(m: &HashMap<usize, V>) -> (r: Vec<usize>)
    ensures
        lists(r@, m@.dom()),
{
    let mut out: Vec<usize> = Vec::new();
    for k in it: m.keys()
        invariant
            it.seq().unref().to_set() == m@.dom(),
            it.seq().unref().no_duplicates(),
            out@.len() == it.index(),
            forall|i: int| 0 <= i < out@.len() ==> out@[i] == it.seq().unref()[i],
            forall|a: usize|
                m@.dom().contains(a) ==> out@.contains(a) || exists|j: int|
                    it.index() <= j < it.seq().len() && #[trigger] it.seq().unref()[j] == a,
    {
        let ghost before = out@;
        out.push(*k);
        proof {
            assert forall|a: usize| m@.dom().contains(a) implies out@.contains(a) || exists|j: int|
                it.index() + 1 <= j < it.seq().len() && #[trigger] it.seq().unref()[j] == a by {
                if before.contains(a) {
                    let i = choose|i: int| 0 <= i < before.len() && before[i] == a;
                    assert(out@[i] == a);
                } else {
                    let j = choose|j: int|
                        it.index() <= j < it.seq().len() && #[trigger] it.seq().unref()[j] == a;
                    if j == it.index() {
                        assert(out@[it.index()] == a);
                    }
                }
            }
        }
    }
    out
}

/// The members of a set, each once, in no stated order.
pub fn items_of(s: &HashSet<usize>) -> (r: Vec<usize>)
    ensures
        lists(r@, s@),
{
    let mut out: Vec<usize> = Vec::new();
    for k in it: s.iter()
        invariant
            it.seq().unref().to_set() == s@,
            it.seq().unref().no_duplicates(),
            out@.len() == it.index(),
            forall|i: int| 0 <= i < out@.len() ==> out@[i] == it.seq().unref()[i],
            forall|a: usize|
                s@.contains(a) ==> out@.contains(a) || exists|j: int|
                    it.index() <= j < it.seq().len() && #[trigger] it.seq().unref()[j] == a,
    {
        let ghost before = out@;
        out.push(*k);
        proof {
            assert forall|a: usize| s@.contains(a) implies out@.contains(a) || exists|j: int|
                it.index() + 1 <= j < it.seq().len() && #[trigger] it.seq().unref()[j] == a by {
                if before.contains(a) {
                    let i = choose|i: int| 0 <= i < before.len() && before[i] == a;
                    assert(out@[i] == a);
                } else {
                    let j = choose|j: int|
                        it.index() <= j < it.seq().len() && #[trigger] it.seq().unref()[j] == a;
                    if j == it.index() {
                        assert(out@[it.index()] == a);
                    }
                }
            }
        }
    }
    out
}

} // verus!
