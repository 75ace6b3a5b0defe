//! The index from a peer's identity to the one connection that is
//! authoritative for it.

use crate::crdt::Element;
use crate::node_id::NodeId;
use vstd::prelude::*;

verus! {

/// At most one connection identifier for each node.
pub struct Established {
    entries: Vec<(NodeId, usize)>,
}

impl View for Established {
    type V = Map<Element, usize>;

    closed spec fn view(&self) -> Map<Element, usize> {
        Map::new(
            |e: Element| exists|i: int| 0 <= i < self.entries@.len() && self.entries@[i].0@ == e,
            |e: Element|
                self.entries@[choose|i: int|
                    0 <= i < self.entries@.len() && self.entries@[i].0@ == e].1,
        )
    }
}

impl Established {
    /// No node is listed twice.
    pub closed spec fn wf(&self) -> bool {
        forall|i: int, j: int|
            0 <= i < self.entries@.len() && 0 <= j < self.entries@.len() && i != j
                ==> self.entries@[i].0@ != self.entries@[j].0@
    }

    proof fn lemma_entry(&self, i: int)
        requires
            self.wf(),
            0 <= i < self.entries@.len(),
        ensures
            self@.contains_key(self.entries@[i].0@),
            self@[self.entries@[i].0@] == self.entries@[i].1,
    {
    }

    /// An empty index.
    pub fn new() -> (r: Established)
        ensures
            r.wf(),
            r@ == Map::<Element, usize>::empty(),
    {
        let r = Established { entries: Vec::new() };
        proof {
            assert(r@ =~= Map::<Element, usize>::empty());
        }
        r
    }

    fn position(&self, node: &NodeId) -> (r: Option<usize>)
        requires
            self.wf(),
        ensures
            match r {
                Some(i) => i < self.entries@.len() && self.entries@[i as int].0@ == node@,
                None => !self@.contains_key(node@),
            },
    {
        let mut i: usize = 0;
        while i < self.entries.len()
            invariant
                i <= self.entries@.len(),
                forall|k: int| 0 <= k < i ==> self.entries@[k].0@ != node@,
            decreases self.entries.len() - i,
        {
            if self.entries[i].0 == *node {
                return Some(i);
            }
            i = i + 1;
        }
        None
    }

    /// The number of nodes in the index.
    pub fn len(&self) -> (n: usize)
        requires
            self.wf(),
        ensures
            n == self@.dom().len(),
            self@.dom().finite(),
    {
        proof {
            self.lemma_len(self.entries@.len() as int);
            assert(self@.dom() =~= Set::new(
                |e: Element|
                    exists|i: int| 0 <= i < self.entries@.len() && self.entries@[i].0@ == e,
            ));
        }
        self.entries.len()
    }

    proof fn lemma_len(&self, n: int)
        requires
            self.wf(),
            0 <= n <= self.entries@.len(),
        ensures
            Set::new(|e: Element| exists|i: int| 0 <= i < n && self.entries@[i].0@ == e).finite(),
            Set::new(|e: Element| exists|i: int| 0 <= i < n && self.entries@[i].0@ == e).len()
                == n,
        decreases n,
    {
        let s = Set::new(|e: Element| exists|i: int| 0 <= i < n && self.entries@[i].0@ == e);
        if n == 0 {
            assert(s =~= Set::<Element>::empty());
        } else {
            let t = Set::new(
                |e: Element| exists|i: int| 0 <= i < n - 1 && self.entries@[i].0@ == e,
            );
            self.lemma_len(n - 1);
            let last = self.entries@[n - 1].0@;
            assert(!t.contains(last));
            assert(s =~= t.insert(last));
        }
    }

    /// The connection recorded for `node`, if there is one.
    pub fn get(&self, node: &NodeId) -> (r: Option<usize>)
        requires
            self.wf(),
        ensures
            r == if self@.contains_key(node@) {
                Some(self@[node@])
            } else {
                None
            },
    {
        match self.position(node) {
            Some(i) => {
                proof {
                    self.lemma_entry(i as int);
                }
                Some(self.entries[i].1)
            },
            None => None,
        }
    }

    /// Records `id` for `node` and returns what was recorded before.
    pub fn insert(&mut self, node: NodeId, id: usize) -> (r: Option<usize>)
        requires
            old(self).wf(),
        ensures
            final(self).wf(),
            final(self)@ == old(self)@.insert(node@, id),
            r == if old(self)@.contains_key(node@) {
                Some(old(self)@[node@])
            } else {
                None
            },
    {
        match self.position(&node) {
            Some(i) => {
                proof {
                    self.lemma_entry(i as int);
                }
                let before = self.entries[i].1;
                self.entries.set(i, (node, id));
                proof {
                    assert forall|e: Element| self@.contains_key(e) <==> old(self)@.insert(
                        node@,
                        id,
                    ).contains_key(e) by {
                        if self@.contains_key(e) {
                            let k = choose|k: int|
                                0 <= k < self.entries@.len() && self.entries@[k].0@ == e;
                            assert(old(self).entries@[k].0@ == e);
                        }
                        if old(self)@.contains_key(e) {
                            let k = choose|k: int|
                                0 <= k < old(self).entries@.len() && old(self).entries@[k].0@ == e;
                            assert(self.entries@[k].0@ == e);
                        }
                        if e == node@ {
                            assert(self.entries@[i as int].0@ == e);
                        }
                    }
                    assert forall|e: Element| self@.contains_key(e) implies self@[e] == old(
                        self,
                    )@.insert(node@, id)[e] by {
                        let k = choose|k: int|
                            0 <= k < self.entries@.len() && self.entries@[k].0@ == e;
                        self.lemma_entry(k);
                        if k != i {
                            old(self).lemma_entry(k);
                        }
                    }
                    assert(self@ =~= old(self)@.insert(node@, id));
                }
                Some(before)
            },
            None => {
                self.entries.push((node, id));
                proof {
                    let n = old(self).entries@.len() as int;
                    assert forall|i: int, j: int|
                        0 <= i < self.entries@.len() && 0 <= j < self.entries@.len() && i
                            != j implies self.entries@[i].0@ != self.entries@[j].0@ by {
                        if i < n && j < n {
                            assert(old(self).entries@[i].0@ != old(self).entries@[j].0@);
                        } else if i < n {
                            assert(old(self).entries@[i].0@ == self.entries@[i].0@);
                        } else {
                            assert(old(self).entries@[j].0@ == self.entries@[j].0@);
                        }
                    }
                    assert forall|e: Element| self@.contains_key(e) <==> old(self)@.insert(
                        node@,
                        id,
                    ).contains_key(e) by {
                        if self@.contains_key(e) {
                            let k = choose|k: int|
                                0 <= k < self.entries@.len() && self.entries@[k].0@ == e;
                            if k < n {
                                assert(old(self).entries@[k].0@ == e);
                            }
                        }
                        if old(self)@.contains_key(e) {
                            let k = choose|k: int|
                                0 <= k < old(self).entries@.len() && old(self).entries@[k].0@ == e;
                            assert(self.entries@[k].0@ == e);
                        }
                        if e == node@ {
                            assert(self.entries@[n].0@ == e);
                        }
                    }
                    assert forall|e: Element| self@.contains_key(e) implies self@[e] == old(
                        self,
                    )@.insert(node@, id)[e] by {
                        let k = choose|k: int|
                            0 <= k < self.entries@.len() && self.entries@[k].0@ == e;
                        self.lemma_entry(k);
                        if k < n {
                            old(self).lemma_entry(k);
                        }
                    }
                    assert(self@ =~= old(self)@.insert(node@, id));
                }
                None
            },
        }
    }

    /// Takes `node` out of the index and returns what was recorded for it.
    pub fn remove(&mut self, node: &NodeId) -> (r: Option<usize>)
        requires
            old(self).wf(),
        ensures
            final(self).wf(),
            final(self)@ == old(self)@.remove(node@),
            r == if old(self)@.contains_key(node@) {
                Some(old(self)@[node@])
            } else {
                None
            },
    {
        match self.position(node) {
            Some(i) => {
                proof {
                    self.lemma_entry(i as int);
                }
                let gone = self.entries.remove(i);
                proof {
                    let before = old(self).entries@;
                    let after = self.entries@;
                    assert forall|k: int| 0 <= k < after.len() implies after[k] == before[if k
                        < i {
                        k
                    } else {
                        k + 1
                    }] by {}
                    assert forall|a: int, b: int|
                        0 <= a < after.len() && 0 <= b < after.len() && a != b implies after[a].0@
                        != after[b].0@ by {
                        let a0 = if a < i {
                            a
                        } else {
                            a + 1
                        };
                        let b0 = if b < i {
                            b
                        } else {
                            b + 1
                        };
                        assert(before[a0].0@ != before[b0].0@);
                    }
                    assert forall|e: Element| self@.contains_key(e) <==> old(self)@.remove(
                        node@,
                    ).contains_key(e) by {
                        if self@.contains_key(e) {
                            let k = choose|k: int| 0 <= k < after.len() && after[k].0@ == e;
                            let k0 = if k < i {
                                k
                            } else {
                                k + 1
                            };
                            assert(before[k0].0@ == e);
                            assert(before[k0].0@ != before[i as int].0@);
                        }
                        if old(self)@.contains_key(e) && e != node@ {
                            let k = choose|k: int| 0 <= k < before.len() && before[k].0@ == e;
                            let k1 = if k < i {
                                k
                            } else {
                                k - 1
                            };
                            assert(after[k1].0@ == e);
                        }
                    }
                    assert forall|e: Element| self@.contains_key(e) implies self@[e] == old(
                        self,
                    )@.remove(node@)[e] by {
                        let k = choose|k: int| 0 <= k < after.len() && after[k].0@ == e;
                        self.lemma_entry(k);
                        let k0 = if k < i {
                            k
                        } else {
                            k + 1
                        };
                        old(self).lemma_entry(k0);
                    }
                    assert(self@ =~= old(self)@.remove(node@));
                }
                Some(gone.1)
            },
            None => {
                proof {
                    assert(self@ =~= old(self)@.remove(node@));
                }
                None
            },
        }
    }

    /// Empties the index.
    pub fn clear(&mut self)
        ensures
            final(self).wf(),
            final(self)@ == Map::<Element, usize>::empty(),
    {
        self.entries.clear();
        proof {
            assert(self@ =~= Map::<Element, usize>::empty());
        }
    }

    /// The nodes in the index, each once.
    pub fn keys(&self) -> (r: Vec<NodeId>)
        requires
            self.wf(),
        ensures
            r@.len() == self@.dom().len(),
            forall|i: int, j: int| 0 <= i < j < r@.len() ==> r@[i]@ != r@[j]@,
            forall|e: Element|
                self@.contains_key(e) <==> exists|i: int| 0 <= i < r@.len() && r@[i]@ == e,
    {
        let mut r: Vec<NodeId> = Vec::new();
        let mut i: usize = 0;
        while i < self.entries.len()
            invariant
                i <= self.entries@.len(),
                r@.len() == i,
                forall|k: int| 0 <= k < i ==> (#[trigger] r@[k])@ == self.entries@[k].0@,
            decreases self.entries.len() - i,
        {
            r.push(self.entries[i].0.clone());
            i = i + 1;
        }
        proof {
            self.lemma_len(self.entries@.len() as int);
            assert(self@.dom() =~= Set::new(
                |e: Element|
                    exists|i: int| 0 <= i < self.entries@.len() && self.entries@[i].0@ == e,
            ));
            assert forall|e: Element| self@.contains_key(e) implies exists|i: int|
                0 <= i < r@.len() && r@[i]@ == e by {
                let k = choose|k: int| 0 <= k < self.entries@.len() && self.entries@[k].0@ == e;
                assert(r@[k]@ == e);
            }
        }
        r
    }
}

} // verus!
