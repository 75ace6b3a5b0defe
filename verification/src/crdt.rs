//! The mathematical model of the observed-remove set behind cluster membership,
//! and the laws that make replicas converge.
//!
//! A replica and a delta are both described by a [`DotStore`]: the tagged
//! additions that are alive and the tags that were removed. Merging is one
//! function on that model, whether a delta or a whole replica is merged.

use vstd::prelude::*;

verus! {

/// A member of the set: the name and the address of a node.
pub type Element = (Seq<char>, Seq<char>);

/// The unique tag of one addition: the replica that made it and that replica's
/// count of additions at the time.
pub type DotId = (Seq<char>, int);

/// An element together with the tag of one of its additions.
pub type Tag = (Element, DotId);

/// What a replica or a delta holds.
pub struct DotStore {
    /// The additions that no observed removal covers.
    pub adds: Set<Tag>,
    /// The tombstones: the additions that a removal has observed.
    pub removes: Set<Tag>,
}

impl DotStore {
    /// The store that holds nothing.
    pub open spec fn empty() -> DotStore {
        DotStore { adds: Set::empty(), removes: Set::empty() }
    }

    /// The delta of one addition.
    pub open spec fn addition(e: Element, d: DotId) -> DotStore {
        DotStore { adds: set![(e, d)], removes: Set::empty() }
    }

    /// The delta of one removal that observed the tags `dots` of `e`.
    pub open spec fn removal(e: Element, dots: Set<DotId>) -> DotStore {
        DotStore {
            adds: Set::empty(),
            removes: Set::new(|t: Tag| t.0 == e && dots.contains(t.1)),
        }
    }

    /// The tags under which `e` is alive.
    pub open spec fn dots_of(self, e: Element) -> Set<DotId> {
        Set::new(|d: DotId| self.adds.contains((e, d)))
    }

    /// Whether `e` is a member: at least one of its additions is alive.
    pub open spec fn contains(self, e: Element) -> bool {
        exists|d: DotId| self.adds.contains((e, d))
    }

    /// The members.
    pub open spec fn elements(self) -> Set<Element> {
        Set::new(|e: Element| self.contains(e))
    }

    /// No addition is both alive and removed.
    pub open spec fn consistent(self) -> bool {
        self.adds.disjoint(self.removes)
    }

    /// The store after the local addition of `e` under the tag `d`.
    pub open spec fn with_add(self, e: Element, d: DotId) -> DotStore {
        DotStore { adds: self.adds.insert((e, d)), removes: self.removes }
    }

    /// The store after `other` was merged into it: first the tombstones of
    /// `other`, each of which also ends the addition it names unless it was
    /// known before, then the additions of `other` that no tombstone covers.
    pub open spec fn merge(self, other: DotStore) -> DotStore {
        DotStore {
            adds: (self.adds - (other.removes - self.removes)) + (other.adds - (self.removes
                + other.removes)),
            removes: self.removes + other.removes,
        }
    }

    /// The store after each item of `items` was merged into it, first to last.
    pub open spec fn merge_all(self, items: Seq<DotStore>) -> DotStore
        decreases items.len(),
    {
        if items.len() == 0 {
            self
        } else {
            self.merge_all(items.drop_last()).merge(items.last())
        }
    }
}

/// The tags that some item of `items` holds as alive.
pub open spec fn all_adds(items: Seq<DotStore>) -> Set<Tag> {
    Set::new(|t: Tag| exists|i: int| 0 <= i < items.len() && #[trigger] items[i].adds.contains(t))
}

/// The tags that some item of `items` holds as removed.
pub open spec fn all_removes(items: Seq<DotStore>) -> Set<Tag> {
    Set::new(
        |t: Tag| exists|i: int| 0 <= i < items.len() && #[trigger] items[i].removes.contains(t),
    )
}

/// Merging a sequence of items comes to merging their union.
pub proof fn lemma_merge_all_is_merge_of_union(s: DotStore, items: Seq<DotStore>)
    ensures
        s.merge_all(items) == s.merge(
            DotStore { adds: all_adds(items), removes: all_removes(items) },
        ),
    decreases items.len(),
{
    let u = DotStore { adds: all_adds(items), removes: all_removes(items) };
    if items.len() == 0 {
        assert(u.adds =~= Set::<Tag>::empty());
        assert(u.removes =~= Set::<Tag>::empty());
        assert(s.merge(u).adds =~= s.adds);
        assert(s.merge(u).removes =~= s.removes);
    } else {
        let front = items.drop_last();
        let last = items.last();
        let uf = DotStore { adds: all_adds(front), removes: all_removes(front) };
        lemma_merge_all_is_merge_of_union(s, front);
        assert forall|t: Tag| u.adds.contains(t) <==> (uf.adds.contains(t) || last.adds.contains(
            t,
        )) by {
            if u.adds.contains(t) {
                let i = choose|i: int| 0 <= i < items.len() && #[trigger] items[i].adds.contains(t);
                if i < front.len() {
                    assert(front[i].adds.contains(t));
                }
            }
            if uf.adds.contains(t) {
                let i = choose|i: int| 0 <= i < front.len() && #[trigger] front[i].adds.contains(t);
                assert(items[i].adds.contains(t));
            }
            if last.adds.contains(t) {
                assert(items[items.len() - 1].adds.contains(t));
            }
        }
        assert forall|t: Tag| u.removes.contains(t) <==> (uf.removes.contains(t)
            || last.removes.contains(t)) by {
            if u.removes.contains(t) {
                let i = choose|i: int|
                    0 <= i < items.len() && #[trigger] items[i].removes.contains(t);
                if i < front.len() {
                    assert(front[i].removes.contains(t));
                }
            }
            if uf.removes.contains(t) {
                let i = choose|i: int|
                    0 <= i < front.len() && #[trigger] front[i].removes.contains(t);
                assert(items[i].removes.contains(t));
            }
            if last.removes.contains(t) {
                assert(items[items.len() - 1].removes.contains(t));
            }
        }
        assert(s.merge(uf).merge(last).adds =~= s.merge(u).adds);
        assert(s.merge(uf).merge(last).removes =~= s.merge(u).removes);
    }
}

/// Convergence: two replicas that start from the same state and merge the same
/// set of deltas and snapshots end in the same state, and so with the same
/// members, whatever the order of the items and however often each arrives.
pub proof fn lemma_convergence(s: DotStore, xs: Seq<DotStore>, ys: Seq<DotStore>)
    requires
        xs.to_set() == ys.to_set(),
    ensures
        s.merge_all(xs) == s.merge_all(ys),
        s.merge_all(xs).elements() == s.merge_all(ys).elements(),
{
    lemma_merge_all_is_merge_of_union(s, xs);
    lemma_merge_all_is_merge_of_union(s, ys);
    assert forall|t: Tag| all_adds(xs).contains(t) <==> all_adds(ys).contains(t) by {
        if all_adds(xs).contains(t) {
            let i = choose|i: int| 0 <= i < xs.len() && #[trigger] xs[i].adds.contains(t);
            assert(xs.to_set().contains(xs[i]));
            assert(ys.contains(xs[i]));
            let j = choose|j: int| 0 <= j < ys.len() && ys[j] == xs[i];
            assert(ys[j].adds.contains(t));
        }
        if all_adds(ys).contains(t) {
            let i = choose|i: int| 0 <= i < ys.len() && #[trigger] ys[i].adds.contains(t);
            assert(ys.to_set().contains(ys[i]));
            assert(xs.contains(ys[i]));
            let j = choose|j: int| 0 <= j < xs.len() && xs[j] == ys[i];
            assert(xs[j].adds.contains(t));
        }
    }
    assert forall|t: Tag| all_removes(xs).contains(t) <==> all_removes(ys).contains(t) by {
        if all_removes(xs).contains(t) {
            let i = choose|i: int| 0 <= i < xs.len() && #[trigger] xs[i].removes.contains(t);
            assert(xs.to_set().contains(xs[i]));
            assert(ys.contains(xs[i]));
            let j = choose|j: int| 0 <= j < ys.len() && ys[j] == xs[i];
            assert(ys[j].removes.contains(t));
        }
        if all_removes(ys).contains(t) {
            let i = choose|i: int| 0 <= i < ys.len() && #[trigger] ys[i].removes.contains(t);
            assert(ys.to_set().contains(ys[i]));
            assert(xs.contains(ys[i]));
            let j = choose|j: int| 0 <= j < xs.len() && xs[j] == ys[i];
            assert(xs[j].removes.contains(t));
        }
    }
    assert(all_adds(xs) =~= all_adds(ys));
    assert(all_removes(xs) =~= all_removes(ys));
}

/// Merging is commutative on consistent stores: two replicas that merge each
/// other's snapshot end in the same state.
pub proof fn lemma_merge_commutes(a: DotStore, b: DotStore)
    requires
        a.consistent(),
        b.consistent(),
    ensures
        a.merge(b) == b.merge(a),
        a.merge(b).elements() == b.merge(a).elements(),
{
    assert(a.merge(b).adds =~= b.merge(a).adds);
    assert(a.merge(b).removes =~= b.merge(a).removes);
}

/// Merging is associative on consistent stores.
pub proof fn lemma_merge_associates(a: DotStore, b: DotStore, c: DotStore)
    requires
        a.consistent(),
        b.consistent(),
        c.consistent(),
    ensures
        a.merge(b).merge(c) == a.merge(b.merge(c)),
{
    assert(a.merge(b).merge(c).adds =~= a.merge(b.merge(c)).adds);
    assert(a.merge(b).merge(c).removes =~= a.merge(b.merge(c)).removes);
}

/// Merging keeps a consistent store consistent, whatever is merged into it.
pub proof fn lemma_merge_keeps_consistent(a: DotStore, b: DotStore)
    requires
        a.consistent(),
    ensures
        a.merge(b).consistent(),
{
}

/// Idempotent merge: merging an item a second time changes nothing.
pub proof fn lemma_merge_idempotent(s: DotStore, d: DotStore)
    ensures
        s.merge(d).merge(d) == s.merge(d),
{
    assert(s.merge(d).merge(d).adds =~= s.merge(d).adds);
    assert(s.merge(d).merge(d).removes =~= s.merge(d).removes);
}

/// A concurrent addition survives a concurrent removal. Replica `a` adds `e`
/// under the tag `d`; replica `b`, which has not seen that tag, removes `e` with
/// the tags it observed. Whichever way the two states are merged, `e` is a
/// member afterwards.
pub proof fn lemma_concurrent_add_survives_remove(
    a: DotStore,
    b: DotStore,
    e: Element,
    d: DotId,
    observed: Set<DotId>,
)
    requires
        !a.removes.contains((e, d)),
        !b.adds.contains((e, d)),
        !b.removes.contains((e, d)),
        observed == b.dots_of(e),
    ensures
        a.with_add(e, d).merge(b.merge(DotStore::removal(e, observed))).contains(e),
        b.merge(DotStore::removal(e, observed)).merge(a.with_add(e, d)).contains(e),
{
    let a1 = a.with_add(e, d);
    let b1 = b.merge(DotStore::removal(e, observed));
    assert(a1.adds.contains((e, d)));
    assert(!b1.removes.contains((e, d)));
    assert(a1.merge(b1).adds.contains((e, d)));
    assert(b1.merge(a1).adds.contains((e, d)));
}

} // verus!
