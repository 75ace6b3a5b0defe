//! The member set of one node: an observed-remove set over node identifiers,
//! kept by the `orset` crate and described here by the model of [`crate::crdt`].

use crate::crdt::DotId;
use crate::crdt::DotStore;
use crate::crdt::Element;
use crate::crdt::Tag;
use crate::node_id::NodeId;
use orset::Delta;
use orset::Dot;
use orset::ORSet;
use std::hash::Hash;
use vstd::prelude::*;

verus! {

/// `orset::ORSet`, a replica of an observed-remove set. Nothing inside it is
/// visible here; the names below stand for what it holds.
#[verifier::external_type_specification]
#[verifier::external_body]
#[verifier::reject_recursive_types(T)]
pub struct ExORSet<T: Eq + Hash>(ORSet<T>);

/// `orset::Delta`, the record of one mutation of a replica: an addition with
/// its tag, or a removal with the tags it observed.
#[verifier::external_type_specification]
#[verifier::external_body]
#[verifier::reject_recursive_types(T)]
pub struct ExDelta<T>(Delta<T>);

/// `orset::Dot`, the tag of one addition. Two dots are equal when their actors
/// and their counters are.
#[verifier::external_type_specification]
#[verifier::external_body]
pub struct ExDot(Dot);

/// The additions that are alive in a replica.
pub uninterp spec fn orset_adds(s: ORSet<(String, String)>) -> Set<Tag>;

/// The tombstones of a replica.
pub uninterp spec fn orset_removes(s: ORSet<(String, String)>) -> Set<Tag>;

/// The name under which a replica tags its additions.
pub uninterp spec fn orset_actor(s: ORSet<(String, String)>) -> Seq<char>;

/// The number of additions that a replica has made itself.
pub uninterp spec fn orset_counter(s: ORSet<(String, String)>) -> int;

/// The additions that a delta carries.
pub uninterp spec fn delta_adds(d: Delta<(String, String)>) -> Set<Tag>;

/// The tombstones that a delta carries.
pub uninterp spec fn delta_removes(d: Delta<(String, String)>) -> Set<Tag>;

/// The actor and the counter of a tag.
pub uninterp spec fn dot_id(d: Dot) -> DotId;

/// The model of a replica.
pub open spec fn orset_store(s: ORSet<(String, String)>) -> DotStore {
    DotStore { adds: orset_adds(s), removes: orset_removes(s) }
}

/// The model of a delta.
pub open spec fn delta_store(d: Delta<(String, String)>) -> DotStore {
    DotStore { adds: delta_adds(d), removes: delta_removes(d) }
}

/// The elements that a list of name and address pairs stands for.
pub open spec fn pair_views(pairs: Seq<(String, String)>) -> Seq<Element> {
    pairs.map_values(|p: (String, String)| p@)
}

/// The tags that a list of dots names.
pub open spec fn dot_ids(dots: Seq<Dot>) -> Set<DotId> {
    Set::new(|d: DotId| exists|i: int| 0 <= i < dots.len() && dot_id(#[trigger] dots[i]) == d)
}

/// `ORSet::new`: an empty replica that tags its additions with `name` and has
/// made none yet.
#[verifier::external_body]
fn orset_new(name: String) -> (s: ORSet<(String, String)>)
    ensures
        orset_adds(s) == Set::<Tag>::empty(),
        orset_removes(s) == Set::<Tag>::empty(),
        orset_actor(s) == name@,
        orset_counter(s) == 0,
{
    ORSet::new(name)
}

/// `ORSet::add`: counts the addition, tags it with the replica's name and the
/// new count, records the tag as alive whatever the tombstones hold, and
/// returns the delta of that one addition. The count must not be at its limit.
#[verifier::external_body]
fn orset_add(s: &mut ORSet<(String, String)>, element: (String, String)) -> (d: Delta<
    (String, String),
>)
    requires
        orset_counter(*old(s)) < u64::MAX,
    ensures
        orset_actor(*final(s)) == orset_actor(*old(s)),
        orset_counter(*final(s)) == orset_counter(*old(s)) + 1,
        orset_store(*final(s)) == orset_store(*old(s)).with_add(
            element@,
            (orset_actor(*old(s)), orset_counter(*old(s)) + 1),
        ),
        delta_store(d) == DotStore::addition(
            element@,
            (orset_actor(*old(s)), orset_counter(*old(s)) + 1),
        ),
{
    s.add(element)
}

/// `ORSet::seen`: the tags under which the element is alive, or `None` where it
/// has none.
#[verifier::external_body]
fn orset_seen(s: &ORSet<(String, String)>, element: &(String, String)) -> (r: Option<Vec<Dot>>)
    ensures
        r is Some <==> orset_store(*s).contains(element@),
        r matches Some(dots) ==> dots@.len() > 0 && forall|d: DotId|
            #[trigger] orset_adds(*s).contains((element@, d)) <==> exists|i: int|
                0 <= i < dots@.len() && dot_id(#[trigger] dots@[i]) == d,
{
    s.seen(element)
}

/// `ORSet::remove`: turns each of the seen tags that is not yet a tombstone into
/// one and ends the addition it names; returns the delta of that removal. The
/// element must be alive and `seen` must not be empty.
#[verifier::external_body]
fn orset_remove(s: &mut ORSet<(String, String)>, element: (String, String), seen: Vec<Dot>) -> (d:
    Delta<(String, String)>)
    requires
        seen@.len() > 0,
        orset_store(*old(s)).contains(element@),
    ensures
        orset_actor(*final(s)) == orset_actor(*old(s)),
        orset_counter(*final(s)) == orset_counter(*old(s)),
        delta_store(d) == DotStore::removal(element@, dot_ids(seen@)),
        orset_store(*final(s)) == orset_store(*old(s)).merge(delta_store(d)),
{
    s.remove(element, seen)
}

/// `ORSet::join`: merges a delta into the replica and says whether the replica
/// changed.
#[verifier::external_body]
fn orset_join(s: &mut ORSet<(String, String)>, delta: Delta<(String, String)>) -> (changed: bool)
    ensures
        orset_actor(*final(s)) == orset_actor(*old(s)),
        orset_counter(*final(s)) == orset_counter(*old(s)),
        orset_store(*final(s)) == orset_store(*old(s)).merge(delta_store(delta)),
        changed == (orset_store(*final(s)) != orset_store(*old(s))),
{
    s.join(delta)
}

/// `ORSet::join_state`: merges another replica into this one and says whether
/// this one changed.
#[verifier::external_body]
fn orset_join_state(s: &mut ORSet<(String, String)>, from: ORSet<(String, String)>) -> (changed:
    bool)
    ensures
        orset_actor(*final(s)) == orset_actor(*old(s)),
        orset_counter(*final(s)) == orset_counter(*old(s)),
        orset_store(*final(s)) == orset_store(*old(s)).merge(orset_store(from)),
        changed == (orset_store(*final(s)) != orset_store(*old(s))),
{
    s.join_state(from)
}

/// `ORSet::elements`: each member once, in no stated order.
#[verifier::external_body]
fn orset_elements(s: &ORSet<(String, String)>) -> (r: Vec<(String, String)>)
    ensures
        pair_views(r@).no_duplicates(),
        forall|e: Element| #[trigger] pair_views(r@).contains(e) <==> orset_store(*s).contains(e),
{
    s.elements()
}

/// `Clone` of `ORSet`: a replica with the same contents, name and count.
#[verifier::external_body]
fn orset_clone(s: &ORSet<(String, String)>) -> (r: ORSet<(String, String)>)
    ensures
        orset_adds(r) == orset_adds(*s),
        orset_removes(r) == orset_removes(*s),
        orset_actor(r) == orset_actor(*s),
        orset_counter(r) == orset_counter(*s),
{
    s.clone()
}

/// `Clone` of `Delta`: a delta that carries the same tags.
#[verifier::external_body]
pub(crate) fn delta_clone(d: &Delta<(String, String)>) -> (r: Delta<(String, String)>)
    ensures
        delta_adds(r) == delta_adds(*d),
        delta_removes(r) == delta_removes(*d),
{
    d.clone()
}

/// The elements that a list of node identifiers stands for.
pub open spec fn node_views(nodes: Seq<NodeId>) -> Seq<Element> {
    nodes.map_values(|n: NodeId| n@)
}

/// Whether the list names `node`.
pub fn contains_node(list: &Vec<NodeId>, node: &NodeId) -> (r: bool)
    ensures
        r == node_views(list@).contains(node@),
{
    let mut i: usize = 0;
    while i < list.len()
        invariant
            i <= list@.len(),
            forall|k: int| 0 <= k < i ==> node_views(list@)[k] != node@,
        decreases list.len() - i,
    {
        if list[i] == *node {
            assert(node_views(list@)[i as int] == node@);
            return true;
        }
        i = i + 1;
    }
    false
}

/// The member set of one node.
pub struct Members {
    me: NodeId,
    orset: ORSet<(String, String)>,
    issued: u64,
}

impl View for Members {
    type V = DotStore;

    closed spec fn view(&self) -> DotStore {
        orset_store(self.orset)
    }
}

impl Members {
    /// The node that owns this replica.
    pub closed spec fn owner(&self) -> NodeId {
        self.me
    }

    /// The node that owns this replica.
    pub fn me(&self) -> (r: &NodeId)
        ensures
            *r == self.owner(),
    {
        &self.me
    }

    /// The name under which this replica tags its additions.
    pub closed spec fn actor(&self) -> Seq<char> {
        orset_actor(self.orset)
    }

    /// The number of additions that this replica has made.
    pub closed spec fn additions(&self) -> int {
        orset_counter(self.orset)
    }

    /// The replica's own count agrees with the set's.
    pub closed spec fn wf(&self) -> bool {
        self.issued == orset_counter(self.orset)
    }

    /// A replica owned by `node`, which is its first and only member.
    pub fn new(node: NodeId) -> (m: Members)
        ensures
            m.wf(),
            m.owner() == node,
            m.actor() == node.text(),
            m.additions() == 1,
            m@ == DotStore::empty().with_add(node@, (node.text(), 1)),
            m@.consistent(),
            m@.elements() == set![node@],
    {
        let mut orset = orset_new(node.to_string());
        let _ = orset_add(&mut orset, (node.name.clone(), node.addr.clone()));
        let m = Members { me: node, orset, issued: 1 };
        proof {
            assert(m@.adds.contains((node@, (node.text(), 1))));
            assert(m@.elements() =~= set![node@]);
        }
        m
    }

    /// Whether another addition can still be counted.
    pub fn can_add(&self) -> (r: bool)
        requires
            self.wf(),
        ensures
            r == (self.additions() < u64::MAX),
    {
        self.issued < u64::MAX
    }

    /// Adds `element` under a fresh tag and returns the delta to broadcast.
    pub fn add(&mut self, element: NodeId) -> (d: Delta<(String, String)>)
        requires
            old(self).wf(),
            old(self).additions() < u64::MAX,
        ensures
            final(self).wf(),
            final(self).owner() == old(self).owner(),
            final(self).actor() == old(self).actor(),
            final(self).additions() == old(self).additions() + 1,
            final(self)@ == old(self)@.with_add(
                element@,
                (old(self).actor(), old(self).additions() + 1),
            ),
            delta_store(d) == DotStore::addition(
                element@,
                (old(self).actor(), old(self).additions() + 1),
            ),
            final(self)@.contains(element@),
    {
        let d = orset_add(&mut self.orset, (element.name, element.addr));
        self.issued = self.issued + 1;
        proof {
            assert(self@.adds.contains((element@, (old(self).actor(), old(self).additions() + 1))));
        }
        d
    }

    /// Adds `element` as [`Members::add`] does, unless the replica has used up
    /// its tags: then nothing changes and `None` is returned.
    pub fn try_add(&mut self, element: NodeId) -> (r: Option<Delta<(String, String)>>)
        requires
            old(self).wf(),
        ensures
            final(self).wf(),
            final(self).owner() == old(self).owner(),
            final(self).actor() == old(self).actor(),
            r is Some <==> old(self).additions() < u64::MAX,
            r is None ==> final(self)@ == old(self)@ && final(self).additions() == old(
                self,
            ).additions(),
            r matches Some(d) ==> {
                &&& final(self).additions() == old(self).additions() + 1
                &&& final(self)@ == old(self)@.with_add(
                    element@,
                    (old(self).actor(), old(self).additions() + 1),
                )
                &&& delta_store(d) == DotStore::addition(
                    element@,
                    (old(self).actor(), old(self).additions() + 1),
                )
            },
    {
        if self.can_add() {
            Some(self.add(element))
        } else {
            None
        }
    }

    /// Removes `leaving` if it is a member: every tag under which it is alive
    /// becomes a tombstone, and the delta of that removal is returned. Where it
    /// is no member nothing changes.
    pub fn leave(&mut self, leaving: NodeId) -> (r: Option<Delta<(String, String)>>)
        requires
            old(self).wf(),
        ensures
            final(self).wf(),
            final(self).owner() == old(self).owner(),
            final(self).actor() == old(self).actor(),
            final(self).additions() == old(self).additions(),
            r is Some <==> old(self)@.contains(leaving@),
            r is None ==> final(self)@ == old(self)@,
            r matches Some(d) ==> {
                &&& delta_store(d) == DotStore::removal(leaving@, old(self)@.dots_of(leaving@))
                &&& final(self)@ == old(self)@.merge(delta_store(d))
            },
            old(self)@.consistent() ==> !final(self)@.contains(leaving@),
    {
        let element = (leaving.name, leaving.addr);
        match orset_seen(&self.orset, &element) {
            Some(dots) => {
                proof {
                    assert(dot_ids(dots@) =~= self@.dots_of(leaving@));
                }
                let d = orset_remove(&mut self.orset, element, dots);
                proof {
                    if old(self)@.consistent() && self@.contains(leaving@) {
                        let x = choose|x: DotId| self@.adds.contains((leaving@, x));
                        assert(old(self)@.adds.contains((leaving@, x)));
                        assert(old(self)@.dots_of(leaving@).contains(x));
                        assert(delta_store(d).removes.contains((leaving@, x)));
                    }
                }
                Some(d)
            },
            None => None,
        }
    }

    /// Merges the snapshot of another replica and says whether this replica
    /// changed.
    pub fn join(&mut self, other: ORSet<(String, String)>) -> (changed: bool)
        requires
            old(self).wf(),
        ensures
            final(self).wf(),
            final(self).owner() == old(self).owner(),
            final(self).actor() == old(self).actor(),
            final(self).additions() == old(self).additions(),
            final(self)@ == old(self)@.merge(orset_store(other)),
            changed == (final(self)@ != old(self)@),
    {
        orset_join_state(&mut self.orset, other)
    }

    /// Merges a delta and says whether this replica changed.
    pub fn join_delta(&mut self, delta: Delta<(String, String)>) -> (changed: bool)
        requires
            old(self).wf(),
        ensures
            final(self).wf(),
            final(self).owner() == old(self).owner(),
            final(self).actor() == old(self).actor(),
            final(self).additions() == old(self).additions(),
            final(self)@ == old(self)@.merge(delta_store(delta)),
            changed == (final(self)@ != old(self)@),
    {
        orset_join(&mut self.orset, delta)
    }

    /// A snapshot of the replica, to bootstrap a peer.
    pub fn get_orset(&self) -> (r: ORSet<(String, String)>)
        ensures
            orset_store(r) == self@,
    {
        orset_clone(&self.orset)
    }

    /// The members, each once, in no stated order.
    pub fn all(&self) -> (r: Vec<NodeId>)
        ensures
            node_views(r@).no_duplicates(),
            forall|e: Element| #[trigger] node_views(r@).contains(e) <==> self@.contains(e),
    {
        let pairs = orset_elements(&self.orset);
        let mut nodes: Vec<NodeId> = Vec::new();
        let mut i: usize = 0;
        while i < pairs.len()
            invariant
                i <= pairs.len(),
                nodes.len() == i,
                forall|j: int| 0 <= j < i ==> (#[trigger] nodes@[j])@ == pair_views(pairs@)[j],
            decreases pairs.len() - i,
        {
            let p = &pairs[i];
            nodes.push(NodeId { name: p.0.clone(), addr: p.1.clone() });
            i = i + 1;
        }
        proof {
            assert(node_views(nodes@) =~= pair_views(pairs@));
        }
        nodes
    }
}

} // verus!
