//! The mathematical model of a cluster server's state, and the rule that
//! settles which of two links between the same pair of nodes survives.

use crate::cluster::metrics::ClusterMetrics;
use crate::crdt::DotStore;
use crate::crdt::Element;
use crate::node_id::lemma_node_order;
use crate::node_id::node_lt;
use crate::timer_wheel::WheelModel;
use vstd::prelude::*;

verus! {

/// The model of one connection record.
pub struct ConnView {
    /// The peer, once it is known.
    pub node: Option<Element>,
    /// Whether this node opened the connection.
    pub is_client: bool,
    /// Whether the snapshot of the member set went out on it.
    pub members_sent: bool,
    /// The bucket of the timing wheel that holds the connection.
    pub slot: int,
}

/// The model of a cluster server.
pub struct ServerView {
    /// The local node.
    pub node: Element,
    /// The member set.
    pub members: DotStore,
    /// The number of additions that the local replica of the member set made.
    pub additions: int,
    /// The timing wheel.
    pub wheel: WheelModel,
    /// The connection records by connection identifier.
    pub conns: Map<usize, ConnView>,
    /// The authoritative connection of each peer.
    pub established: Map<Element, usize>,
    /// The registration of the listening socket.
    pub listener_id: usize,
    /// The registration of the timer that drives the timing wheel.
    pub timer_id: usize,
    /// The registration of the timer that drives the executor.
    pub executor_timer_id: usize,
    /// The counters.
    pub metrics: ClusterMetrics,
}

/// Whether the connection recorded for `peer` has to go when a second one to
/// the same peer identifies itself: it goes when the lesser of the two nodes
/// opened it.
pub open spec fn closes_saved(local: Element, peer: Element, saved_is_client: bool) -> bool {
    (saved_is_client && node_lt(local, peer)) || (!saved_is_client && node_lt(peer, local))
}

/// The node that opened a connection between `local` and `peer`.
pub open spec fn initiator(local: Element, peer: Element, is_client: bool) -> Element {
    if is_client {
        local
    } else {
        peer
    }
}

/// The node that opened the link which is closed, where `local` holds two
/// links to `peer`, one opened by each side, and the recorded one was opened
/// by `local` if and only if `saved_is_client`.
pub open spec fn closed_link_initiator(
    local: Element,
    peer: Element,
    saved_is_client: bool,
) -> Element {
    if closes_saved(local, peer, saved_is_client) {
        initiator(local, peer, saved_is_client)
    } else {
        initiator(local, peer, !saved_is_client)
    }
}

impl ServerView {
    /// The connections that are in reach of a broadcast: those on which the
    /// snapshot of the member set went out.
    pub open spec fn broadcast_targets(self) -> Set<usize> {
        Set::new(|id: usize| self.conns.contains_key(id) && self.conns[id].members_sent)
    }

    /// The peers of the connections, pending or established.
    pub open spec fn known_peers(self) -> Set<Element> {
        Set::new(
            |e: Element|
                exists|id: usize| #[trigger]
                    self.conns.contains_key(id) && self.conns[id].node == Some(e),
        )
    }

    /// The members that have no connection yet, the local node aside.
    pub open spec fn to_connect(self) -> Set<Element> {
        Set::new(
            |e: Element| self.members.contains(e) && !self.known_peers().contains(e) && e != self.node,
        )
    }

    /// The connections, pending or established, whose peer is one of `nodes`.
    pub open spec fn peer_ids(self, nodes: Set<Element>) -> Set<usize> {
        Set::new(
            |id: usize|
                self.conns.contains_key(id) && match self.conns[id].node {
                    Some(e) => nodes.contains(e),
                    None => false,
                },
        )
    }

    /// The connections, pending or established, whose peer is no member.
    pub open spec fn to_disconnect(self) -> Set<usize> {
        Set::new(
            |id: usize|
                self.conns.contains_key(id) && match self.conns[id].node {
                    Some(e) => !self.members.contains(e),
                    None => false,
                },
        )
    }

    /// The connection to close when the connection `id` identifies its peer as
    /// `from`: none where no connection is recorded for that peer, else the
    /// recorded one or `id` itself, by the rule of [`closes_saved`].
    pub open spec fn connection_to_close(self, id: usize, from: Element) -> Option<usize> {
        if self.established.contains_key(from) && self.conns.contains_key(self.established[from]) {
            let saved = self.established[from];
            if closes_saved(self.node, from, self.conns[saved].is_client) {
                Some(saved)
            } else {
                Some(id)
            }
        } else {
            None
        }
    }

    /// The state after the connections `ids` were closed: their records, their
    /// places in the timing wheel and their entries in the index are gone.
    pub open spec fn close_all(self, ids: Set<usize>) -> ServerView {
        ServerView {
            conns: self.conns.remove_keys(ids),
            wheel: WheelModel {
                slots: Seq::new(self.wheel.slots.len(), |i: int| self.wheel.slots[i] - ids),
                current: self.wheel.current,
            },
            established: self.established.restrict(
                Set::new(
                    |e: Element|
                        self.established.contains_key(e) && !ids.contains(self.established[e]),
                ),
            ),
            ..self
        }
    }

    /// The state after the connection `id` was closed.
    pub open spec fn close(self, id: usize) -> ServerView {
        self.close_all(set![id])
    }

    /// The state after a connection was recorded under `id`: an outgoing one to
    /// `node` where that is given, else an accepted one. A record that was
    /// there under `id` is closed first.
    pub open spec fn init_connection(self, id: usize, node: Option<Element>) -> ServerView {
        let closed = self.close(id);
        ServerView {
            conns: closed.conns.insert(
                id,
                ConnView {
                    node,
                    is_client: node is Some,
                    members_sent: false,
                    slot: closed.wheel.current,
                },
            ),
            wheel: closed.wheel.insert(id),
            ..closed
        }
    }

    /// The state after the connection `id` proved alive: it moves to the
    /// freshest bucket of the timing wheel.
    pub open spec fn reset_timer(self, id: usize) -> ServerView {
        if self.conns.contains_key(id) {
            ServerView {
                conns: self.conns.insert(
                    id,
                    ConnView { slot: self.wheel.current, ..self.conns[id] },
                ),
                wheel: self.wheel.reset(id, self.conns[id].slot),
                ..self
            }
        } else {
            self
        }
    }

    /// The state after the snapshot of the member set was queued on the
    /// connection `id`.
    pub open spec fn mark_members_sent(self, id: usize) -> ServerView {
        if self.conns.contains_key(id) {
            ServerView {
                conns: self.conns.insert(id, ConnView { members_sent: true, ..self.conns[id] }),
                ..self
            }
        } else {
            self
        }
    }

    /// The state after the connection `id`, which is known and stays open, was
    /// recorded as the authoritative one for `from`: it proves alive, its peer
    /// is `from`, and the index names it for `from` and for no other node.
    pub open spec fn record_established(self, id: usize, from: Element) -> ServerView {
        let moved = self.reset_timer(id);
        let index = match self.conns[id].node {
            Some(prev) => if prev != from && self.established.contains_key(prev)
                && self.established[prev] == id {
                self.established.remove(prev)
            } else {
                self.established
            },
            None => self.established,
        };
        ServerView {
            conns: moved.conns.insert(id, ConnView { node: Some(from), ..moved.conns[id] }),
            established: index.insert(from, id),
            ..moved
        }
    }

    /// The state after the connection `id` identified its peer as `from` and
    /// handed over the peer's member set `snapshot`. The snapshot is merged.
    /// Where a connection is recorded for `from` the rule of [`closes_saved`]
    /// closes one of the two; unless that is `id` itself, and if `id` is a
    /// known connection, `id` becomes the authoritative connection of `from`.
    pub open spec fn establish_connection(
        self,
        id: usize,
        from: Element,
        snapshot: DotStore,
    ) -> ServerView {
        let merged = ServerView { members: self.members.merge(snapshot), ..self };
        match merged.connection_to_close(id, from) {
            Some(close_id) => {
                let closed = merged.close(close_id);
                if close_id == id || !closed.conns.contains_key(id) {
                    closed
                } else {
                    closed.record_established(id, from)
                }
            },
            None => {
                if merged.conns.contains_key(id) {
                    merged.record_established(id, from)
                } else {
                    merged
                }
            },
        }
    }

    /// The state after one pass of reconciliation. Where the local node is no
    /// member, every connection is closed. Else every connection to a peer that
    /// is no member is closed, pending or established; the connections to open
    /// are an action and change no state but the count of attempts.
    pub open spec fn check_connections(self) -> ServerView {
        if !self.members.contains(self.node) {
            self.close_all(self.conns.dom())
        } else {
            let counted = ServerView {
                metrics: ClusterMetrics {
                    connection_attempts: crate::cluster::metrics::capped_add(
                        self.metrics.connection_attempts,
                        self.to_connect().len() as int,
                    ),
                    ..self.metrics
                },
                ..self
            };
            counted.close_all(self.to_disconnect())
        }
    }

    /// The state after the timing wheel advanced by one tick and the connections
    /// it reported were closed.
    pub open spec fn expire_silent(self) -> ServerView {
        ServerView { wheel: self.wheel.expire(), ..self }.close_all(self.wheel.expired())
    }

    /// The state after one tick: the silent connections are closed, then the
    /// connections are reconciled with the member set.
    pub open spec fn tick(self) -> ServerView {
        self.expire_silent().check_connections()
    }

    /// The state after `n` ticks with nothing else in between.
    pub open spec fn tick_n(self, n: nat) -> ServerView
        decreases n,
    {
        if n == 0 {
            self
        } else {
            self.tick_n((n - 1) as nat).tick()
        }
    }

    /// The state after `n` rounds in each of which the connection `id` proves
    /// alive and then a tick passes.
    pub open spec fn pinged_n(self, id: usize, n: nat) -> ServerView
        decreases n,
    {
        if n == 0 {
            self
        } else {
            self.pinged_n(id, (n - 1) as nat).reset_timer(id).tick()
        }
    }

    /// What holds of a server between two events, but for the connections
    /// `pending`: those a tick has just taken out of the timing wheel and that
    /// are about to be closed.
    pub open spec fn inv(self, pending: Set<usize>) -> bool {
        &&& self.wheel.wf()
        &&& self.conns.dom().finite()
        &&& forall|id: usize| #[trigger]
            self.conns.contains_key(id) ==> 0 <= self.conns[id].slot < self.wheel.slots.len()
        &&& forall|id: usize, i: int|
            self.conns.contains_key(id) && 0 <= i < self.wheel.slots.len() ==> (#[trigger]
            self.wheel.slots[i].contains(id) <==> i == self.conns[id].slot && !pending.contains(
                id,
            ))
        &&& forall|id: usize, i: int|
            0 <= i < self.wheel.slots.len() && #[trigger] self.wheel.slots[i].contains(id)
                ==> self.conns.contains_key(id)
        &&& forall|e: Element| #[trigger]
            self.established.contains_key(e) ==> self.conns.contains_key(self.established[e])
                && self.conns[self.established[e]].node == Some(e)
    }

    /// What holds of a server between two events: every connection sits in
    /// exactly one bucket of the timing wheel, the one its record names; the
    /// wheel holds nothing else; and every entry of the index names a known
    /// connection whose peer is the entry's node.
    pub open spec fn wf(self) -> bool {
        self.inv(Set::empty())
    }
}

/// Closing no connection changes nothing.
pub proof fn lemma_close_none(s: ServerView)
    ensures
        s.close_all(Set::empty()) == s,
{
    let c = s.close_all(Set::empty());
    assert(c.conns =~= s.conns);
    assert(c.established =~= s.established);
    assert(c.wheel.slots =~= s.wheel.slots) by {
        assert forall|i: int| 0 <= i < s.wheel.slots.len() implies #[trigger] c.wheel.slots[i]
            =~= s.wheel.slots[i] by {}
    }
}

/// Closing connections one after the other comes to closing them all at once.
pub proof fn lemma_close_one_more(s: ServerView, ids: Set<usize>, id: usize)
    ensures
        s.close_all(ids).close(id) == s.close_all(ids.insert(id)),
{
    let a = s.close_all(ids).close(id);
    let b = s.close_all(ids.insert(id));
    assert(a.conns =~= b.conns);
    assert(a.established =~= b.established);
    assert(a.wheel.slots =~= b.wheel.slots) by {
        assert forall|i: int| 0 <= i < s.wheel.slots.len() implies #[trigger] a.wheel.slots[i]
            =~= b.wheel.slots[i] by {}
    }
}

/// Closing connections keeps a server well formed, and takes the closed ones
/// out of those that are pending.
pub proof fn lemma_close_keeps_inv(s: ServerView, ids: Set<usize>, pending: Set<usize>)
    requires
        s.inv(pending),
    ensures
        s.close_all(ids).inv(pending),
        s.close_all(ids).inv(pending - ids),
{
    let c = s.close_all(ids);
    assert(c.conns.dom() =~= s.conns.dom() - ids);
    assert forall|id: usize, i: int|
        c.conns.contains_key(id) && 0 <= i < c.wheel.slots.len() implies (#[trigger]
        c.wheel.slots[i].contains(id) <==> i == c.conns[id].slot && !pending.contains(id)) by {
        assert(s.wheel.slots[i].contains(id) <==> i == s.conns[id].slot && !pending.contains(id));
    }
    assert forall|id: usize, i: int|
        0 <= i < c.wheel.slots.len() && #[trigger] c.wheel.slots[i].contains(
            id,
        ) implies c.conns.contains_key(id) by {
        assert(s.wheel.slots[i].contains(id));
    }
}

/// After a tick of the timing wheel the connections it reported are pending.
pub proof fn lemma_expired_are_pending(s: ServerView)
    requires
        s.wf(),
    ensures
        (ServerView { wheel: s.wheel.expire(), ..s }).inv(s.wheel.expired()),
        forall|id: usize| s.wheel.expired().contains(id) ==> s.conns.contains_key(id),
{
    let t = ServerView { wheel: s.wheel.expire(), ..s };
    let gone = s.wheel.expired();
    crate::timer_wheel::lemma_next_slot(s.wheel.current, s.wheel.slots.len() as int);
    assert forall|id: usize, i: int|
        t.conns.contains_key(id) && 0 <= i < t.wheel.slots.len() implies (#[trigger]
        t.wheel.slots[i].contains(id) <==> i == t.conns[id].slot && !gone.contains(id)) by {
        assert(s.wheel.slots[i].contains(id) <==> i == s.conns[id].slot);
        assert(s.wheel.slots[s.wheel.oldest()].contains(id) <==> s.wheel.oldest()
            == s.conns[id].slot);
    }
    assert forall|id: usize, i: int|
        0 <= i < t.wheel.slots.len() && #[trigger] t.wheel.slots[i].contains(
            id,
        ) implies t.conns.contains_key(id) by {
        assert(s.wheel.slots[i].contains(id));
    }
    assert forall|id: usize| gone.contains(id) implies s.conns.contains_key(id) by {
        assert(s.wheel.slots[s.wheel.oldest()].contains(id));
    }
}

/// A server whose pending connections are all closed is well formed.
pub proof fn lemma_nothing_pending(s: ServerView, pending: Set<usize>)
    requires
        s.inv(pending),
        forall|id: usize| pending.contains(id) ==> !s.conns.contains_key(id),
    ensures
        s.wf(),
{
    assert forall|id: usize, i: int|
        s.conns.contains_key(id) && 0 <= i < s.wheel.slots.len() implies (#[trigger]
        s.wheel.slots[i].contains(id) <==> i == s.conns[id].slot) by {
        assert(s.wheel.slots[i].contains(id) <==> i == s.conns[id].slot && !pending.contains(id));
    }
}

/// A tick keeps a server well formed. It closes the connections that the
/// timing wheel reports; every other connection keeps its record, and its
/// bucket is one tick closer to its report, unless reconciliation closes it.
pub proof fn lemma_tick(s: ServerView, id: usize)
    requires
        s.wf(),
    ensures
        s.expire_silent().wf(),
        s.tick().wf(),
        s.tick().wheel.slots.len() == s.wheel.slots.len(),
        s.conns.contains_key(id) && s.wheel.ticks_until(s.conns[id].slot) == 1
            ==> !s.tick().conns.contains_key(id),
        s.tick().conns.contains_key(id) ==> {
            &&& s.conns.contains_key(id)
            &&& s.tick().conns[id] == s.conns[id]
            &&& s.tick().wheel.ticks_until(s.conns[id].slot) == s.wheel.ticks_until(
                s.conns[id].slot,
            ) - 1
        },
        s.conns.contains_key(id) && s.wheel.ticks_until(s.conns[id].slot) > 1
            && s.members.contains(s.node) && !s.to_disconnect().contains(id)
            ==> s.tick().conns.contains_key(id),
{
    let t = ServerView { wheel: s.wheel.expire(), ..s };
    let gone = s.wheel.expired();
    let e = s.expire_silent();
    lemma_expired_are_pending(s);
    lemma_close_keeps_inv(t, gone, gone);
    lemma_nothing_pending(e, gone - gone);
    crate::timer_wheel::lemma_next_slot(s.wheel.current, s.wheel.slots.len() as int);
    if !e.members.contains(e.node) {
        lemma_close_keeps_inv(e, e.conns.dom(), Set::empty());
    } else {
        lemma_close_keeps_inv(e, e.to_disconnect(), Set::empty());
    }
    if s.conns.contains_key(id) {
        let slot = s.conns[id].slot;
        crate::timer_wheel::lemma_tick_ages_buckets(s.wheel, slot);
        assert(s.wheel.slots[slot].contains(id));
        if s.wheel.ticks_until(slot) > 1 {
            assert(!gone.contains(id)) by {
                assert(s.wheel.slots[s.wheel.oldest()].contains(id) <==> s.wheel.oldest() == slot);
            }
            assert(e.conns.contains_key(id));
            if s.members.contains(s.node) && !s.to_disconnect().contains(id) {
                assert(!e.to_disconnect().contains(id));
            }
        }
    }
}

/// Liveness of connections: a connection that gives no sign of life is closed
/// when the bucket of the timing wheel that holds it is reported, if not
/// before. That is after at most as many ticks as the wheel has buckets.
pub proof fn lemma_silent_connection_is_closed(s: ServerView, id: usize, n: nat)
    requires
        s.wf(),
        s.conns.contains_key(id),
        n >= s.wheel.ticks_until(s.conns[id].slot),
    ensures
        s.tick_n(n).wf(),
        !s.tick_n(n).conns.contains_key(id),
        s.wheel.ticks_until(s.conns[id].slot) <= s.wheel.slots.len(),
{
    lemma_ticks_age_connection(s, id, n);
}

/// After `n` ticks a connection is closed, or its record is the same and its
/// bucket is `n` ticks closer to its report.
pub proof fn lemma_ticks_age_connection(s: ServerView, id: usize, n: nat)
    requires
        s.wf(),
        s.conns.contains_key(id),
    ensures
        s.tick_n(n).wf(),
        s.tick_n(n).wheel.slots.len() == s.wheel.slots.len(),
        1 <= s.wheel.ticks_until(s.conns[id].slot) <= s.wheel.slots.len(),
        s.tick_n(n).conns.contains_key(id) ==> {
            &&& s.tick_n(n).conns[id] == s.conns[id]
            &&& s.tick_n(n).wheel.ticks_until(s.conns[id].slot) == s.wheel.ticks_until(
                s.conns[id].slot,
            ) - n
            &&& n < s.wheel.ticks_until(s.conns[id].slot)
        },
    decreases n,
{
    if n > 0 {
        let before = s.tick_n((n - 1) as nat);
        lemma_ticks_age_connection(s, id, (n - 1) as nat);
        lemma_tick(before, id);
    }
}

/// A connection that proves alive is in the freshest bucket of the timing
/// wheel afterwards, a whole turn away from its report.
pub proof fn lemma_reset_timer(s: ServerView, id: usize)
    requires
        s.wf(),
        s.conns.contains_key(id),
    ensures
        s.reset_timer(id).wf(),
        s.reset_timer(id).conns.contains_key(id),
        s.reset_timer(id).wheel.ticks_until(s.reset_timer(id).conns[id].slot)
            == s.wheel.slots.len(),
        s.reset_timer(id).wheel.holds_only_in(id, s.reset_timer(id).wheel.current),
        s.reset_timer(id).to_disconnect() == s.to_disconnect(),
{
    let r = s.reset_timer(id);
    assert(r.conns.dom() =~= s.conns.dom());
    assert forall|k: usize, i: int|
        r.conns.contains_key(k) && 0 <= i < r.wheel.slots.len() implies (#[trigger]
        r.wheel.slots[i].contains(k) <==> i == r.conns[k].slot) by {
        assert(s.wheel.slots[i].contains(k) <==> i == s.conns[k].slot);
    }
    assert forall|k: usize, i: int|
        0 <= i < r.wheel.slots.len() && #[trigger] r.wheel.slots[i].contains(
            k,
        ) implies r.conns.contains_key(k) by {
        if k != id {
            assert(s.wheel.slots[i].contains(k));
        }
    }
    assert forall|e: Element| #[trigger] r.established.contains_key(e) implies r.conns.contains_key(
        r.established[e],
    ) && r.conns[r.established[e]].node == Some(e) by {
        assert(s.established.contains_key(e));
    }
    assert(r.to_disconnect() =~= s.to_disconnect());
}

/// A connection that proves alive before a tick outlives the tick, in a wheel
/// of at least two buckets, unless reconciliation closes it.
pub proof fn lemma_alive_connection_survives_tick(s: ServerView, id: usize)
    requires
        s.wf(),
        s.conns.contains_key(id),
        s.wheel.slots.len() >= 2,
        s.members.contains(s.node),
        !s.to_disconnect().contains(id),
    ensures
        s.reset_timer(id).tick().wf(),
        s.reset_timer(id).tick().conns.contains_key(id),
{
    lemma_reset_timer(s, id);
    lemma_tick(s.reset_timer(id), id);
}

/// A connection that proves alive between every two ticks is never closed for
/// silence, however many ticks pass, in a wheel of at least two buckets and
/// while the local node and the peer are members: after each round its record
/// is there, and it sat in one bucket, the freshest, when the tick came.
pub proof fn lemma_pinged_connection_is_never_closed(s: ServerView, id: usize, n: nat)
    requires
        s.wf(),
        s.wheel.slots.len() >= 2,
        s.conns.contains_key(id),
        s.members.contains(s.node),
        s.conns[id].node matches Some(e) ==> s.members.contains(e),
    ensures
        s.pinged_n(id, n).wf(),
        s.pinged_n(id, n).conns.contains_key(id),
        s.pinged_n(id, n).conns[id].node == s.conns[id].node,
        s.pinged_n(id, n).members == s.members,
        s.pinged_n(id, n).node == s.node,
        s.pinged_n(id, n).wheel.slots.len() == s.wheel.slots.len(),
        n > 0 ==> s.pinged_n(id, (n - 1) as nat).reset_timer(id).wheel.holds_only_in(
            id,
            s.pinged_n(id, (n - 1) as nat).reset_timer(id).wheel.current,
        ),
    decreases n,
{
    if n > 0 {
        let before = s.pinged_n(id, (n - 1) as nat);
        lemma_pinged_connection_is_never_closed(s, id, (n - 1) as nat);
        lemma_reset_timer(before, id);
        let fresh = before.reset_timer(id);
        assert(!fresh.to_disconnect().contains(id));
        lemma_tick(fresh, id);
    }
}

/// Self-eviction: where the local node is no member, one pass of
/// reconciliation closes every connection, whatever the member set holds: no
/// record, no entry of the index and no place in the timing wheel is left.
pub proof fn lemma_self_eviction_closes_all(s: ServerView)
    requires
        s.wf(),
        !s.members.contains(s.node),
    ensures
        s.check_connections().wf(),
        s.check_connections().conns == Map::<usize, ConnView>::empty(),
        s.check_connections().established == Map::<Element, usize>::empty(),
        forall|i: int|
            0 <= i < s.wheel.slots.len() ==> #[trigger] s.check_connections().wheel.slots[i]
                == Set::<usize>::empty(),
        s.check_connections().members == s.members,
{
    let c = s.check_connections();
    lemma_close_keeps_inv(s, s.conns.dom(), Set::empty());
    assert(c.conns =~= Map::<usize, ConnView>::empty());
    assert(c.established =~= Map::<Element, usize>::empty()) by {
        assert forall|e: Element| !c.established.contains_key(e) by {
            if s.established.contains_key(e) {
                assert(s.conns.contains_key(s.established[e]));
            }
        }
    }
    assert forall|i: int| 0 <= i < s.wheel.slots.len() implies #[trigger] c.wheel.slots[i]
        == Set::<usize>::empty() by {
        assert forall|id: usize| !c.wheel.slots[i].contains(id) by {
            if s.wheel.slots[i].contains(id) {
                assert(s.conns.contains_key(id));
            }
        }
        assert(c.wheel.slots[i] =~= Set::<usize>::empty());
    }
}

/// Reconciliation settles. One pass, for a local node that is a member, closes
/// exactly the connections to peers that are no members, pending or
/// established, and leaves nothing more to close; it asks for a connection to
/// every member without one, and once each of those has a connection, a second
/// pass finds nothing to connect.
pub proof fn lemma_reconciliation_settles(s: ServerView, connected: ServerView)
    requires
        s.wf(),
        s.members.contains(s.node),
        connected.node == s.node,
        connected.members == s.members,
        forall|e: Element|
            s.check_connections().known_peers().contains(e) || s.to_connect().contains(e)
                ==> connected.known_peers().contains(e),
    ensures
        s.check_connections().wf(),
        s.check_connections().conns == s.conns.remove_keys(s.to_disconnect()),
        forall|id: usize|
            s.check_connections().conns.contains_key(id) <==> s.conns.contains_key(id) && (
            match s.conns[id].node {
                Some(e) => s.members.contains(e),
                None => true,
            }),
        s.check_connections().to_connect() == s.to_connect(),
        s.check_connections().to_disconnect() == Set::<usize>::empty(),
        connected.to_connect() == Set::<Element>::empty(),
{
    let c = s.check_connections();
    lemma_close_keeps_inv(s, s.to_disconnect(), Set::empty());
    assert forall|e: Element| c.to_connect().contains(e) <==> s.to_connect().contains(e) by {
        if s.members.contains(e) && e != s.node {
            if s.known_peers().contains(e) {
                let id = choose|id: usize| #[trigger]
                    s.conns.contains_key(id) && s.conns[id].node == Some(e);
                assert(!s.to_disconnect().contains(id));
                assert(c.conns.contains_key(id) && c.conns[id].node == Some(e));
            }
            if c.known_peers().contains(e) {
                let id = choose|id: usize| #[trigger]
                    c.conns.contains_key(id) && c.conns[id].node == Some(e);
                assert(s.conns.contains_key(id) && s.conns[id].node == Some(e));
            }
        }
    }
    assert(c.to_connect() =~= s.to_connect());
    assert(c.to_disconnect() =~= Set::<usize>::empty());
    assert(connected.to_connect() =~= Set::<Element>::empty());
}

/// The connection that is left of two to the same peer, of which `saved` is
/// the recorded one and `id` the one that has just identified itself.
pub open spec fn surviving_link(s: ServerView, id: usize, from: Element) -> usize {
    if closes_saved(s.node, from, s.conns[s.established[from]].is_client) {
        id
    } else {
        s.established[from]
    }
}

/// Two links collapse into one. Where a connection is recorded for a peer and
/// a second connection identifies itself as the same peer, exactly one of the
/// two is left afterwards, and it is the one recorded for the peer. Where each
/// of two different nodes opened one of the links, the link that is left is
/// the one that the greater node opened.
pub proof fn lemma_one_link_survives(s: ServerView, id: usize, from: Element, snapshot: DotStore)
    requires
        s.wf(),
        s.established.contains_key(from),
        s.conns.contains_key(id),
        s.established[from] != id,
    ensures
        s.establish_connection(id, from, snapshot).conns.contains_key(s.established[from])
            != s.establish_connection(id, from, snapshot).conns.contains_key(id),
        s.establish_connection(id, from, snapshot).conns.contains_key(surviving_link(s, id, from)),
        s.establish_connection(id, from, snapshot).conns[surviving_link(s, id, from)].node == Some(
            from,
        ),
        s.establish_connection(id, from, snapshot).established.contains_key(from),
        s.establish_connection(id, from, snapshot).established[from] == surviving_link(s, id, from),
        s.node != from && s.conns[id].is_client != s.conns[s.established[from]].is_client
            ==> !node_lt(
            initiator(
                s.node,
                from,
                s.establish_connection(id, from, snapshot).conns[surviving_link(
                    s,
                    id,
                    from,
                )].is_client,
            ),
            closed_link_initiator(s.node, from, s.conns[s.established[from]].is_client),
        ),
{
    let saved = s.established[from];
    let merged = ServerView { members: s.members.merge(snapshot), ..s };
    let after = s.establish_connection(id, from, snapshot);
    assert(s.conns.contains_key(saved) && s.conns[saved].node == Some(from));
    assert(merged.connection_to_close(id, from) is Some);
    lemma_node_order(s.node, from);
    lemma_node_order(from, s.node);
    if closes_saved(s.node, from, s.conns[saved].is_client) {
        let closed = merged.close(saved);
        assert(closed.conns.contains_key(id));
        assert(!closed.conns.contains_key(saved));
        assert(after == closed.record_established(id, from));
        assert(after.conns.contains_key(id));
        assert(after.conns[id].is_client == s.conns[id].is_client);
    } else {
        let closed = merged.close(id);
        assert(after == closed);
        assert(closed.conns.contains_key(saved));
        assert(closed.established.contains_key(from));
    }
}

/// The resolution of duplicate links is symmetric. Where the nodes `a` and `b`,
/// `a` the lesser, have each opened a link to the other, both of them close the
/// link that `a` opened and keep the one that `b` opened, whichever of the two
/// links either node recorded first.
pub proof fn lemma_duplicate_link_resolution_symmetric(a: Element, b: Element, saved_is_client: bool)
    requires
        node_lt(a, b),
    ensures
        closed_link_initiator(a, b, saved_is_client) == a,
        closed_link_initiator(b, a, saved_is_client) == a,
{
    lemma_node_order(a, b);
}

} // verus!
