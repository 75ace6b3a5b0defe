//! The cluster server: it keeps the member set, maintains one connection per
//! peer, evicts silent peers and relays envelopes between nodes.
//!
//! The server owns no socket. Its host hands it events, one call each, and
//! carries out the [`Action`]s that the call returns, in their order.

use crate::cluster::action::broadcasts_delta;
use crate::cluster::action::broadcasts_ping;
use crate::cluster::action::closes;
use crate::cluster::action::cluster_msg_result;
use crate::cluster::action::decoded_message_result;
use crate::cluster::action::get_status_result;
use crate::cluster::action::join_result;
use crate::cluster::action::leave_result;
use crate::cluster::action::poll_notification_result;
use crate::cluster::action::read_result;
use crate::cluster::action::reconciles;
use crate::cluster::action::send_metrics_result;
use crate::cluster::action::send_remote_result;
use crate::cluster::action::sends_members;
use crate::cluster::action::socket_io_result;
use crate::cluster::action::tick_executor_result;
use crate::cluster::action::tick_result;
use crate::cluster::action::write_result;
use crate::cluster::action::Action;
use crate::cluster::established::Established;
use crate::cluster::listing::items_of;
use crate::cluster::listing::keys_of;
use crate::cluster::listing::lemma_lists_len;
use crate::cluster::listing::lists;
use crate::cluster::metrics::bump;
use crate::cluster::metrics::bump_by;
use crate::cluster::metrics::capped_add;
use crate::cluster::metrics::ClusterMetrics;
use crate::cluster::model::lemma_close_keeps_inv;
use crate::cluster::model::lemma_close_none;
use crate::cluster::model::lemma_close_one_more;
use crate::cluster::model::lemma_expired_are_pending;
use crate::cluster::model::lemma_nothing_pending;
use crate::cluster::model::lemma_pinged_connection_is_never_closed;
use crate::cluster::model::lemma_silent_connection_is_closed;
use crate::cluster::model::ConnView;
use crate::cluster::model::ServerView;
use crate::cluster::msg::ClusterMsg;
use crate::cluster::msg::Event;
use crate::cluster::msg::ExternalMsg;
use crate::cluster::msg::Notification;
use crate::cluster::status::ClusterStatus;
use crate::correlation_id::CorrelationId;
use crate::crdt::DotStore;
use crate::crdt::Element;
use crate::envelope::Envelope;
use crate::errors::ErrorKind;
use crate::executor::msg::ExecutorMsg;
use crate::members::contains_node;
use crate::members::delta_clone;
use crate::members::delta_store;
use crate::members::node_views;
use crate::members::orset_store;
use crate::members::Members;
use crate::msg::Msg;
use crate::msg::Req;
use crate::msg::Rpy;
use crate::node_id::NodeId;
use crate::pid::Pid;
use crate::timer_wheel::TimerWheel;
use orset::Delta;
use orset::ORSet;
use std::collections::HashMap;
use std::collections::HashSet;
use vstd::prelude::*;
use vstd::string::StringExecFns;

verus! {

broadcast use vstd::std_specs::hash::group_hash_axioms;

/// The largest frame that a connection accepts, in bytes.
pub const MAX_FRAME_SIZE: u32 = 104857600;

/// The time between two ticks of the timing wheel, in milliseconds.
pub const TICK_TIME: usize = 1000;

/// The time without a sign of life after which a connection is closed, in
/// milliseconds.
pub const REQUEST_TIMEOUT: usize = 5000;

/// The time between two ticks of the executor, in milliseconds.
pub const EXECUTOR_TICK_TIME: usize = 100;

/// The record of one connection.
#[derive(Debug)]
pub struct Conn {
    /// The peer, once it is known.
    pub node: Option<NodeId>,
    /// Whether this node opened the connection.
    pub is_client: bool,
    /// Whether the snapshot of the member set went out on it.
    pub members_sent: bool,
    /// The bucket of the timing wheel that holds the connection.
    pub timer_wheel_index: usize,
}

/// The view of an optional node identifier.
pub open spec fn opt_node_view(node: Option<NodeId>) -> Option<Element> {
    match node {
        Some(n) => Some(n@),
        None => None,
    }
}

impl View for Conn {
    type V = ConnView;

    open spec fn view(&self) -> ConnView {
        ConnView {
            node: opt_node_view(self.node),
            is_client: self.is_client,
            members_sent: self.members_sent,
            slot: self.timer_wheel_index as int,
        }
    }
}

impl Conn {
    /// The record of a fresh connection: nothing was sent on it, and its place
    /// in the timing wheel is still to be set.
    pub fn new(node: Option<NodeId>, is_client: bool) -> (c: Conn)
        ensures
            c == (Conn { node, is_client, members_sent: false, timer_wheel_index: 0 }),
    {
        Conn { node, is_client, members_sent: false, timer_wheel_index: 0 }
    }
}

/// The state of a cluster server.
pub struct ClusterServer {
    pid: Pid,
    node: NodeId,
    members: Members,
    timer_wheel: TimerWheel,
    listener_id: usize,
    timer_id: usize,
    executor_timer_id: usize,
    connections: HashMap<usize, Conn>,
    established: Established,
    metrics: ClusterMetrics,
}

impl View for ClusterServer {
    type V = ServerView;

    closed spec fn view(&self) -> ServerView {
        ServerView {
            node: self.node@,
            members: self.members@,
            additions: self.members.additions(),
            wheel: self.timer_wheel@,
            conns: self.connections@.map_values(|c: Conn| c@),
            established: self.established@,
            listener_id: self.listener_id,
            timer_id: self.timer_id,
            executor_timer_id: self.executor_timer_id,
            metrics: self.metrics,
        }
    }
}

/// The view of the pid under which the cluster server of `node` is addressed.
pub open spec fn cluster_server_pid(node: Element) -> (
    Seq<char>,
    Option<Seq<char>>,
    (Seq<char>, Seq<char>),
) {
    ("cluster_server"@, Some("rabble"@), node)
}

impl ClusterServer {
    /// The parts of the server agree with each other, but for the connections
    /// `pending`, which a tick has taken out of the timing wheel.
    closed spec fn inv(&self, pending: Set<usize>) -> bool {
        &&& self@.inv(pending)
        &&& self@.wheel.slots.len() == REQUEST_TIMEOUT / TICK_TIME
        &&& self.members.wf()
        &&& self.established.wf()
        &&& self.members.actor() == self.node.text()
        &&& self.pid@ == cluster_server_pid(self.node@)
    }

    /// The parts of the server agree with each other, and its model is well
    /// formed.
    pub closed spec fn wf(&self) -> bool {
        self.inv(Set::empty())
    }

    /// The pid under which the server is addressed.
    pub closed spec fn spec_pid(&self) -> Pid {
        self.pid
    }

    /// A well-formed server has a well-formed model, and its timing wheel has
    /// a bucket for every tick of the request timeout.
    pub proof fn lemma_wf(&self)
        requires
            self.wf(),
        ensures
            self@.wf(),
            self@.wheel.slots.len() == REQUEST_TIMEOUT / TICK_TIME,
            self@.wheel.slots.len() >= 2,
            self.spec_pid()@ == cluster_server_pid(self@.node),
    {
    }

    /// Liveness of a server's connections, by its timing wheel. A connection
    /// that gives no sign of life is closed within as many ticks as the request
    /// timeout has. A connection that proves alive between every two ticks is
    /// never closed for silence, however many ticks pass, while the local node
    /// and the peer are members: when each tick comes it sits in one bucket of
    /// the wheel, the freshest.
    pub proof fn lemma_liveness(&self, id: usize, n: nat)
        requires
            self.wf(),
            self@.conns.contains_key(id),
        ensures
            !self@.tick_n((REQUEST_TIMEOUT / TICK_TIME) as nat).conns.contains_key(id),
            self@.members.contains(self@.node) && (self@.conns[id].node matches Some(e)
                ==> self@.members.contains(e)) ==> {
                &&& self@.pinged_n(id, n).wf()
                &&& self@.pinged_n(id, n).conns.contains_key(id)
                &&& n > 0 ==> self@.pinged_n(id, (n - 1) as nat).reset_timer(
                    id,
                ).wheel.holds_only_in(
                    id,
                    self@.pinged_n(id, (n - 1) as nat).reset_timer(id).wheel.current,
                )
            },
    {
        lemma_silent_connection_is_closed(self@, id, (REQUEST_TIMEOUT / TICK_TIME) as nat);
        if self@.members.contains(self@.node) && (self@.conns[id].node matches Some(e)
            ==> self@.members.contains(e)) {
            lemma_pinged_connection_is_never_closed(self@, id, n);
        }
    }

    /// The server of `node`: `node` is the only member, there is no connection,
    /// and the timing wheel spans the request timeout.
    pub fn new(node: NodeId) -> (s: ClusterServer)
        ensures
            s.wf(),
            s@.node == node@,
            s@.members == DotStore::empty().with_add(node@, (node.text(), 1)),
            s@.members.elements() == set![node@],
            s@.additions == 1,
            s@.wheel.current == 0,
            s@.wheel.slots == Seq::new(
                (REQUEST_TIMEOUT / TICK_TIME) as nat,
                |i: int| Set::<usize>::empty(),
            ),
            s@.conns == Map::<usize, ConnView>::empty(),
            s@.established == Map::<Element, usize>::empty(),
            s@.listener_id == 0,
            s@.timer_id == 0,
            s@.executor_timer_id == 0,
            s@.metrics == ClusterMetrics::zero(),
    {
        let pid = Pid {
            group: Some(String::from_str("rabble")),
            name: String::from_str("cluster_server"),
            node: node.clone(),
        };
        let s = ClusterServer {
            pid,
            node: node.clone(),
            members: Members::new(node),
            timer_wheel: TimerWheel::new(REQUEST_TIMEOUT / TICK_TIME),
            listener_id: 0,
            timer_id: 0,
            executor_timer_id: 0,
            connections: HashMap::new(),
            established: Established::new(),
            metrics: ClusterMetrics::new(),
        };
        proof {
            assert(s@.conns =~= Map::<usize, ConnView>::empty());
        }
        s
    }

    /// The pid under which the server is addressed.
    pub fn pid(&self) -> (p: &Pid)
        ensures
            *p == self.spec_pid(),
    {
        &self.pid
    }

    /// Takes note of the registrations that the reactor gave to the listening
    /// socket, to the timer of the timing wheel and to the timer of the
    /// executor.
    pub fn set_registrations(&mut self, listener_id: usize, timer_id: usize, executor_timer_id: usize)
        requires
            old(self).wf(),
        ensures
            final(self).wf(),
            final(self).spec_pid() == old(self).spec_pid(),
            final(self)@ == (ServerView {
                listener_id,
                timer_id,
                executor_timer_id,
                ..old(self)@
            }),
    {
        self.listener_id = listener_id;
        self.timer_id = timer_id;
        self.executor_timer_id = executor_timer_id;
    }

    /// Whether the snapshot of the member set went out on the connection `id`;
    /// `None` where there is no such connection.
    pub fn members_sent(&self, id: usize) -> (r: Option<bool>)
        ensures
            r == if self@.conns.contains_key(id) {
                Some(self@.conns[id].members_sent)
            } else {
                None
            },
    {
        match self.connections.get(&id) {
            Some(conn) => Some(conn.members_sent),
            None => None,
        }
    }

    /// Drops the record of the connection `id` with its place in the timing
    /// wheel and its entry in the index. Says whether there was such a record.
    fn close_record(&mut self, id: usize, Ghost(pending): Ghost<Set<usize>>) -> (known: bool)
        requires
            old(self).inv(pending),
        ensures
            final(self).inv(pending),
            final(self).spec_pid() == old(self).spec_pid(),
            known == old(self)@.conns.contains_key(id),
            final(self)@ == old(self)@.close(id),
    {
        match self.connections.remove(&id) {
            Some(conn) => {
                proof {
                    assert(old(self)@.conns.contains_key(id));
                    assert(old(self)@.conns[id] == conn@);
                    assert(old(self)@.wheel.slots.len() == self.timer_wheel@.slots.len());
                }
                self.timer_wheel.remove(id, conn.timer_wheel_index);
                if let Some(node) = conn.node {
                    if let Some(saved) = self.established.get(&node) {
                        if saved == id {
                            self.established.remove(&node);
                        }
                    }
                }
                proof {
                    let before = old(self)@;
                    let after = self@;
                    let want = before.close(id);
                    assert(after.conns =~= want.conns);
                    assert(after.wheel.slots =~= want.wheel.slots) by {
                        assert forall|i: int| 0 <= i < after.wheel.slots.len() implies #[trigger]
                            after.wheel.slots[i] =~= want.wheel.slots[i] by {
                            assert(before.wheel.slots[i].contains(id) ==> i == before.conns[id].slot);
                        }
                    }
                    assert(after.established =~= want.established) by {
                        assert forall|e: Element| #[trigger]
                            before.established.contains_key(e) && before.established[e]
                                == id implies before.conns[id].node == Some(e) by {}
                    }
                    assert(after.conns.dom() =~= before.conns.dom().remove(id));
                }
                true
            },
            None => {
                proof {
                    assert(!old(self)@.conns.contains_key(id));
                    let before = old(self)@;
                    let want = before.close(id);
                    assert(before.conns =~= want.conns);
                    assert(before.wheel.slots =~= want.wheel.slots) by {
                        assert forall|i: int| 0 <= i < before.wheel.slots.len() implies #[trigger]
                            before.wheel.slots[i] =~= want.wheel.slots[i] by {
                            assert(!before.wheel.slots[i].contains(id));
                        }
                    }
                    assert(before.established =~= want.established);
                    assert(self@.conns =~= before.conns);
                }
                false
            },
        }
    }

    /// Closes the connection `id` and removes all state that belongs to it.
    /// Nothing happens where there is no such connection.
    pub fn close<T>(&mut self, id: usize) -> (actions: Vec<Action<T>>)
        requires
            old(self).wf(),
        ensures
            final(self).wf(),
            final(self).spec_pid() == old(self).spec_pid(),
            final(self)@ == old(self)@.close(id),
            old(self)@.conns.contains_key(id) ==> actions@.len() == 1 && (actions@[0] matches Action::Close(
                ids,
            ) && ids@ == seq![id]),
            !old(self)@.conns.contains_key(id) ==> actions@.len() == 0,
    {
        let mut actions: Vec<Action<T>> = Vec::new();
        if self.close_record(id, Ghost(Set::empty())) {
            let mut ids: Vec<usize> = Vec::new();
            ids.push(id);
            actions.push(Action::Close(ids));
        }
        actions
    }

    /// Closes each of the listed connections and returns those that were known,
    /// each once.
    fn close_listed(&mut self, ids: &Vec<usize>, Ghost(pending): Ghost<Set<usize>>) -> (closed: Vec<
        usize,
    >)
        requires
            old(self).inv(pending),
        ensures
            final(self).inv(pending - ids@.to_set()),
            final(self).spec_pid() == old(self).spec_pid(),
            final(self)@ == old(self)@.close_all(ids@.to_set()),
            lists(closed@, ids@.to_set().intersect(old(self)@.conns.dom())),
    {
        let mut closed: Vec<usize> = Vec::new();
        let mut i: usize = 0;
        proof {
            lemma_close_none(self@);
            assert(ids@.take(0).to_set() =~= Set::<usize>::empty());
        }
        while i < ids.len()
            invariant
                i <= ids@.len(),
                self.inv(pending),
                self.spec_pid() == old(self).spec_pid(),
                self@ == old(self)@.close_all(ids@.take(i as int).to_set()),
                lists(closed@, ids@.take(i as int).to_set().intersect(old(self)@.conns.dom())),
            decreases ids.len() - i,
        {
            let id = ids[i];
            let ghost done = ids@.take(i as int).to_set();
            let known = self.close_record(id, Ghost(pending));
            proof {
                lemma_close_one_more(old(self)@, done, id);
                assert(ids@.take(i + 1) =~= ids@.take(i as int).push(id));
                ids@.take(i as int).lemma_push_to_set_commute(id);
                assert(known == (old(self)@.conns.contains_key(id) && !done.contains(id)));
            }
            if known {
                let ghost before = closed@;
                closed.push(id);
                proof {
                    assert forall|a: usize| closed@.contains(a) <==> done.insert(id).intersect(
                        old(self)@.conns.dom(),
                    ).contains(a) by {
                        if closed@.contains(a) {
                            let k = choose|k: int| 0 <= k < closed@.len() && closed@[k] == a;
                            if k < before.len() {
                                assert(before[k] == a);
                                assert(before.contains(a));
                            }
                        }
                        if before.contains(a) {
                            let k = choose|k: int| 0 <= k < before.len() && before[k] == a;
                            assert(closed@[k] == a);
                        }
                        if a == id {
                            assert(closed@[before.len() as int] == a);
                        }
                    }
                    assert forall|x: int, y: int|
                        0 <= x < closed@.len() && 0 <= y < closed@.len() && x != y implies closed@[x]
                        != closed@[y] by {
                        if x < before.len() {
                            assert(before.contains(before[x]));
                        }
                        if y < before.len() {
                            assert(before.contains(before[y]));
                        }
                    }
                }
            } else {
                proof {
                    assert(done.insert(id).intersect(old(self)@.conns.dom()) =~= done.intersect(
                        old(self)@.conns.dom(),
                    ));
                }
            }
            i = i + 1;
        }
        proof {
            assert(ids@.take(ids@.len() as int) =~= ids@);
            lemma_close_keeps_inv(old(self)@, ids@.to_set(), pending);
        }
        closed
    }

    /// Records a new connection under `id` and gives it a place in the timing
    /// wheel: an outgoing connection to `node` where that is given, else an
    /// accepted one. A record that was there under `id` is replaced.
    pub fn init_connection(&mut self, id: usize, node: Option<NodeId>)
        requires
            old(self).wf(),
        ensures
            final(self).wf(),
            final(self).spec_pid() == old(self).spec_pid(),
            final(self)@ == old(self)@.init_connection(id, opt_node_view(node)),
    {
        let _ = self.close_record(id, Ghost(Set::empty()));
        let is_client = node.is_some();
        let mut conn = Conn::new(node, is_client);
        let ghost closed = self@;
        proof {
            lemma_close_keeps_inv(old(self)@, set![id], Set::empty());
        }
        conn.timer_wheel_index = self.timer_wheel.insert(id);
        self.connections.insert(id, conn);
        proof {
            let want = old(self)@.init_connection(id, opt_node_view(node));
            assert(self@.conns =~= want.conns);
            assert(self@.conns.dom() =~= closed.conns.dom().insert(id));
            assert forall|k: usize, i: int|
                self@.conns.contains_key(k) && 0 <= i < self@.wheel.slots.len() implies (#[trigger]
                self@.wheel.slots[i].contains(k) <==> i == self@.conns[k].slot) by {
                if k != id {
                    assert(closed.wheel.slots[i].contains(k) <==> i == closed.conns[k].slot);
                } else {
                    assert(!closed.wheel.slots[i].contains(k));
                }
            }
            assert forall|k: usize, i: int|
                0 <= i < self@.wheel.slots.len() && #[trigger] self@.wheel.slots[i].contains(
                    k,
                ) implies self@.conns.contains_key(k) by {
                if k != id {
                    assert(closed.wheel.slots[i].contains(k));
                }
            }
        }
    }

    /// Moves the connection `id` to the freshest bucket of the timing wheel,
    /// because it proved alive. Nothing happens where there is no such
    /// connection.
    pub fn reset_timer(&mut self, id: usize)
        requires
            old(self).wf(),
        ensures
            final(self).wf(),
            final(self).spec_pid() == old(self).spec_pid(),
            final(self)@ == old(self)@.reset_timer(id),
    {
        match self.connections.remove(&id) {
            Some(conn) => {
                let mut conn = conn;
                proof {
                    assert(old(self)@.conns.contains_key(id));
                    assert(old(self)@.conns[id] == conn@);
                }
                self.timer_wheel.remove(id, conn.timer_wheel_index);
                conn.timer_wheel_index = self.timer_wheel.insert(id);
                self.connections.insert(id, conn);
                proof {
                    let before = old(self)@;
                    let want = before.reset_timer(id);
                    assert(self@.conns =~= want.conns);
                    assert(self@.conns.dom() =~= before.conns.dom());
                    assert forall|k: usize, i: int|
                        self@.conns.contains_key(k) && 0 <= i < self@.wheel.slots.len() implies (
                        #[trigger] self@.wheel.slots[i].contains(k) <==> i
                            == self@.conns[k].slot) by {
                        assert(before.wheel.slots[i].contains(k) <==> i == before.conns[k].slot);
                    }
                    assert forall|k: usize, i: int|
                        0 <= i < self@.wheel.slots.len() && #[trigger] self@.wheel.slots[i].contains(
                            k,
                        ) implies self@.conns.contains_key(k) by {
                        if k != id {
                            assert(before.wheel.slots[i].contains(k));
                        }
                    }
                    assert forall|e: Element| #[trigger]
                        self@.established.contains_key(e) implies self@.conns.contains_key(
                        self@.established[e],
                    ) && self@.conns[self@.established[e]].node == Some(e) by {
                        assert(before.established.contains_key(e));
                    }
                }
            },
            None => {
                proof {
                    assert(!old(self)@.conns.contains_key(id));
                    assert(self@.conns =~= old(self)@.conns);
                }
            },
        }
    }

    /// The connections in reach of a broadcast, each once: those on which the
    /// snapshot of the member set went out.
    pub fn broadcast_targets(&self) -> (r: Vec<usize>)
        ensures
            lists(r@, self@.broadcast_targets()),
    {
        let ids = keys_of(&self.connections);
        let mut r: Vec<usize> = Vec::new();
        let mut i: usize = 0;
        while i < ids.len()
            invariant
                i <= ids@.len(),
                lists(ids@, self.connections@.dom()),
                r@.no_duplicates(),
                forall|a: usize|
                    r@.contains(a) <==> self@.broadcast_targets().contains(a) && exists|j: int|
                        0 <= j < i && ids@[j] == a,
            decreases ids.len() - i,
        {
            let id = ids[i];
            let sent = match self.connections.get(&id) {
                Some(conn) => conn.members_sent,
                None => false,
            };
            let ghost before = r@;
            if sent {
                r.push(id);
            }
            proof {
                assert(ids@.contains(id));
                assert(sent == self@.broadcast_targets().contains(id));
                assert forall|a: usize|
                    r@.contains(a) <==> self@.broadcast_targets().contains(a) && exists|j: int|
                        0 <= j < i + 1 && ids@[j] == a by {
                    if r@.contains(a) {
                        let k = choose|k: int| 0 <= k < r@.len() && r@[k] == a;
                        if k < before.len() {
                            assert(before[k] == a);
                            assert(before.contains(a));
                        } else {
                            assert(ids@[i as int] == a);
                        }
                    }
                    if self@.broadcast_targets().contains(a) && exists|j: int|
                        0 <= j < i + 1 && ids@[j] == a {
                        let j = choose|j: int| 0 <= j < i + 1 && ids@[j] == a;
                        if j < i {
                            assert(before.contains(a));
                            let k = choose|k: int| 0 <= k < before.len() && before[k] == a;
                            assert(r@[k] == a);
                        } else {
                            assert(r@[before.len() as int] == a);
                        }
                    }
                }
                assert forall|x: int, y: int|
                    0 <= x < r@.len() && 0 <= y < r@.len() && x != y implies r@[x] != r@[y] by {
                    if x < before.len() {
                        assert(before.contains(before[x]));
                    }
                    if y < before.len() {
                        assert(before.contains(before[y]));
                    }
                }
            }
            i = i + 1;
        }
        proof {
            assert forall|a: usize| self@.broadcast_targets().contains(a) implies r@.contains(
                a,
            ) by {
                assert(ids@.contains(a));
            }
        }
        r
    }

    /// We only want a single connection between two nodes. Where a connection
    /// is recorded for `from` while the connection `id` identifies its peer as
    /// `from`, one of the two has to go: the one that the lesser of the two
    /// nodes opened. Returns the connection to close, or `None` where none is
    /// recorded for `from`.
    pub fn choose_connection_to_close(&self, id: usize, from: &NodeId) -> (r: Option<usize>)
        requires
            self.wf(),
        ensures
            r == self@.connection_to_close(id, from@),
    {
        if let Some(saved_id) = self.established.get(from) {
            if let Some(saved_conn) = self.connections.get(&saved_id) {
                // A client connection always comes from the local node.
                if (saved_conn.is_client && self.node < *from) || (!saved_conn.is_client && *from
                    < self.node) {
                    return Some(saved_id);
                } else {
                    return Some(id);
                }
            }
        }
        None
    }

    /// The message that introduces this node to a peer: its identity and a
    /// snapshot of its member set.
    pub fn members_msg<T>(&self) -> (msg: ExternalMsg<T>)
        ensures
            msg matches ExternalMsg::Members { from, orset } && from@ == self@.node && orset_store(
                orset,
            ) == self@.members,
    {
        ExternalMsg::Members { from: self.node.clone(), orset: self.members.get_orset() }
    }

    /// Queues the snapshot of the member set on the connection `id` and takes
    /// note that it went out. Nothing happens where there is no such
    /// connection.
    pub fn send_members<T>(&mut self, id: usize) -> (actions: Vec<Action<T>>)
        requires
            old(self).wf(),
        ensures
            final(self).wf(),
            final(self).spec_pid() == old(self).spec_pid(),
            final(self)@ == old(self)@.mark_members_sent(id),
            old(self)@.conns.contains_key(id) ==> actions@.len() == 1 && sends_members(
                actions@[0],
                id,
                old(self)@.node,
                old(self)@.members,
            ),
            !old(self)@.conns.contains_key(id) ==> actions@.len() == 0,
    {
        let mut actions: Vec<Action<T>> = Vec::new();
        match self.connections.remove(&id) {
            Some(conn) => {
                let mut conn = conn;
                proof {
                    assert(old(self)@.conns.contains_key(id));
                    assert(old(self)@.conns[id] == conn@);
                }
                conn.members_sent = true;
                self.connections.insert(id, conn);
                let mut to: Vec<usize> = Vec::new();
                to.push(id);
                actions.push(Action::Send { to, msg: self.members_msg() });
                proof {
                    let before = old(self)@;
                    assert(self@.conns =~= before.mark_members_sent(id).conns);
                    assert(self@.conns.dom() =~= before.conns.dom());
                    assert forall|k: usize, i: int|
                        self@.conns.contains_key(k) && 0 <= i < self@.wheel.slots.len() implies (
                        #[trigger] self@.wheel.slots[i].contains(k) <==> i
                            == self@.conns[k].slot) by {
                        assert(before.wheel.slots[i].contains(k) <==> i == before.conns[k].slot);
                    }
                    assert forall|e: Element| #[trigger]
                        self@.established.contains_key(e) implies self@.conns.contains_key(
                        self@.established[e],
                    ) && self@.conns[self@.established[e]].node == Some(e) by {
                        assert(before.established.contains_key(e));
                    }
                }
            },
            None => {
                proof {
                    assert(!old(self)@.conns.contains_key(id));
                    assert(self@.conns =~= old(self)@.conns);
                }
            },
        }
        actions
    }

    /// The action that queues `msg` on every connection in reach of a
    /// broadcast.
    pub fn broadcast<T>(&self, msg: ExternalMsg<T>) -> (action: Action<T>)
        ensures
            action matches Action::Send { to, msg: m } && m == msg && lists(
                to@,
                self@.broadcast_targets(),
            ),
    {
        Action::Send { to: self.broadcast_targets(), msg }
    }

    /// The action that gossips one mutation of the member set.
    pub fn broadcast_delta<T>(&self, delta: Delta<(String, String)>) -> (action: Action<T>)
        ensures
            broadcasts_delta(action, self@.broadcast_targets(), delta_store(delta)),
    {
        self.broadcast(ExternalMsg::Delta(delta))
    }

    /// The action that sends a heartbeat to every peer.
    pub fn broadcast_pings<T>(&self) -> (action: Action<T>)
        ensures
            broadcasts_ping(action, self@.broadcast_targets()),
    {
        self.broadcast(ExternalMsg::Ping)
    }

    /// Transitions the connection `id` from unestablished to established: the
    /// peer has identified itself as `from` and handed over its member set,
    /// which is merged. If there is already an established connection between
    /// the two nodes, one of the two is closed.
    pub fn establish_connection<T>(
        &mut self,
        id: usize,
        from: NodeId,
        orset: ORSet<(String, String)>,
    ) -> (actions: Vec<Action<T>>)
        requires
            old(self).wf(),
        ensures
            final(self).wf(),
            final(self).spec_pid() == old(self).spec_pid(),
            final(self)@ == old(self)@.establish_connection(id, from@, orset_store(orset)),
            match old(self)@.connection_to_close(id, from@) {
                Some(c) => if old(self)@.conns.contains_key(c) {
                    actions@.len() == 1 && (actions@[0] matches Action::Close(ids) && ids@
                        == seq![c])
                } else {
                    actions@.len() == 0
                },
                None => actions@.len() == 0,
            },
    {
        let _ = self.members.join(orset);
        let ghost merged = self@;
        let mut actions: Vec<Action<T>> = Vec::new();
        if let Some(close_id) = self.choose_connection_to_close(id, &from) {
            let mut closed = self.close::<T>(close_id);
            actions.append(&mut closed);
            if close_id == id {
                return actions;
            }
        }
        let ghost start = self@;
        proof {
            assert(!start.established.contains_key(from@));
        }
        match self.connections.remove(&id) {
            Some(conn) => {
                let mut conn = conn;
                proof {
                    assert(start.conns.contains_key(id));
                    assert(start.conns[id] == conn@);
                }
                let forget = match &conn.node {
                    Some(prev) => *prev != from && match self.established.get(prev) {
                        Some(saved) => saved == id,
                        None => false,
                    },
                    None => false,
                };
                if forget {
                    if let Some(prev) = &conn.node {
                        self.established.remove(prev);
                    }
                }
                conn.node = Some(from.clone());
                self.timer_wheel.remove(id, conn.timer_wheel_index);
                conn.timer_wheel_index = self.timer_wheel.insert(id);
                self.connections.insert(id, conn);
                self.established.insert(from, id);
                proof {
                    let want = start.record_established(id, from@);
                    assert(self@.conns =~= want.conns);
                    assert(self@.established =~= want.established);
                    assert(self@.conns.dom() =~= start.conns.dom());
                    assert forall|k: usize, i: int|
                        self@.conns.contains_key(k) && 0 <= i < self@.wheel.slots.len() implies (
                        #[trigger] self@.wheel.slots[i].contains(k) <==> i
                            == self@.conns[k].slot) by {
                        assert(start.wheel.slots[i].contains(k) <==> i == start.conns[k].slot);
                    }
                    assert forall|k: usize, i: int|
                        0 <= i < self@.wheel.slots.len() && #[trigger] self@.wheel.slots[i].contains(
                            k,
                        ) implies self@.conns.contains_key(k) by {
                        if k != id {
                            assert(start.wheel.slots[i].contains(k));
                        }
                    }
                    assert forall|e: Element| #[trigger]
                        self@.established.contains_key(e) implies self@.conns.contains_key(
                        self@.established[e],
                    ) && self@.conns[self@.established[e]].node == Some(e) by {
                        if e != from@ {
                            assert(start.established.contains_key(e));
                        }
                    }
                }
            },
            None => {
                proof {
                    assert(!start.conns.contains_key(id));
                    assert(self@.conns =~= start.conns);
                }
            },
        }
        actions
    }

    /// The peers of the connections, pending or established. A peer may be
    /// named more than once.
    pub fn known_peers(&self) -> (r: Vec<NodeId>)
        ensures
            forall|e: Element| node_views(r@).contains(e) <==> self@.known_peers().contains(e),
    {
        let ids = keys_of(&self.connections);
        let mut r: Vec<NodeId> = Vec::new();
        let mut i: usize = 0;
        while i < ids.len()
            invariant
                i <= ids@.len(),
                lists(ids@, self.connections@.dom()),
                forall|e: Element|
                    node_views(r@).contains(e) <==> exists|j: int|
                        0 <= j < i && #[trigger] self@.conns[ids@[j]].node == Some(e),
            decreases ids.len() - i,
        {
            let id = ids[i];
            let ghost before = r@;
            proof {
                assert(ids@.contains(id));
            }
            if let Some(conn) = self.connections.get(&id) {
                if let Some(node) = &conn.node {
                    r.push(node.clone());
                }
            }
            proof {
                assert forall|e: Element|
                    node_views(r@).contains(e) <==> exists|j: int|
                        0 <= j < i + 1 && #[trigger] self@.conns[ids@[j]].node == Some(e) by {
                    if node_views(r@).contains(e) {
                        let k = choose|k: int|
                            0 <= k < node_views(r@).len() && node_views(r@)[k] == e;
                        if k < before.len() {
                            assert(node_views(before)[k] == e);
                            assert(node_views(before).contains(e));
                        } else {
                            assert(self@.conns[ids@[i as int]].node == Some(e));
                        }
                    }
                    if exists|j: int|
                        0 <= j < i + 1 && #[trigger] self@.conns[ids@[j]].node == Some(e) {
                        let j = choose|j: int|
                            0 <= j < i + 1 && #[trigger] self@.conns[ids@[j]].node == Some(e);
                        if j < i {
                            assert(node_views(before).contains(e));
                            let k = choose|k: int|
                                0 <= k < node_views(before).len() && node_views(before)[k] == e;
                            assert(node_views(r@)[k] == e);
                        } else {
                            assert(node_views(r@)[before.len() as int] == e);
                        }
                    }
                }
            }
            i = i + 1;
        }
        proof {
            assert forall|e: Element| node_views(r@).contains(e) <==> self@.known_peers().contains(
                e,
            ) by {
                if node_views(r@).contains(e) {
                    let j = choose|j: int|
                        0 <= j < ids@.len() && #[trigger] self@.conns[ids@[j]].node == Some(e);
                    assert(ids@.contains(ids@[j]));
                    assert(self@.conns.contains_key(ids@[j]));
                }
                if self@.known_peers().contains(e) {
                    let id = choose|id: usize| #[trigger]
                        self@.conns.contains_key(id) && self@.conns[id].node == Some(e);
                    assert(ids@.contains(id));
                    let j = choose|j: int| 0 <= j < ids@.len() && ids@[j] == id;
                    assert(self@.conns[ids@[j]].node == Some(e));
                }
            }
        }
        r
    }

    /// Closes every connection: the node takes no part in the cluster any more.
    pub fn disconnect_all<T>(&mut self) -> (action: Action<T>)
        requires
            old(self).wf(),
        ensures
            final(self).wf(),
            final(self).spec_pid() == old(self).spec_pid(),
            final(self)@ == old(self)@.close_all(old(self)@.conns.dom()),
            final(self)@.conns == Map::<usize, ConnView>::empty(),
            final(self)@.established == Map::<Element, usize>::empty(),
            closes(action, old(self)@.conns.dom()),
    {
        let ids = keys_of(&self.connections);
        proof {
            assert(ids@.to_set() =~= self@.conns.dom());
        }
        let closed = self.close_listed(&ids, Ghost(Set::empty()));
        proof {
            assert(ids@.to_set().intersect(old(self)@.conns.dom()) =~= old(self)@.conns.dom());
            lemma_nothing_pending(self@, Set::<usize>::empty() - ids@.to_set());
            assert(self@.conns =~= Map::<usize, ConnView>::empty());
            assert(self@.established =~= Map::<Element, usize>::empty()) by {
                assert forall|e: Element| !self@.established.contains_key(e) by {
                    if old(self)@.established.contains_key(e) {
                        assert(old(self)@.conns.contains_key(old(self)@.established[e]));
                    }
                }
            }
        }
        Action::Close(closed)
    }

    /// Closes every connection, pending or established, whose peer is one of
    /// the listed nodes.
    pub fn disconnect_established<T>(&mut self, to_disconnect: Vec<NodeId>) -> (action: Action<T>)
        requires
            old(self).wf(),
        ensures
            final(self).wf(),
            final(self).spec_pid() == old(self).spec_pid(),
            final(self)@ == old(self)@.close_all(
                old(self)@.peer_ids(node_views(to_disconnect@).to_set()),
            ),
            closes(action, old(self)@.peer_ids(node_views(to_disconnect@).to_set())),
    {
        let ids = self.peer_connections(&to_disconnect);
        proof {
            let want = self@.peer_ids(node_views(to_disconnect@).to_set());
            assert(ids@.to_set() =~= want);
            assert(want.intersect(self@.conns.dom()) =~= want);
        }
        let closed = self.close_listed(&ids, Ghost(Set::empty()));
        proof {
            lemma_nothing_pending(self@, Set::<usize>::empty() - ids@.to_set());
        }
        Action::Close(closed)
    }

    /// The connections, pending or established, whose peer is one of the
    /// listed nodes, each once.
    pub fn peer_connections(&self, nodes: &Vec<NodeId>) -> (r: Vec<usize>)
        ensures
            lists(r@, self@.peer_ids(node_views(nodes@).to_set())),
    {
        let ids = keys_of(&self.connections);
        let mut r: Vec<usize> = Vec::new();
        let mut i: usize = 0;
        while i < ids.len()
            invariant
                i <= ids@.len(),
                lists(ids@, self.connections@.dom()),
                r@.no_duplicates(),
                forall|a: usize|
                    r@.contains(a) <==> self@.peer_ids(node_views(nodes@).to_set()).contains(a)
                        && exists|j: int| 0 <= j < i && ids@[j] == a,
            decreases ids.len() - i,
        {
            let id = ids[i];
            let listed = match self.connections.get(&id) {
                Some(conn) => match &conn.node {
                    Some(node) => contains_node(nodes, node),
                    None => false,
                },
                None => false,
            };
            let ghost before = r@;
            if listed {
                r.push(id);
            }
            proof {
                assert(ids@.contains(id));
                assert(listed == self@.peer_ids(node_views(nodes@).to_set()).contains(id)) by {
                    assert(node_views(nodes@).to_set().contains(self@.conns[id].node->0)
                        <==> node_views(nodes@).contains(self@.conns[id].node->0));
                }
                assert forall|a: usize|
                    r@.contains(a) <==> self@.peer_ids(node_views(nodes@).to_set()).contains(a)
                        && exists|j: int| 0 <= j < i + 1 && ids@[j] == a by {
                    if r@.contains(a) {
                        let k = choose|k: int| 0 <= k < r@.len() && r@[k] == a;
                        if k < before.len() {
                            assert(before[k] == a);
                            assert(before.contains(a));
                        } else {
                            assert(ids@[i as int] == a);
                        }
                    }
                    if self@.peer_ids(node_views(nodes@).to_set()).contains(a) && exists|j: int|
                        0 <= j < i + 1 && ids@[j] == a {
                        let j = choose|j: int| 0 <= j < i + 1 && ids@[j] == a;
                        if j < i {
                            assert(before.contains(a));
                            let k = choose|k: int| 0 <= k < before.len() && before[k] == a;
                            assert(r@[k] == a);
                        } else {
                            assert(r@[before.len() as int] == a);
                        }
                    }
                }
                assert forall|x: int, y: int|
                    0 <= x < r@.len() && 0 <= y < r@.len() && x != y implies r@[x] != r@[y] by {
                    if x < before.len() {
                        assert(before.contains(before[x]));
                    }
                    if y < before.len() {
                        assert(before.contains(before[y]));
                    }
                }
            }
            i = i + 1;
        }
        proof {
            assert forall|a: usize|
                self@.peer_ids(node_views(nodes@).to_set()).contains(a) implies r@.contains(
                a,
            ) by {
                assert(ids@.contains(a));
            }
        }
        r
    }

    /// Ensures that the connections are right for the member set. Where the
    /// local node is no member any more, every connection is closed. Else a
    /// connection is to be opened to every member that has none, and every
    /// connection to a peer that is no member is closed, pending or
    /// established.
    pub fn check_connections<T>(&mut self) -> (actions: Vec<Action<T>>)
        requires
            old(self).wf(),
        ensures
            final(self).wf(),
            final(self).spec_pid() == old(self).spec_pid(),
            final(self)@ == old(self)@.check_connections(),
            reconciles(actions@, old(self)@),
    {
        let all = self.members.all();
        let mut actions: Vec<Action<T>> = Vec::new();
        proof {
            assert(node_views(all@).contains(self.node@) <==> self@.members.contains(self.node@));
        }
        // If this node is no longer a member of the cluster, disconnect from all nodes.
        if !contains_node(&all, &self.node) {
            actions.push(self.disconnect_all());
            return actions;
        }
        // Pending, client connected, or established server side connections.
        let known = self.known_peers();
        let mut to_connect: Vec<NodeId> = Vec::new();
        let mut i: usize = 0;
        while i < all.len()
            invariant
                i <= all@.len(),
                self == old(self),
                node_views(all@).no_duplicates(),
                forall|e: Element| #[trigger]
                    node_views(all@).contains(e) <==> self@.members.contains(e),
                forall|e: Element|
                    node_views(known@).contains(e) <==> self@.known_peers().contains(e),
                node_views(to_connect@).no_duplicates(),
                forall|e: Element|
                    node_views(to_connect@).contains(e) <==> self@.to_connect().contains(e)
                        && exists|j: int| 0 <= j < i && node_views(all@)[j] == e,
            decreases all.len() - i,
        {
            let ghost before = node_views(to_connect@);
            let ghost e0 = node_views(all@)[i as int];
            proof {
                assert(node_views(all@).contains(e0));
            }
            if all[i] != self.node && !contains_node(&known, &all[i]) {
                to_connect.push(all[i].clone());
            }
            proof {
                let after = node_views(to_connect@);
                assert forall|e: Element|
                    after.contains(e) <==> self@.to_connect().contains(e) && exists|j: int|
                        0 <= j < i + 1 && node_views(all@)[j] == e by {
                    if after.contains(e) {
                        let k = choose|k: int| 0 <= k < after.len() && after[k] == e;
                        if k < before.len() {
                            assert(before[k] == e);
                            assert(before.contains(e));
                        } else {
                            assert(node_views(all@)[i as int] == e);
                        }
                    }
                    if self@.to_connect().contains(e) && exists|j: int|
                        0 <= j < i + 1 && node_views(all@)[j] == e {
                        let j = choose|j: int| 0 <= j < i + 1 && node_views(all@)[j] == e;
                        if j < i {
                            assert(before.contains(e));
                            let k = choose|k: int| 0 <= k < before.len() && before[k] == e;
                            assert(after[k] == e);
                        } else {
                            assert(after[before.len() as int] == e);
                        }
                    }
                }
                assert forall|x: int, y: int|
                    0 <= x < after.len() && 0 <= y < after.len() && x != y implies after[x]
                    != after[y] by {
                    if x < before.len() {
                        assert(before.contains(before[x]));
                    }
                    if y < before.len() {
                        assert(before.contains(before[y]));
                    }
                    if x == before.len() && y < before.len() {
                        let j = choose|j: int| 0 <= j < i && node_views(all@)[j] == before[y];
                        assert(node_views(all@)[j] != node_views(all@)[i as int]);
                    }
                    if y == before.len() && x < before.len() {
                        let j = choose|j: int| 0 <= j < i && node_views(all@)[j] == before[x];
                        assert(node_views(all@)[j] != node_views(all@)[i as int]);
                    }
                }
            }
            i = i + 1;
        }
        proof {
            assert forall|e: Element| self@.to_connect().contains(e) implies node_views(
                to_connect@,
            ).contains(e) by {
                assert(node_views(all@).contains(e));
            }
            lemma_lists_len(node_views(to_connect@), self@.to_connect());
        }
        let mut to_disconnect: Vec<NodeId> = Vec::new();
        let mut k: usize = 0;
        while k < known.len()
            invariant
                k <= known@.len(),
                self == old(self),
                forall|e: Element| #[trigger]
                    node_views(all@).contains(e) <==> self@.members.contains(e),
                forall|e: Element|
                    node_views(to_disconnect@).contains(e) <==> !self@.members.contains(e)
                        && exists|j: int| 0 <= j < k && node_views(known@)[j] == e,
            decreases known.len() - k,
        {
            let ghost before = node_views(to_disconnect@);
            let ghost e0 = node_views(known@)[k as int];
            if !contains_node(&all, &known[k]) {
                to_disconnect.push(known[k].clone());
            }
            proof {
                let after = node_views(to_disconnect@);
                assert forall|e: Element|
                    after.contains(e) <==> !self@.members.contains(e) && exists|j: int|
                        0 <= j < k + 1 && node_views(known@)[j] == e by {
                    if after.contains(e) {
                        let x = choose|x: int| 0 <= x < after.len() && after[x] == e;
                        if x < before.len() {
                            assert(before[x] == e);
                            assert(before.contains(e));
                        } else {
                            assert(node_views(known@)[k as int] == e);
                        }
                    }
                    if !self@.members.contains(e) && exists|j: int|
                        0 <= j < k + 1 && node_views(known@)[j] == e {
                        let j = choose|j: int| 0 <= j < k + 1 && node_views(known@)[j] == e;
                        if j < k {
                            assert(before.contains(e));
                            let x = choose|x: int| 0 <= x < before.len() && before[x] == e;
                            assert(after[x] == e);
                        } else {
                            assert(after[before.len() as int] == e);
                        }
                    }
                }
            }
            k = k + 1;
        }
        self.metrics.connection_attempts = bump_by(
            self.metrics.connection_attempts,
            to_connect.len(),
        );
        let ghost counted = self@;
        proof {
            let nodes = node_views(to_disconnect@).to_set();
            assert forall|id: usize|
                counted.peer_ids(nodes).contains(id) <==> old(self)@.to_disconnect().contains(
                    id,
                ) by {
                if old(self)@.conns.contains_key(id) {
                    match old(self)@.conns[id].node {
                        Some(e) => {
                            assert(nodes.contains(e) <==> node_views(to_disconnect@).contains(e));
                            if !old(self)@.members.contains(e) {
                                assert(old(self)@.known_peers().contains(e));
                                assert(node_views(known@).contains(e));
                                let j = choose|j: int|
                                    0 <= j < node_views(known@).len() && node_views(known@)[j]
                                        == e;
                                assert(node_views(to_disconnect@).contains(e));
                            }
                        },
                        None => {},
                    }
                }
            }
            assert(counted.peer_ids(nodes) =~= old(self)@.to_disconnect());
        }
        actions.push(Action::Connect(to_connect));
        actions.push(self.disconnect_established(to_disconnect));
        actions
    }

    /// Closes the connections that the timing wheel reported.
    pub fn deregister<T>(&mut self, expired: HashSet<usize>) -> (action: Action<T>)
        requires
            old(self).wf(),
        ensures
            final(self).wf(),
            final(self).spec_pid() == old(self).spec_pid(),
            final(self)@ == old(self)@.close_all(expired@),
            closes(action, expired@.intersect(old(self)@.conns.dom())),
    {
        let ids = items_of(&expired);
        proof {
            assert(ids@.to_set() =~= expired@);
        }
        let closed = self.close_listed(&ids, Ghost(Set::empty()));
        proof {
            lemma_nothing_pending(self@, Set::<usize>::empty() - ids@.to_set());
        }
        Action::Close(closed)
    }

    /// One tick of the timing wheel: the timer is armed again, the connections
    /// that gave no sign of life for a whole turn of the wheel are closed, a
    /// heartbeat goes to every peer that is left, and the connections are
    /// reconciled with the member set.
    pub fn tick<T>(&mut self) -> (actions: Vec<Action<T>>)
        requires
            old(self).wf(),
        ensures
            final(self).wf(),
            final(self).spec_pid() == old(self).spec_pid(),
            tick_result(old(self)@, final(self)@, actions@),
    {
        let mut actions: Vec<Action<T>> = Vec::new();
        actions.push(Action::Arm(self.timer_id));
        proof {
            lemma_expired_are_pending(self@);
        }
        let expired = self.timer_wheel.expire();
        let ids = items_of(&expired);
        proof {
            assert(ids@.to_set() =~= expired@);
        }
        let closed = self.close_listed(&ids, Ghost(expired@));
        proof {
            assert(expired@.intersect(old(self)@.conns.dom()) =~= expired@);
            lemma_nothing_pending(self@, expired@ - ids@.to_set());
        }
        actions.push(Action::Close(closed));
        actions.push(self.broadcast_pings());
        let mut reconciled = self.check_connections();
        let ghost tail = reconciled@;
        actions.append(&mut reconciled);
        proof {
            assert(actions@.subrange(3, actions@.len() as int) =~= tail);
        }
        actions
    }

    /// One tick of the executor's timer: the timer is armed again and the
    /// executor is told.
    pub fn tick_executor<T>(&mut self) -> (actions: Vec<Action<T>>)
        requires
            old(self).wf(),
        ensures
            final(self).wf(),
            final(self).spec_pid() == old(self).spec_pid(),
            tick_executor_result(old(self)@, final(self)@, actions@),
    {
        let mut actions: Vec<Action<T>> = Vec::new();
        actions.push(Action::Arm(self.executor_timer_id));
        actions.push(Action::Executor(ExecutorMsg::Tick));
        actions
    }

    /// Adds `node` to the member set, gossips the addition and asks for a
    /// connection to `node`.
    pub fn join<T>(&mut self, node: NodeId) -> (actions: Vec<Action<T>>)
        requires
            old(self).wf(),
        ensures
            final(self).wf(),
            final(self).spec_pid() == old(self).spec_pid(),
            join_result(old(self)@, node@, final(self)@, actions@),
    {
        let mut actions: Vec<Action<T>> = Vec::new();
        if let Some(delta) = self.members.try_add(node.clone()) {
            actions.push(self.broadcast_delta(delta));
        }
        self.metrics.connection_attempts = bump(self.metrics.connection_attempts);
        let mut to: Vec<NodeId> = Vec::new();
        to.push(node);
        proof {
            assert(node_views(to@) =~= seq![node@]);
            assert(node_views(to@)[0] == node@);
        }
        actions.push(Action::Connect(to));
        actions
    }

    /// Removes `node` from the member set and gossips the removal.
    pub fn leave<T>(&mut self, node: NodeId) -> (actions: Vec<Action<T>>)
        requires
            old(self).wf(),
        ensures
            final(self).wf(),
            final(self).spec_pid() == old(self).spec_pid(),
            leave_result(old(self)@, node@, final(self)@, actions@),
    {
        let mut actions: Vec<Action<T>> = Vec::new();
        if let Some(delta) = self.members.leave(node) {
            actions.push(self.broadcast_delta(delta));
        }
        actions
    }

    /// Relays an envelope to the node of its addressee. There is no store and
    /// forward: without an established connection to that node the envelope is
    /// dropped.
    pub fn send_remote<T>(&self, envelope: Envelope<T>) -> (actions: Vec<Action<T>>)
        requires
            self.wf(),
        ensures
            send_remote_result(self@, envelope, actions@),
    {
        let mut actions: Vec<Action<T>> = Vec::new();
        if let Some(id) = self.established.get(&envelope.to.node) {
            let mut to: Vec<usize> = Vec::new();
            to.push(id);
            actions.push(Action::Send { to, msg: ExternalMsg::Envelope(envelope) });
        }
        actions
    }

    /// Answers a request for the status of the cluster. The response is routed
    /// through the executor, since it knows how to contact all pids.
    pub fn get_status<T>(&self, correlation_id: CorrelationId) -> (actions: Vec<Action<T>>)
        requires
            self.wf(),
        ensures
            get_status_result(self@, self.spec_pid(), correlation_id, actions@),
    {
        let mut actions: Vec<Action<T>> = Vec::new();
        let issuer = match &correlation_id.pid {
            Some(pid) => Some(pid.clone()),
            None => None,
        };
        if let Some(to) = issuer {
            let members = self.members.all();
            let established = self.established.keys();
            let status = ClusterStatus {
                members,
                established,
                num_connections: self.connections.len(),
            };
            proof {
                assert(self@.conns.dom() =~= self.connections@.dom());
                assert forall|e: Element|
                    node_views(status.established@).contains(e) <==> self@.established.dom().contains(
                        e,
                    ) by {
                    if node_views(status.established@).contains(e) {
                        let i = choose|i: int|
                            0 <= i < node_views(status.established@).len() && node_views(
                                status.established@,
                            )[i] == e;
                        assert(status.established@[i]@ == e);
                    }
                    if self@.established.contains_key(e) {
                        let i = choose|i: int|
                            0 <= i < status.established@.len() && status.established@[i]@ == e;
                        assert(node_views(status.established@)[i] == e);
                    }
                }
            }
            let reply = Envelope {
                to,
                from: self.pid.clone(),
                msg: Msg::Rpy(Rpy::ClusterStatus(status)),
                correlation_id: Some(correlation_id),
            };
            actions.push(Action::Executor(ExecutorMsg::Envelope(reply)));
        }
        actions
    }

    /// Answers an envelope that is addressed to the server itself. Only
    /// requests for the metrics are; the response is routed through the
    /// executor.
    pub fn send_metrics<T>(&self, envelope: Envelope<T>) -> (actions: Vec<Action<T>>)
        requires
            self.wf(),
        ensures
            send_metrics_result(self@, self.spec_pid(), envelope, actions@),
    {
        let mut actions: Vec<Action<T>> = Vec::new();
        if let Msg::Req(Req::GetMetrics) = envelope.msg {
            let reply = Envelope {
                to: envelope.from,
                from: self.pid.clone(),
                msg: Msg::Rpy(Rpy::Metrics(self.metrics.data())),
                correlation_id: envelope.correlation_id,
            };
            actions.push(Action::Executor(ExecutorMsg::Envelope(reply)));
        }
        actions
    }

    /// Handles one message that a peer sent on the connection `id`.
    pub fn handle_decoded_message<T>(&mut self, id: usize, msg: ExternalMsg<T>) -> (actions: Vec<
        Action<T>,
    >)
        requires
            old(self).wf(),
        ensures
            final(self).wf(),
            final(self).spec_pid() == old(self).spec_pid(),
            decoded_message_result(old(self)@, id, msg, final(self)@, actions@),
    {
        match msg {
            ExternalMsg::Members { from, orset } => {
                let mut actions = self.establish_connection(id, from, orset);
                let ghost head = actions@;
                let mut reconciled = self.check_connections();
                let ghost tail = reconciled@;
                actions.append(&mut reconciled);
                proof {
                    assert(actions@.subrange(head.len() as int, actions@.len() as int) =~= tail);
                    if head.len() == 1 {
                        assert(actions@[0] == head[0]);
                    }
                }
                actions
            },
            ExternalMsg::Ping => {
                self.reset_timer(id);
                Vec::new()
            },
            ExternalMsg::Envelope(envelope) => {
                self.reset_timer(id);
                self.metrics.received_remote_envelopes = bump(
                    self.metrics.received_remote_envelopes,
                );
                let mut actions: Vec<Action<T>> = Vec::new();
                actions.push(Action::Executor(ExecutorMsg::Envelope(envelope)));
                actions
            },
            ExternalMsg::Delta(delta) => {
                self.reset_timer(id);
                proof {
                    assert(self@.broadcast_targets() =~= old(self)@.broadcast_targets());
                }
                let mut actions: Vec<Action<T>> = Vec::new();
                if self.members.join_delta(delta_clone(&delta)) {
                    actions.push(self.broadcast_delta(delta));
                }
                actions
            },
        }
    }

    /// Handles readiness for reading on the connection `id`.
    pub fn read<T>(&mut self, id: usize) -> (actions: Vec<Action<T>>)
        requires
            old(self).wf(),
        ensures
            final(self).wf(),
            final(self).spec_pid() == old(self).spec_pid(),
            read_result(old(self)@, id, final(self)@, actions@),
    {
        match self.members_sent(id) {
            Some(false) => self.send_members(id),
            None => Vec::new(),
            Some(true) => {
                let mut actions: Vec<Action<T>> = Vec::new();
                actions.push(Action::Read(id));
                actions
            },
        }
    }

    /// Handles readiness for writing on the connection `id`.
    pub fn write<T>(&self, id: usize) -> (actions: Vec<Action<T>>)
        ensures
            write_result(self@, id, actions@),
    {
        let mut actions: Vec<Action<T>> = Vec::new();
        if self.members_sent(id).is_some() {
            actions.push(Action::Flush(id));
        }
        actions
    }

    /// Handles the readiness of a socket.
    pub fn do_socket_io<T>(&mut self, notification: Notification) -> (actions: Vec<Action<T>>)
        requires
            old(self).wf(),
        ensures
            final(self).wf(),
            final(self).spec_pid() == old(self).spec_pid(),
            socket_io_result(old(self)@, notification, final(self)@, actions@),
    {
        match notification.event {
            Event::Read => self.read(notification.id),
            Event::Write => self.write(notification.id),
            Event::Both => {
                let mut actions = self.read(notification.id);
                let ghost head = actions@;
                let mut flush = self.write(notification.id);
                let ghost tail = flush@;
                actions.append(&mut flush);
                proof {
                    assert(actions@.subrange(0, head.len() as int) =~= head);
                    assert(actions@.subrange(head.len() as int, actions@.len() as int) =~= tail);
                }
                actions
            },
        }
    }

    /// Takes in a connection that the listener accepted and the reactor
    /// registered under `id`, and sends it the snapshot of the member set.
    pub fn accept_connection<T>(&mut self, id: usize) -> (actions: Vec<Action<T>>)
        requires
            old(self).wf(),
        ensures
            final(self).wf(),
            final(self).spec_pid() == old(self).spec_pid(),
            final(self)@ == (ServerView {
                metrics: ClusterMetrics {
                    accepted_connections: capped_add(old(self)@.metrics.accepted_connections, 1),
                    ..old(self)@.metrics
                },
                ..old(self)@
            }).init_connection(id, None).mark_members_sent(id),
            actions@.len() == 1,
            sends_members(actions@[0], id, old(self)@.node, old(self)@.members),
    {
        self.metrics.accepted_connections = bump(self.metrics.accepted_connections);
        self.init_connection(id, None);
        self.send_members(id)
    }

    /// Handles one readiness notification of the reactor.
    pub fn handle_poll_notification<T>(&mut self, notification: Notification) -> (actions: Vec<
        Action<T>,
    >)
        requires
            old(self).wf(),
        ensures
            final(self).wf(),
            final(self).spec_pid() == old(self).spec_pid(),
            poll_notification_result(old(self)@, notification, final(self)@, actions@),
    {
        if notification.id == self.listener_id {
            let mut actions: Vec<Action<T>> = Vec::new();
            actions.push(Action::Accept);
            actions
        } else if notification.id == self.timer_id {
            self.tick()
        } else if notification.id == self.executor_timer_id {
            self.tick_executor()
        } else {
            self.do_socket_io(notification)
        }
    }

    /// Handles one message from the host. The order to stop comes back as the
    /// error that ends the server; every other message succeeds.
    pub fn handle_cluster_msg<T>(&mut self, msg: ClusterMsg<T>) -> (r: Result<
        Vec<Action<T>>,
        ErrorKind,
    >)
        requires
            old(self).wf(),
        ensures
            final(self).wf(),
            final(self).spec_pid() == old(self).spec_pid(),
            r is Err <==> msg is Shutdown,
            r matches Err(e) ==> final(self)@ == old(self)@ && (e matches ErrorKind::Shutdown(pid)
                && pid == old(self).spec_pid()),
            r matches Ok(actions) ==> cluster_msg_result(
                old(self)@,
                old(self).spec_pid(),
                msg,
                final(self)@,
                actions@,
            ),
    {
        match msg {
            ClusterMsg::PollNotifications(notifications) => {
                self.metrics.poll_notifications = bump(self.metrics.poll_notifications);
                let mut actions: Vec<Action<T>> = Vec::new();
                actions.push(Action::Poll(notifications));
                Ok(actions)
            },
            ClusterMsg::Join(node) => {
                self.metrics.joins = bump(self.metrics.joins);
                Ok(self.join(node))
            },
            ClusterMsg::Leave(node) => {
                self.metrics.leaves = bump(self.metrics.leaves);
                Ok(self.leave(node))
            },
            ClusterMsg::Envelope(envelope) => {
                self.metrics.received_local_envelopes = bump(self.metrics.received_local_envelopes);
                // Only metric requests are directly sent to the cluster server.
                if envelope.to == self.pid {
                    Ok(self.send_metrics(envelope))
                } else {
                    Ok(self.send_remote(envelope))
                }
            },
            ClusterMsg::GetStatus(correlation_id) => {
                self.metrics.status_requests = bump(self.metrics.status_requests);
                Ok(self.get_status(correlation_id))
            },
            ClusterMsg::Shutdown => Err(ErrorKind::Shutdown(self.pid.clone())),
        }
    }

    /// Handles an error that the host met while it carried out actions: the
    /// error is counted and every connection it is attributed to is closed.
    /// Says whether the server has to stop.
    pub fn handle_error<T>(&mut self, error: &ErrorKind) -> (r: (Vec<Action<T>>, bool))
        requires
            old(self).wf(),
        ensures
            final(self).wf(),
            final(self).spec_pid() == old(self).spec_pid(),
            final(self)@ == (ServerView {
                metrics: ClusterMetrics {
                    errors: capped_add(old(self)@.metrics.errors, 1),
                    ..old(self)@.metrics
                },
                ..old(self)@
            }).close_all(Set::new(|id: usize| error.names(id))),
            r.0@.len() == 1,
            closes(
                r.0@[0],
                Set::new(|id: usize| error.names(id) && old(self)@.conns.contains_key(id)),
            ),
            r.1 == error.fatal(),
    {
        self.metrics.errors = bump(self.metrics.errors);
        let ids = error.get_ids();
        proof {
            assert(ids@.to_set() =~= Set::new(|id: usize| error.names(id)));
            assert(ids@.to_set().intersect(old(self)@.conns.dom()) =~= Set::new(
                |id: usize| error.names(id) && old(self)@.conns.contains_key(id),
            ));
        }
        let closed = self.close_listed(&ids, Ghost(Set::empty()));
        proof {
            lemma_nothing_pending(self@, Set::<usize>::empty() - ids@.to_set());
        }
        let mut actions: Vec<Action<T>> = Vec::new();
        actions.push(Action::Close(closed));
        (actions, error.is_fatal())
    }
}

} // verus!
