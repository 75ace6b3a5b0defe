//! What a cluster server asks of its host, and what each event comes to: the
//! state after it and the actions it calls for.

use crate::cluster::listing::lists;
use crate::cluster::metrics::capped_add;
use crate::cluster::metrics::ClusterMetrics;
use crate::cluster::model::ServerView;
use crate::cluster::msg::ClusterMsg;
use crate::cluster::msg::Event;
use crate::cluster::msg::ExternalMsg;
use crate::cluster::msg::Notification;
use crate::cluster::status::ClusterStatus;
use crate::correlation_id::CorrelationId;
use crate::crdt::DotStore;
use crate::crdt::Element;
use crate::envelope::Envelope;
use crate::executor::msg::ExecutorMsg;
use crate::members::delta_store;
use crate::members::node_views;
use crate::members::orset_store;
use crate::msg::Msg;
use crate::msg::Req;
use crate::msg::Rpy;
use crate::node_id::NodeId;
use crate::pid::Pid;
use vstd::prelude::*;

verus! {

/// What the host has to do for the server.
#[derive(Debug)]
pub enum Action<T> {
    /// Handle the notifications one after the other: hand each to
    /// `handle_poll_notification` and carry out what it returns before the next.
    Poll(Vec<Notification>),
    /// Accept the sockets that wait on the listener, register each for reading
    /// and report it with `accept_connection`.
    Accept,
    /// Re-arm the timer of this registration.
    Arm(usize),
    /// Open a socket to each node, register it for reading and report it with
    /// `init_connection`.
    Connect(Vec<NodeId>),
    /// Read what the connection offers and hand each decoded message to
    /// `handle_decoded_message`.
    Read(usize),
    /// The connection can be written to: write out what is buffered for it.
    Flush(usize),
    /// Encode the message once and queue it on each of the connections.
    Send { to: Vec<usize>, msg: ExternalMsg<T> },
    /// Deregister the sockets of these connections and drop them.
    Close(Vec<usize>),
    /// Hand the message to the executor.
    Executor(ExecutorMsg<T>),
}

/// The action queues a snapshot of the member set `store`, sent in the name of
/// `from`, on the one connection `id`.
pub open spec fn sends_members<T>(a: Action<T>, id: usize, from: Element, store: DotStore) -> bool {
    a matches Action::Send { to, msg: ExternalMsg::Members { from: sender, orset } } && to@
        == seq![id] && sender@ == from && orset_store(orset) == store
}

/// The action queues a heartbeat on each of the connections `targets`.
pub open spec fn broadcasts_ping<T>(a: Action<T>, targets: Set<usize>) -> bool {
    a matches Action::Send { to, msg: ExternalMsg::Ping } && lists(to@, targets)
}

/// The action queues the delta `delta` on each of the connections `targets`.
pub open spec fn broadcasts_delta<T>(a: Action<T>, targets: Set<usize>, delta: DotStore) -> bool {
    a matches Action::Send { to, msg: ExternalMsg::Delta(d) } && lists(to@, targets)
        && delta_store(d) == delta
}

/// The action queues the envelope on the one connection `id`.
pub open spec fn sends_envelope<T>(a: Action<T>, id: usize, envelope: Envelope<T>) -> bool {
    a matches Action::Send { to, msg: ExternalMsg::Envelope(e) } && to@ == seq![id] && e
        == envelope
}

/// The action closes each of the connections `ids`.
pub open spec fn closes<T>(a: Action<T>, ids: Set<usize>) -> bool {
    a matches Action::Close(list) && lists(list@, ids)
}

/// The action opens a connection to each of the nodes `nodes`.
pub open spec fn connects<T>(a: Action<T>, nodes: Set<Element>) -> bool {
    a matches Action::Connect(list) && lists(node_views(list@), nodes)
}

/// The actions of one pass of reconciliation from the state `before`: where the
/// local node is no member, one that closes every connection; else one that
/// opens a connection to each member without one, and one that closes every
/// connection, pending or established, to a peer that is no member.
pub open spec fn reconciles<T>(actions: Seq<Action<T>>, before: ServerView) -> bool {
    if !before.members.contains(before.node) {
        actions.len() == 1 && closes(actions[0], before.conns.dom())
    } else {
        actions.len() == 2 && connects(actions[0], before.to_connect()) && closes(
            actions[1],
            before.to_disconnect(),
        )
    }
}

/// What adding `node` to the member set does: where the local replica can
/// still tag an addition, `node` is added under a fresh tag and the delta of
/// that addition is gossiped; in any case an attempt to connect to `node` is
/// counted and asked for.
pub open spec fn join_result<T>(
    before: ServerView,
    node: Element,
    after: ServerView,
    actions: Seq<Action<T>>,
) -> bool {
    let dot = (crate::node_id::node_text(before.node), before.additions + 1);
    let attempts = ClusterMetrics {
        connection_attempts: capped_add(before.metrics.connection_attempts, 1),
        ..before.metrics
    };
    if before.additions < u64::MAX {
        &&& after == (ServerView {
            members: before.members.with_add(node, dot),
            additions: before.additions + 1,
            metrics: attempts,
            ..before
        })
        &&& actions.len() == 2
        &&& broadcasts_delta(
            actions[0],
            before.broadcast_targets(),
            DotStore::addition(node, dot),
        )
        &&& connects(actions[1], set![node])
    } else {
        &&& after == (ServerView { metrics: attempts, ..before })
        &&& actions.len() == 1
        &&& connects(actions[0], set![node])
    }
}

/// What removing `node` from the member set does: where it is a member, every
/// tag under which it is alive becomes a tombstone and the delta of that
/// removal is gossiped; else nothing happens.
pub open spec fn leave_result<T>(
    before: ServerView,
    node: Element,
    after: ServerView,
    actions: Seq<Action<T>>,
) -> bool {
    let delta = DotStore::removal(node, before.members.dots_of(node));
    if before.members.contains(node) {
        &&& after == (ServerView { members: before.members.merge(delta), ..before })
        &&& actions.len() == 1
        &&& broadcasts_delta(actions[0], before.broadcast_targets(), delta)
    } else {
        after == before && actions.len() == 0
    }
}

/// What relaying an envelope to another node does: where a connection is
/// established to the node of the addressee, the envelope is queued on it; else
/// the envelope is dropped.
pub open spec fn send_remote_result<T>(
    before: ServerView,
    envelope: Envelope<T>,
    actions: Seq<Action<T>>,
) -> bool {
    if before.established.contains_key(envelope.to.node@) {
        actions.len() == 1 && sends_envelope(
            actions[0],
            before.established[envelope.to.node@],
            envelope,
        )
    } else {
        actions.len() == 0
    }
}

/// Whether `status` reports the state `view`: the members and the peers with
/// an established connection, each once, and the number of connections.
pub open spec fn reports(status: ClusterStatus, view: ServerView) -> bool {
    &&& lists(node_views(status.members@), view.members.elements())
    &&& lists(node_views(status.established@), view.established.dom())
    &&& status.num_connections == view.conns.dom().len()
}

/// What a request for the status does: where the request names its issuer, a
/// report of the state goes to the issuer by way of the executor; else
/// nothing is sent.
pub open spec fn get_status_result<T>(
    view: ServerView,
    pid: Pid,
    correlation_id: CorrelationId,
    actions: Seq<Action<T>>,
) -> bool {
    match correlation_id.pid {
        Some(issuer) => {
            &&& actions.len() == 1
            &&& actions[0] matches Action::Executor(ExecutorMsg::Envelope(reply))
            &&& reply.to == issuer
            &&& reply.from == pid
            &&& reply.correlation_id == Some(correlation_id)
            &&& reply.msg matches Msg::Rpy(Rpy::ClusterStatus(status))
            &&& reports(status, view)
        },
        None => actions.len() == 0,
    }
}

/// What an envelope addressed to the server itself does: a request for the
/// metrics is answered to its sender by way of the executor; anything else is
/// ignored.
pub open spec fn send_metrics_result<T>(
    view: ServerView,
    pid: Pid,
    envelope: Envelope<T>,
    actions: Seq<Action<T>>,
) -> bool {
    if envelope.msg matches Msg::Req(Req::GetMetrics) {
        &&& actions.len() == 1
        &&& actions[0] matches Action::Executor(ExecutorMsg::Envelope(reply))
        &&& reply.to == envelope.from
        &&& reply.from == pid
        &&& reply.correlation_id == envelope.correlation_id
        &&& reply.msg matches Msg::Rpy(Rpy::Metrics(data))
        &&& view.metrics.listed_as(data@)
    } else {
        actions.len() == 0
    }
}

/// The number of connections that are closed when the connection `id`
/// identifies its peer as `from`.
pub open spec fn closed_on_establish(view: ServerView, id: usize, from: Element) -> int {
    match view.connection_to_close(id, from) {
        Some(c) => if view.conns.contains_key(c) {
            1
        } else {
            0
        },
        None => 0,
    }
}

/// What a message from a peer on the connection `id` does. Every message is a
/// sign of life: the connection moves to the freshest bucket of the timing
/// wheel, unless the message ends it.
pub open spec fn decoded_message_result<T>(
    before: ServerView,
    id: usize,
    msg: ExternalMsg<T>,
    after: ServerView,
    actions: Seq<Action<T>>,
) -> bool {
    match msg {
        // The peer's identity and member set: the connection is established,
        // then the connections are reconciled with the merged member set.
        ExternalMsg::Members { from, orset } => {
            let established = before.establish_connection(id, from@, orset_store(orset));
            let n = closed_on_establish(before, id, from@);
            &&& after == established.check_connections()
            &&& actions.len() >= n
            &&& n == 1 ==> (actions[0] matches Action::Close(ids) && ids@ == seq![
                before.connection_to_close(id, from@)->0,
            ])
            &&& reconciles(actions.subrange(n, actions.len() as int), established)
        },
        // A heartbeat: the connection proved alive.
        ExternalMsg::Ping => after == before.reset_timer(id) && actions.len() == 0,
        // An envelope for a local actor: it goes to the executor.
        ExternalMsg::Envelope(envelope) => {
            &&& after == (ServerView {
                metrics: ClusterMetrics {
                    received_remote_envelopes: capped_add(
                        before.metrics.received_remote_envelopes,
                        1,
                    ),
                    ..before.metrics
                },
                ..before.reset_timer(id)
            })
            &&& actions.len() == 1
            &&& actions[0] matches Action::Executor(ExecutorMsg::Envelope(e))
            &&& e == envelope
        },
        // A mutation of the member set: it is merged, and gossiped on if it
        // was news.
        ExternalMsg::Delta(delta) => {
            &&& after == (ServerView {
                members: before.members.merge(delta_store(delta)),
                ..before.reset_timer(id)
            })
            &&& if before.members.merge(delta_store(delta)) != before.members {
                actions.len() == 1 && broadcasts_delta(
                    actions[0],
                    before.broadcast_targets(),
                    delta_store(delta),
                )
            } else {
                actions.len() == 0
            }
        },
    }
}

/// What readiness for reading on the connection `id` does: where the snapshot
/// of the member set has not gone out on it yet, that is sent first; else the
/// connection is to be read. Nothing happens where there is no such
/// connection.
pub open spec fn read_result<T>(
    before: ServerView,
    id: usize,
    after: ServerView,
    actions: Seq<Action<T>>,
) -> bool {
    if !before.conns.contains_key(id) {
        after == before && actions.len() == 0
    } else if before.conns[id].members_sent {
        after == before && actions.len() == 1 && (actions[0] matches Action::Read(c) && c == id)
    } else {
        after == before.mark_members_sent(id) && actions.len() == 1 && sends_members(
            actions[0],
            id,
            before.node,
            before.members,
        )
    }
}

/// What readiness for writing on the connection `id` does: what is buffered
/// for the connection is to be written out. Nothing happens where there is no
/// such connection.
pub open spec fn write_result<T>(view: ServerView, id: usize, actions: Seq<Action<T>>) -> bool {
    if view.conns.contains_key(id) {
        actions.len() == 1 && (actions[0] matches Action::Flush(c) && c == id)
    } else {
        actions.len() == 0
    }
}

/// What readiness of a socket does: reading, writing, or reading and then
/// writing.
pub open spec fn socket_io_result<T>(
    before: ServerView,
    notification: Notification,
    after: ServerView,
    actions: Seq<Action<T>>,
) -> bool {
    match notification.event {
        Event::Read => read_result(before, notification.id, after, actions),
        Event::Write => after == before && write_result(before, notification.id, actions),
        Event::Both => exists|n: int|
            0 <= n <= actions.len() && read_result(
                before,
                notification.id,
                after,
                #[trigger] actions.subrange(0, n),
            ) && write_result(after, notification.id, actions.subrange(n, actions.len() as int)),
    }
}

/// What one tick of the timing wheel does.
pub open spec fn tick_result<T>(before: ServerView, after: ServerView, actions: Seq<Action<T>>) -> bool {
    &&& after == before.tick()
    &&& actions.len() >= 3
    &&& actions[0] matches Action::Arm(timer) && timer == before.timer_id
    &&& closes(actions[1], before.wheel.expired())
    &&& broadcasts_ping(actions[2], before.expire_silent().broadcast_targets())
    &&& reconciles(actions.subrange(3, actions.len() as int), before.expire_silent())
}

/// What one tick of the executor's timer does.
pub open spec fn tick_executor_result<T>(
    before: ServerView,
    after: ServerView,
    actions: Seq<Action<T>>,
) -> bool {
    &&& after == before
    &&& actions.len() == 2
    &&& actions[0] matches Action::Arm(timer) && timer == before.executor_timer_id
    &&& actions[1] matches Action::Executor(ExecutorMsg::Tick)
}

/// What one readiness notification does, by the registration it names: the
/// listener asks for accepting, the two timers tick, any other registration
/// is a socket.
pub open spec fn poll_notification_result<T>(
    before: ServerView,
    notification: Notification,
    after: ServerView,
    actions: Seq<Action<T>>,
) -> bool {
    if notification.id == before.listener_id {
        after == before && actions.len() == 1 && actions[0] is Accept
    } else if notification.id == before.timer_id {
        tick_result(before, after, actions)
    } else if notification.id == before.executor_timer_id {
        tick_executor_result(before, after, actions)
    } else {
        socket_io_result(before, notification, after, actions)
    }
}

/// What a message from the host does, unless it is the order to stop.
pub open spec fn cluster_msg_result<T>(
    before: ServerView,
    pid: Pid,
    msg: ClusterMsg<T>,
    after: ServerView,
    actions: Seq<Action<T>>,
) -> bool {
    match msg {
        ClusterMsg::PollNotifications(notifications) => {
            &&& after == (ServerView {
                metrics: ClusterMetrics {
                    poll_notifications: capped_add(before.metrics.poll_notifications, 1),
                    ..before.metrics
                },
                ..before
            })
            &&& actions.len() == 1
            &&& actions[0] matches Action::Poll(list)
            &&& list == notifications
        },
        ClusterMsg::Join(node) => join_result(
            ServerView {
                metrics: ClusterMetrics {
                    joins: capped_add(before.metrics.joins, 1),
                    ..before.metrics
                },
                ..before
            },
            node@,
            after,
            actions,
        ),
        ClusterMsg::Leave(node) => leave_result(
            ServerView {
                metrics: ClusterMetrics {
                    leaves: capped_add(before.metrics.leaves, 1),
                    ..before.metrics
                },
                ..before
            },
            node@,
            after,
            actions,
        ),
        ClusterMsg::Envelope(envelope) => {
            &&& after == (ServerView {
                metrics: ClusterMetrics {
                    received_local_envelopes: capped_add(
                        before.metrics.received_local_envelopes,
                        1,
                    ),
                    ..before.metrics
                },
                ..before
            })
            &&& if envelope.to@ == pid@ {
                send_metrics_result(after, pid, envelope, actions)
            } else {
                send_remote_result(after, envelope, actions)
            }
        },
        ClusterMsg::GetStatus(correlation_id) => {
            &&& after == (ServerView {
                metrics: ClusterMetrics {
                    status_requests: capped_add(before.metrics.status_requests, 1),
                    ..before.metrics
                },
                ..before
            })
            &&& get_status_result(after, pid, correlation_id, actions)
        },
        ClusterMsg::Shutdown => after == before && actions.len() == 0,
    }
}

} // verus!
