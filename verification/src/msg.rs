//! The bodies of envelopes.

use crate::cluster::status::ClusterStatus;
use crate::members::contains_node;
use crate::members::node_views;
use crate::metrics::Metric;
use crate::node_id::pb_node_view;
use crate::node_id::pb_of_node;
use crate::node_id::NodeId;
use crate::pb_messages;
use crate::pb_messages::Metric_oneof_metric;
use crate::pb_messages::PbMsg;
use crate::pb_messages::PbMsg_oneof_reply;
use crate::pb_messages::PbMsg_oneof_request;
use crate::pid::pb_of_pid;
use crate::pid::pb_pid_view;
use crate::pid::pids_from_pb;
use crate::pid::pids_to_pb;
use crate::pid::Pid;
use crate::user_msg::UserMsg;
use vstd::prelude::*;
use vstd::std_specs::convert::FromSpecImpl;

verus! {

/// A request sent to a pid. Not every request has a reply.
#[derive(Debug, Clone, PartialEq, Eq)]
pub enum Req {
    GetMetrics,
    /// Start a timer; the time is in milliseconds.
    StartTimer(u64),
    CancelTimer,
    Shutdown,
    GetProcesses,
    GetServices,
}

/// A reply sent to a pid.
#[derive(Debug, Clone, PartialEq, Eq)]
pub enum Rpy {
    Timeout,
    Metrics(Vec<(String, Metric)>),
    Processes(Vec<Pid>),
    Services(Vec<Pid>),
    /// The members of the cluster, each with whether it is connected.
    Members(Vec<(NodeId, bool)>),
    ClusterStatus(ClusterStatus),
}

/// The body of an envelope.
#[derive(Debug, Clone, PartialEq, Eq)]
pub enum Msg<T> {
    Req(Req),
    Rpy(Rpy),
    User(T),
    Unknown,
}

/// The metrics that a list of wire forms stands for, in their order: a gauge or
/// a counter each; wire forms that are neither stand for nothing.
pub open spec fn metrics_of_pb(pb: Seq<pb_messages::Metric>) -> Seq<Metric>
    decreases pb.len(),
{
    if pb.len() == 0 {
        Seq::empty()
    } else {
        metrics_of_pb(pb.drop_last()) + match pb.last().metric {
            Some(Metric_oneof_metric::gauge(v)) => seq![Metric::Gauge(v)],
            Some(Metric_oneof_metric::counter(v)) => seq![Metric::Counter(v)],
            _ => Seq::<Metric>::empty(),
        }
    }
}

/// The wire form of a metric.
pub open spec fn pb_of_metric(m: Metric) -> pb_messages::Metric {
    pb_messages::Metric {
        metric: Some(
            match m {
                Metric::Gauge(v) => Metric_oneof_metric::gauge(v),
                Metric::Counter(v) => Metric_oneof_metric::counter(v),
            },
        ),
    }
}

/// The member that a wire form stands for: an unset node reads as the node
/// without name and address, an unset flag as not connected.
pub open spec fn pb_member_view(pb: pb_messages::Member) -> ((Seq<char>, Seq<char>), bool) {
    (
        match pb.node {
            Some(n) => pb_node_view(n),
            None => (Seq::<char>::empty(), Seq::<char>::empty()),
        },
        match pb.connected {
            Some(c) => c,
            None => false,
        },
    )
}

/// The wire form of a member.
pub open spec fn pb_of_member(node: NodeId, connected: bool) -> pb_messages::Member {
    pb_messages::Member { node: Some(pb_of_node(node)), connected: Some(connected) }
}

/// Whether `m` is the body that the wire form `pb` stands for. The bytes of a
/// user message come first, and what they stand for is what `from_bytes` makes
/// of them; then the request, then the reply; a wire form with none of them
/// stands for the unknown body. On the wire a metric has no name.
pub open spec fn msg_of_pb<T: UserMsg>(pb: PbMsg, m: Msg<T>) -> bool {
    match pb.user_msg {
        Some(bytes) => m matches Msg::User(u) && call_ensures(T::from_bytes, (bytes,), u),
        None => match pb.request {
            Some(PbMsg_oneof_request::start_timer(t)) => m == Msg::<T>::Req(Req::StartTimer(t)),
            Some(PbMsg_oneof_request::cancel_timer(_)) => m == Msg::<T>::Req(Req::CancelTimer),
            Some(PbMsg_oneof_request::get_metrics(_)) => m == Msg::<T>::Req(Req::GetMetrics),
            Some(PbMsg_oneof_request::shutdown(_)) => m == Msg::<T>::Req(Req::Shutdown),
            Some(PbMsg_oneof_request::get_processes(_)) => m == Msg::<T>::Req(Req::GetProcesses),
            Some(PbMsg_oneof_request::get_services(_)) => m == Msg::<T>::Req(Req::GetServices),
            None => match pb.reply {
                Some(PbMsg_oneof_reply::timeout(_)) => m == Msg::<T>::Rpy(Rpy::Timeout),
                Some(PbMsg_oneof_reply::metrics(ms)) => {
                    &&& m matches Msg::Rpy(Rpy::Metrics(v))
                    &&& v@.map_values(|e: (String, Metric)| e.1) == metrics_of_pb(ms.metrics@)
                    &&& forall|i: int|
                        0 <= i < v@.len() ==> (#[trigger] v@[i]).0@ == Seq::<char>::empty()
                },
                Some(PbMsg_oneof_reply::processes(ps)) => {
                    &&& m matches Msg::Rpy(Rpy::Processes(v))
                    &&& v@.len() == ps.pids@.len()
                    &&& forall|i: int|
                        0 <= i < v@.len() ==> (#[trigger] v@[i])@ == pb_pid_view(ps.pids@[i])
                },
                Some(PbMsg_oneof_reply::services(ps)) => {
                    &&& m matches Msg::Rpy(Rpy::Services(v))
                    &&& v@.len() == ps.pids@.len()
                    &&& forall|i: int|
                        0 <= i < v@.len() ==> (#[trigger] v@[i])@ == pb_pid_view(ps.pids@[i])
                },
                Some(PbMsg_oneof_reply::members(ms)) => {
                    &&& m matches Msg::Rpy(Rpy::Members(v))
                    &&& v@.len() == ms.members@.len()
                    &&& forall|i: int|
                        0 <= i < v@.len() ==> ((#[trigger] v@[i]).0@, v@[i].1) == pb_member_view(
                            ms.members@[i],
                        )
                },
                None => m is Unknown,
            },
        },
    }
}

/// Whether `pb` is the wire form of the body `m`. A request sets the request,
/// a reply the reply, a user message the bytes that `to_bytes` gives for it,
/// and the unknown body nothing.
/// The names of metrics do not cross the wire, and the status of the cluster
/// goes as its members, each with whether a connection to it is established.
pub open spec fn pb_of_msg<T: UserMsg>(m: Msg<T>, pb: PbMsg) -> bool {
    match m {
        Msg::User(u) => {
            &&& pb.user_msg matches Some(bytes)
            &&& call_ensures(T::to_bytes, (&u,), bytes)
            &&& pb.request is None
            &&& pb.reply is None
        },
        Msg::Req(req) => {
            &&& pb.user_msg is None
            &&& pb.reply is None
            &&& match req {
                Req::GetMetrics => pb.request == Some(PbMsg_oneof_request::get_metrics(true)),
                Req::StartTimer(t) => pb.request == Some(PbMsg_oneof_request::start_timer(t)),
                Req::CancelTimer => pb.request == Some(PbMsg_oneof_request::cancel_timer(true)),
                Req::Shutdown => pb.request == Some(PbMsg_oneof_request::shutdown(true)),
                Req::GetProcesses => pb.request matches Some(PbMsg_oneof_request::get_processes(n))
                    && n.is_default(),
                Req::GetServices => pb.request matches Some(PbMsg_oneof_request::get_services(n))
                    && n.is_default(),
            }
        },
        Msg::Rpy(rpy) => {
            &&& pb.user_msg is None
            &&& pb.request is None
            &&& match rpy {
                Rpy::Timeout => pb.reply == Some(PbMsg_oneof_reply::timeout(true)),
                Rpy::Metrics(v) => {
                    &&& pb.reply matches Some(PbMsg_oneof_reply::metrics(ms))
                    &&& ms.metrics@.len() == v@.len()
                    &&& forall|i: int|
                        0 <= i < v@.len() ==> #[trigger] ms.metrics@[i] == pb_of_metric(v@[i].1)
                },
                Rpy::Processes(v) => {
                    &&& pb.reply matches Some(PbMsg_oneof_reply::processes(ps))
                    &&& ps.pids@.len() == v@.len()
                    &&& forall|i: int|
                        0 <= i < v@.len() ==> #[trigger] ps.pids@[i] == pb_of_pid(v@[i])
                },
                Rpy::Services(v) => {
                    &&& pb.reply matches Some(PbMsg_oneof_reply::services(ps))
                    &&& ps.pids@.len() == v@.len()
                    &&& forall|i: int|
                        0 <= i < v@.len() ==> #[trigger] ps.pids@[i] == pb_of_pid(v@[i])
                },
                Rpy::Members(v) => {
                    &&& pb.reply matches Some(PbMsg_oneof_reply::members(ms))
                    &&& ms.members@.len() == v@.len()
                    &&& forall|i: int|
                        0 <= i < v@.len() ==> #[trigger] ms.members@[i] == pb_of_member(
                            v@[i].0,
                            v@[i].1,
                        )
                },
                Rpy::ClusterStatus(status) => {
                    &&& pb.reply matches Some(PbMsg_oneof_reply::members(ms))
                    &&& ms.members@.len() == status.members@.len()
                    &&& forall|i: int|
                        0 <= i < status.members@.len() ==> #[trigger] ms.members@[i]
                            == pb_of_member(
                            status.members@[i],
                            node_views(status.established@).contains(status.members@[i]@),
                        )
                },
            }
        },
        Msg::Unknown => pb.is_default(),
    }
}

/// The named metrics that a list of wire forms stands for; the names are
/// empty.
pub fn metrics_from_pb(pb_metrics: Vec<pb_messages::Metric>) -> (r: Vec<(String, Metric)>)
    ensures
        r@.map_values(|e: (String, Metric)| e.1) == metrics_of_pb(pb_metrics@),
        forall|i: int| 0 <= i < r@.len() ==> (#[trigger] r@[i]).0@ == Seq::<char>::empty(),
{
    let mut r: Vec<(String, Metric)> = Vec::new();
    let mut i: usize = 0;
    proof {
        assert(pb_metrics@.take(0) =~= Seq::<pb_messages::Metric>::empty());
        assert(r@.map_values(|e: (String, Metric)| e.1) =~= Seq::<Metric>::empty());
    }
    while i < pb_metrics.len()
        invariant
            i <= pb_metrics@.len(),
            r@.map_values(|e: (String, Metric)| e.1) == metrics_of_pb(pb_metrics@.take(i as int)),
            forall|k: int| 0 <= k < r@.len() ==> (#[trigger] r@[k]).0@ == Seq::<char>::empty(),
        decreases pb_metrics.len() - i,
    {
        let ghost before = r@;
        let m = &pb_metrics[i];
        if m.has_gauge() {
            r.push((String::new(), Metric::Gauge(m.get_gauge())));
        } else if m.has_counter() {
            r.push((String::new(), Metric::Counter(m.get_counter())));
        }
        proof {
            assert(pb_metrics@.take(i + 1).drop_last() =~= pb_metrics@.take(i as int));
            assert(pb_metrics@.take(i + 1).last() == pb_metrics@[i as int]);
            assert(r@.map_values(|e: (String, Metric)| e.1) =~= metrics_of_pb(
                pb_metrics@.take(i + 1),
            ));
        }
        i = i + 1;
    }
    proof {
        assert(pb_metrics@.take(pb_metrics@.len() as int) =~= pb_metrics@);
    }
    r
}

/// The wire forms of a list of named metrics; the names are left out.
pub fn metrics_to_pb(metrics: Vec<(String, Metric)>) -> (r: Vec<pb_messages::Metric>)
    ensures
        r@.len() == metrics@.len(),
        forall|i: int| 0 <= i < r@.len() ==> #[trigger] r@[i] == pb_of_metric(metrics@[i].1),
{
    let mut r: Vec<pb_messages::Metric> = Vec::new();
    let mut i: usize = 0;
    while i < metrics.len()
        invariant
            i <= metrics@.len(),
            r@.len() == i,
            forall|k: int| 0 <= k < r@.len() ==> #[trigger] r@[k] == pb_of_metric(metrics@[k].1),
        decreases metrics.len() - i,
    {
        let mut metric = pb_messages::Metric::new();
        match metrics[i].1 {
            Metric::Gauge(v) => metric.set_gauge(v),
            Metric::Counter(v) => metric.set_counter(v),
        }
        r.push(metric);
        i = i + 1;
    }
    r
}

/// The members that a list of wire forms stands for.
pub fn members_from_pb(pb_members: Vec<pb_messages::Member>) -> (r: Vec<(NodeId, bool)>)
    ensures
        r@.len() == pb_members@.len(),
        forall|i: int|
            0 <= i < r@.len() ==> ((#[trigger] r@[i]).0@, r@[i].1) == pb_member_view(pb_members@[i]),
{
    let mut r: Vec<(NodeId, bool)> = Vec::new();
    for member in it: pb_members
        invariant
            it.seq() == pb_members@,
            r@.len() == it.index(),
            forall|i: int|
                0 <= i < r@.len() ==> ((#[trigger] r@[i]).0@, r@[i].1) == pb_member_view(
                    pb_members@[i],
                ),
    {
        let mut member = member;
        let connected = member.get_connected();
        r.push((NodeId::from(member.take_node()), connected));
    }
    r
}

/// The wire forms of a list of members.
pub fn members_to_pb(members: Vec<(NodeId, bool)>) -> (r: Vec<pb_messages::Member>)
    ensures
        r@.len() == members@.len(),
        forall|i: int|
            0 <= i < r@.len() ==> #[trigger] r@[i] == pb_of_member(members@[i].0, members@[i].1),
{
    let mut r: Vec<pb_messages::Member> = Vec::new();
    for entry in it: members
        invariant
            it.seq() == members@,
            r@.len() == it.index(),
            forall|i: int|
                0 <= i < r@.len() ==> #[trigger] r@[i] == pb_of_member(
                    members@[i].0,
                    members@[i].1,
                ),
    {
        let mut member = pb_messages::Member::new();
        member.set_node(pb_messages::NodeId::from(entry.0));
        member.set_connected(entry.1);
        r.push(member);
    }
    r
}

/// The wire form of the status of a cluster: its members, each with whether a
/// connection to it is established.
pub fn status_to_pb(status: ClusterStatus) -> (r: Vec<pb_messages::Member>)
    ensures
        r@.len() == status.members@.len(),
        forall|i: int|
            0 <= i < r@.len() ==> #[trigger] r@[i] == pb_of_member(
                status.members@[i],
                node_views(status.established@).contains(status.members@[i]@),
            ),
{
    let established = status.established;
    let mut r: Vec<pb_messages::Member> = Vec::new();
    for node in it: status.members
        invariant
            it.seq() == status.members@,
            established == status.established,
            r@.len() == it.index(),
            forall|i: int|
                0 <= i < r@.len() ==> #[trigger] r@[i] == pb_of_member(
                    status.members@[i],
                    node_views(status.established@).contains(status.members@[i]@),
                ),
    {
        let connected = contains_node(&established, &node);
        let mut member = pb_messages::Member::new();
        member.set_node(pb_messages::NodeId::from(node));
        member.set_connected(connected);
        r.push(member);
    }
    r
}

impl<T: UserMsg> From<PbMsg> for Msg<T> {
    /// The body that the wire form stands for.
    fn from(pb_msg: PbMsg) -> (r: Msg<T>)
        ensures
            msg_of_pb(pb_msg, r),
    {
        let mut pb_msg = pb_msg;
        // The user level message type
        if pb_msg.has_user_msg() {
            let encoded = pb_msg.take_user_msg();
            return Msg::User(T::from_bytes(encoded));
        }
        // Requests
        if pb_msg.has_start_timer() {
            return Msg::Req(Req::StartTimer(pb_msg.get_start_timer()));
        }
        if pb_msg.has_cancel_timer() {
            return Msg::Req(Req::CancelTimer);
        }
        if pb_msg.has_get_metrics() {
            return Msg::Req(Req::GetMetrics);
        }
        if pb_msg.has_shutdown() {
            return Msg::Req(Req::Shutdown);
        }
        if pb_msg.has_get_processes() {
            return Msg::Req(Req::GetProcesses);
        }
        if pb_msg.has_get_services() {
            return Msg::Req(Req::GetServices);
        }
        // Replies
        if pb_msg.has_timeout() {
            return Msg::Rpy(Rpy::Timeout);
        }
        if pb_msg.has_metrics() {
            let metrics = metrics_from_pb(pb_msg.take_metrics().take_metrics());
            return Msg::Rpy(Rpy::Metrics(metrics));
        }
        if pb_msg.has_processes() {
            let pids = pids_from_pb(pb_msg.take_processes().take_pids());
            return Msg::Rpy(Rpy::Processes(pids));
        }
        if pb_msg.has_services() {
            let pids = pids_from_pb(pb_msg.take_services().take_pids());
            return Msg::Rpy(Rpy::Services(pids));
        }
        if pb_msg.has_members() {
            let members = members_from_pb(pb_msg.take_members().take_members());
            return Msg::Rpy(Rpy::Members(members));
        }
        Msg::Unknown
    }
}

/// The conversion answers for its result in the `ensures` of `from`, by the
/// views of the strings: no spec function can name the strings it makes.
impl<T: UserMsg> FromSpecImpl<PbMsg> for Msg<T> {
    open spec fn obeys_from_spec() -> bool {
        false
    }

    open spec fn from_spec(v: PbMsg) -> Msg<T> {
        arbitrary()
    }
}

impl<T: UserMsg> From<Msg<T>> for PbMsg {
    /// The wire form of a body.
    fn from(msg: Msg<T>) -> (r: PbMsg)
        ensures
            pb_of_msg(msg, r),
    {
        let mut pbmsg = PbMsg::new();
        match msg {
            Msg::User(user_msg) => {
                let bytes = user_msg.to_bytes();
                pbmsg.set_user_msg(bytes);
            },
            Msg::Req(Req::GetMetrics) => {
                pbmsg.set_get_metrics(true);
            },
            Msg::Req(Req::StartTimer(time_in_ms)) => {
                pbmsg.set_start_timer(time_in_ms);
            },
            Msg::Req(Req::CancelTimer) => {
                pbmsg.set_cancel_timer(true);
            },
            Msg::Req(Req::Shutdown) => {
                pbmsg.set_shutdown(true);
            },
            Msg::Req(Req::GetProcesses) => {
                pbmsg.set_get_processes(pb_messages::NodeId::new());
            },
            Msg::Req(Req::GetServices) => {
                pbmsg.set_get_services(pb_messages::NodeId::new());
            },
            Msg::Rpy(Rpy::Timeout) => {
                pbmsg.set_timeout(true);
            },
            Msg::Rpy(Rpy::Metrics(metrics)) => {
                let mut pb_metrics = pb_messages::Metrics::new();
                pb_metrics.set_metrics(metrics_to_pb(metrics));
                pbmsg.set_metrics(pb_metrics);
            },
            Msg::Rpy(Rpy::Processes(pids)) => {
                let mut processes = pb_messages::Pids::new();
                processes.set_pids(pids_to_pb(pids));
                pbmsg.set_processes(processes);
            },
            Msg::Rpy(Rpy::Services(pids)) => {
                let mut services = pb_messages::Pids::new();
                services.set_pids(pids_to_pb(pids));
                pbmsg.set_services(services);
            },
            Msg::Rpy(Rpy::Members(members)) => {
                let mut pb_members = pb_messages::Members::new();
                pb_members.set_members(members_to_pb(members));
                pbmsg.set_members(pb_members);
            },
            Msg::Rpy(Rpy::ClusterStatus(status)) => {
                let mut pb_members = pb_messages::Members::new();
                pb_members.set_members(status_to_pb(status));
                pbmsg.set_members(pb_members);
            },
            Msg::Unknown => {},
        }
        pbmsg
    }
}

/// The conversion answers for its result in the `ensures` of `from`: what a
/// user message encodes to is for its type to say.
impl<T: UserMsg> FromSpecImpl<Msg<T>> for PbMsg {
    open spec fn obeys_from_spec() -> bool {
        false
    }

    open spec fn from_spec(v: Msg<T>) -> PbMsg {
        arbitrary()
    }
}

} // verus!
