use rabble::cluster::ClusterStatus;
use rabble::pb_messages;
use rabble::pb_messages::PbMsg;
use rabble::{CorrelationId, Envelope, Metric, Msg, NodeId, Pid, Req, Rpy, UserMsg};

#[derive(Debug, Clone, PartialEq)]
struct Note(String);

impl UserMsg for Note {
    fn to_bytes(&self) -> Vec<u8> {
        self.0.as_bytes().to_vec()
    }

    fn from_bytes(bytes: Vec<u8>) -> Note {
        Note(String::from_utf8(bytes).unwrap())
    }
}

fn node(name: &str) -> NodeId {
    NodeId { name: name.to_string(), addr: "127.0.0.1:11000".to_string() }
}

fn pid(name: &str, group: Option<&str>) -> Pid {
    Pid { name: name.to_string(), group: group.map(|g| g.to_string()), node: node("node1") }
}

fn round_trip(msg: Msg<Note>) -> Msg<Note> {
    Msg::from(PbMsg::from(msg))
}

#[test]
fn pid_wire_form_round_trip() {
    for p in [pid("svc", Some("Service")), pid("proc", None), pid("", Some(""))] {
        let pb = pb_messages::Pid::from(p.clone());
        assert_eq!(pb.has_group(), p.group.is_some());
        assert!(pb.has_name() && pb.has_node());
        assert_eq!(Pid::from(pb), p);
    }
}

#[test]
fn pid_from_empty_wire_form() {
    let p = Pid::from(pb_messages::Pid::new());
    assert_eq!(
        p,
        Pid {
            name: String::new(),
            group: None,
            node: NodeId { name: String::new(), addr: String::new() }
        }
    );
}

#[test]
fn pid_equality_and_clone() {
    let p = pid("svc", Some("Service"));
    assert_eq!(p.clone(), p);
    assert_ne!(p, pid("svc", None));
    assert_ne!(p, pid("svc", Some("Other")));
    assert_ne!(p, pid("svd", Some("Service")));
    let mut q = p.clone();
    q.node.addr = "elsewhere".to_string();
    assert_ne!(p, q);
    assert!(rabble::pid::opt_str_eq(&None, &None));
    assert!(!rabble::pid::opt_str_eq(&Some("a".to_string()), &None));
    assert_eq!(rabble::pid::opt_str_clone(&Some("a".to_string())), Some("a".to_string()));
}

#[test]
fn pid_lists_convert_in_order() {
    let pids = vec![pid("a", None), pid("b", Some("g")), pid("c", None)];
    let pb = rabble::pid::pids_to_pb(pids.clone());
    assert_eq!(pb.len(), 3);
    assert_eq!(pb[1].get_name(), "b");
    assert_eq!(rabble::pid::pids_from_pb(pb), pids);
}

#[test]
fn correlation_id_constructors() {
    let p = pid("svc", None);
    assert_eq!(
        CorrelationId::pid(p.clone()),
        CorrelationId { pid: Some(p.clone()), handle: None, request: None }
    );
    assert_eq!(
        CorrelationId::handle(p.clone(), 4),
        CorrelationId { pid: Some(p.clone()), handle: Some(4), request: None }
    );
    assert_eq!(
        CorrelationId::request(p.clone(), 4, 5),
        CorrelationId { pid: Some(p.clone()), handle: Some(4), request: Some(5) }
    );
    assert_ne!(CorrelationId::handle(p.clone(), 4), CorrelationId::handle(p.clone(), 5));
    assert_ne!(CorrelationId::pid(p.clone()), CorrelationId::pid(pid("other", None)));
    assert_ne!(
        CorrelationId::pid(p.clone()),
        CorrelationId { pid: None, handle: None, request: None }
    );
    let c = CorrelationId::request(p, 4, 5);
    assert_eq!(c.clone(), c);
}

#[test]
fn correlation_id_wire_form_round_trip() {
    let cases = vec![
        CorrelationId::pid(pid("svc", None)),
        CorrelationId::handle(pid("svc", Some("g")), 0),
        CorrelationId::request(pid("svc", None), 7, u64::MAX),
        CorrelationId { pid: None, handle: None, request: Some(1) },
    ];
    for c in cases {
        let pb = pb_messages::CorrelationId::from(c.clone());
        assert_eq!(pb.has_pid(), c.pid.is_some());
        assert_eq!(pb.has_handle(), c.handle.is_some());
        assert_eq!(pb.has_request(), c.request.is_some());
        assert_eq!(CorrelationId::from(pb), c);
    }
}

#[test]
fn requests_cross_the_wire() {
    assert_eq!(round_trip(Msg::Req(Req::GetMetrics)), Msg::Req(Req::GetMetrics));
    assert_eq!(round_trip(Msg::Req(Req::StartTimer(250))), Msg::Req(Req::StartTimer(250)));
    assert_eq!(round_trip(Msg::Req(Req::CancelTimer)), Msg::Req(Req::CancelTimer));
    assert_eq!(round_trip(Msg::Req(Req::Shutdown)), Msg::Req(Req::Shutdown));
    assert_eq!(round_trip(Msg::Req(Req::GetProcesses)), Msg::Req(Req::GetProcesses));
    let pb = PbMsg::from(Msg::<Note>::Req(Req::GetServices));
    assert!(pb.has_get_services());
    assert!(!pb.get_get_services().has_name());
    let pb = PbMsg::from(Msg::<Note>::Req(Req::StartTimer(9)));
    assert_eq!(pb.get_start_timer(), 9);
    assert!(pb.reply.is_none() && !pb.has_user_msg());
    let pb = PbMsg::from(Msg::<Note>::Req(Req::GetMetrics));
    assert!(pb.get_get_metrics());
}

#[test]
fn request_for_services_crosses_the_wire() {
    assert_eq!(round_trip(Msg::Req(Req::GetServices)), Msg::Req(Req::GetServices));
    let mut pb = PbMsg::new();
    pb.set_get_services(pb_messages::NodeId::new());
    assert_eq!(Msg::<Note>::from(pb), Msg::Req(Req::GetServices));
    let mut pb = PbMsg::new();
    pb.set_get_processes(pb_messages::NodeId::new());
    assert_eq!(Msg::<Note>::from(pb), Msg::Req(Req::GetProcesses));
}

#[test]
fn replies_cross_the_wire() {
    assert_eq!(round_trip(Msg::Rpy(Rpy::Timeout)), Msg::Rpy(Rpy::Timeout));
    let pids = vec![pid("a", None), pid("b", Some("g"))];
    assert_eq!(
        round_trip(Msg::Rpy(Rpy::Processes(pids.clone()))),
        Msg::Rpy(Rpy::Processes(pids.clone()))
    );
    assert_eq!(
        round_trip(Msg::Rpy(Rpy::Services(pids.clone()))),
        Msg::Rpy(Rpy::Services(pids))
    );
    let members = vec![(node("a"), true), (node("b"), false)];
    assert_eq!(
        round_trip(Msg::Rpy(Rpy::Members(members.clone()))),
        Msg::Rpy(Rpy::Members(members))
    );
}

#[test]
fn metrics_cross_the_wire_without_their_names() {
    let metrics =
        vec![("errors".to_string(), Metric::Counter(3)), ("load".to_string(), Metric::Gauge(-2))];
    let pb = PbMsg::from(Msg::<Note>::Rpy(Rpy::Metrics(metrics)));
    let sent = pb.get_metrics();
    let list = sent.get_metrics();
    assert_eq!(list.len(), 2);
    assert_eq!(list[0].get_counter(), 3);
    assert_eq!(list[1].get_gauge(), -2);
    assert_eq!(
        Msg::<Note>::from(pb),
        Msg::Rpy(Rpy::Metrics(vec![
            (String::new(), Metric::Counter(3)),
            (String::new(), Metric::Gauge(-2))
        ]))
    );
}

#[test]
fn metrics_that_are_neither_gauge_nor_counter_are_left_out() {
    let mut gauge = pb_messages::Metric::new();
    gauge.set_gauge(1);
    let mut histogram = pb_messages::Metric::new();
    histogram.set_v2_serialized_histogram(vec![1, 2]);
    let mut counter = pb_messages::Metric::new();
    counter.set_counter(2);
    let list = vec![gauge, histogram, pb_messages::Metric::new(), counter];
    assert_eq!(
        rabble::msg::metrics_from_pb(list),
        vec![(String::new(), Metric::Gauge(1)), (String::new(), Metric::Counter(2))]
    );
    let pb = rabble::msg::metrics_to_pb(vec![("x".to_string(), Metric::Gauge(4))]);
    assert!(pb[0].has_gauge());
    assert_eq!(pb[0].get_gauge(), 4);
}

#[test]
fn cluster_status_goes_as_members_with_their_connections() {
    let status = ClusterStatus {
        members: vec![node("a"), node("b"), node("c")],
        established: vec![node("c"), node("a"), node("z")],
        num_connections: 4,
    };
    assert_eq!(
        round_trip(Msg::Rpy(Rpy::ClusterStatus(status.clone()))),
        Msg::Rpy(Rpy::Members(vec![(node("a"), true), (node("b"), false), (node("c"), true)]))
    );
    let pb = rabble::msg::status_to_pb(status);
    assert_eq!(pb.len(), 3);
    assert!(pb[0].get_connected() && !pb[1].get_connected() && pb[2].get_connected());
    let members = rabble::msg::members_to_pb(vec![(node("a"), true)]);
    assert_eq!(rabble::msg::members_from_pb(members), vec![(node("a"), true)]);
    assert_eq!(
        rabble::msg::members_from_pb(vec![pb_messages::Member::new()]),
        vec![(NodeId { name: String::new(), addr: String::new() }, false)]
    );
}

#[test]
fn user_messages_cross_the_wire_as_bytes() {
    let msg = Msg::User(Note("hello".to_string()));
    let pb = PbMsg::from(msg.clone());
    assert_eq!(pb.get_user_msg(), b"hello");
    assert!(pb.request.is_none() && pb.reply.is_none());
    assert_eq!(Msg::<Note>::from(pb), msg);
}

#[test]
fn user_message_comes_before_request_and_reply() {
    let mut pb = PbMsg::new();
    pb.set_timeout(true);
    pb.set_shutdown(true);
    assert_eq!(Msg::<Note>::from(pb), Msg::Req(Req::Shutdown));
    let mut pb = PbMsg::new();
    pb.set_timeout(true);
    pb.set_shutdown(true);
    pb.set_user_msg(b"x".to_vec());
    assert_eq!(Msg::<Note>::from(pb), Msg::User(Note("x".to_string())));
}

#[test]
fn unknown_body_is_the_empty_wire_form() {
    let pb = PbMsg::from(Msg::<Note>::Unknown);
    assert!(pb.request.is_none() && pb.reply.is_none() && !pb.has_user_msg());
    assert_eq!(Msg::<Note>::from(PbMsg::new()), Msg::Unknown);
}

#[test]
fn envelope_wire_form_round_trip() {
    let e = Envelope {
        to: pid("to", Some("Service")),
        from: pid("from", None),
        msg: Msg::User(Note("payload".to_string())),
        correlation_id: Some(CorrelationId::request(pid("from", None), 1, 2)),
    };
    let pb = pb_messages::Envelope::from(e.clone());
    assert!(pb.has_to() && pb.has_from() && pb.has_msg() && pb.has_cid());
    assert_eq!(Envelope::<Note>::from(pb), e);
    let e = Envelope {
        to: pid("to", None),
        from: pid("from", None),
        msg: Msg::<Note>::Rpy(Rpy::Timeout),
        correlation_id: None,
    };
    let pb = pb_messages::Envelope::from(e.clone());
    assert!(!pb.has_cid());
    assert_eq!(Envelope::<Note>::from(pb), e);
}

#[test]
fn envelope_from_empty_wire_form() {
    let e = Envelope::<Note>::from(pb_messages::Envelope::new());
    let nobody = Pid {
        name: String::new(),
        group: None,
        node: NodeId { name: String::new(), addr: String::new() },
    };
    assert_eq!(
        e,
        Envelope { to: nobody.clone(), from: nobody, msg: Msg::Unknown, correlation_id: None }
    );
}
