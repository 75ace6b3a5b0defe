use rabble::pb_messages::{
    ClusterServerMsg, ClusterServerMsg_oneof_msg, CorrelationId, Envelope, Member, MemberORSet,
    Members, Metric, Metric_oneof_metric, Metrics, NodeId, PbMsg, PbMsg_oneof_reply,
    PbMsg_oneof_request, Pid, Pids,
};

#[test]
fn new_messages_have_nothing_set() {
    let n = NodeId::new();
    assert!(!n.has_name() && !n.has_addr());
    assert_eq!(n.get_name(), "");
    assert_eq!(n.get_addr(), "");
    let p = Pid::new();
    assert!(!p.has_name() && !p.has_group() && !p.has_node());
    assert_eq!(p.get_node(), NodeId::new());
    assert!(!p.has_node());
    let c = CorrelationId::new();
    assert!(!c.has_pid() && !c.has_handle() && !c.has_request());
    assert_eq!(c.get_handle(), 0);
    assert_eq!(c.get_request(), 0);
    let e = Envelope::new();
    assert!(!e.has_to() && !e.has_from() && !e.has_cid() && !e.has_msg());
    let m = PbMsg::new();
    assert!(m.request.is_none() && m.reply.is_none() && !m.has_user_msg());
    assert!(Pids::new().get_pids().is_empty());
    assert!(Members::new().get_members().is_empty());
    assert!(Metrics::new().get_metrics().is_empty());
    assert!(Metric::new().metric.is_none());
    assert!(ClusterServerMsg::new().msg.is_none());
    let o = MemberORSet::new();
    assert!(!o.has_from() && !o.has_orset());
    let mb = Member::new();
    assert!(!mb.has_node() && !mb.has_connected());
    assert!(!mb.get_connected());
}

#[test]
fn string_field_accessors() {
    let mut n = NodeId::new();
    n.set_name("node1".to_string());
    assert!(n.has_name());
    assert!(!n.has_addr());
    assert_eq!(n.get_name(), "node1");
    n.mut_name().push_str("x");
    assert_eq!(n.get_name(), "node1x");
    assert_eq!(n.take_name(), "node1x");
    assert!(!n.has_name());
    assert_eq!(n.take_name(), "");
    n.mut_addr().push_str("127.0.0.1");
    assert!(n.has_addr());
    assert_eq!(n.get_addr(), "127.0.0.1");
    n.clear_addr();
    assert!(!n.has_addr());
    assert_eq!(n.get_addr(), "");
}

#[test]
fn message_field_accessors() {
    let mut p = Pid::new();
    p.set_name("svc".to_string());
    p.set_group("g".to_string());
    let mut n = NodeId::new();
    n.set_name("node1".to_string());
    p.set_node(n);
    assert!(p.has_node());
    assert_eq!(p.get_node().get_name(), "node1");
    p.mut_node().set_addr("a:1".to_string());
    assert_eq!(p.get_node().get_addr(), "a:1");
    let taken = p.take_node();
    assert_eq!(taken.get_addr(), "a:1");
    assert!(!p.has_node());
    let empty = p.take_node();
    assert!(!empty.has_name() && !empty.has_addr());
    p.mut_node();
    assert!(p.has_node());
    assert!(!p.get_node().has_name());
    p.clear_node();
    assert!(!p.has_node());
    assert_eq!(p.get_name(), "svc");
    assert_eq!(p.get_group(), "g");
    p.clear_group();
    assert!(!p.has_group());
    assert_eq!(p.take_group(), "");
    p.clear_name();
    assert!(!p.has_name());
}

#[test]
fn scalar_field_accessors() {
    let mut c = CorrelationId::new();
    c.set_handle(7);
    c.set_request(9);
    assert!(c.has_handle() && c.has_request());
    assert_eq!(c.get_handle(), 7);
    assert_eq!(c.get_request(), 9);
    c.clear_handle();
    assert!(!c.has_handle());
    assert_eq!(c.get_handle(), 0);
    assert_eq!(c.get_request(), 9);
    c.clear_request();
    assert_eq!(c.get_request(), 0);
    let mut p = Pid::new();
    p.set_name("x".to_string());
    c.set_pid(p);
    assert_eq!(c.get_pid().get_name(), "x");
    c.mut_pid().set_name("y".to_string());
    assert_eq!(c.take_pid().get_name(), "y");
    assert!(!c.has_pid());
    c.clear_pid();
    let mut m = Member::new();
    m.set_connected(true);
    assert!(m.has_connected() && m.get_connected());
    m.clear_connected();
    assert!(!m.has_connected() && !m.get_connected());
    m.set_node(NodeId::new());
    assert!(m.has_node());
    m.mut_node().set_name("n".to_string());
    assert_eq!(m.get_node().get_name(), "n");
    assert_eq!(m.take_node().get_name(), "n");
    m.clear_node();
    assert!(!m.has_node());
}

#[test]
fn repeated_field_accessors() {
    let mut pids = Pids::new();
    let mut p = Pid::new();
    p.set_name("a".to_string());
    pids.set_pids(vec![p]);
    assert_eq!(pids.get_pids().len(), 1);
    pids.mut_pids().push(Pid::new());
    assert_eq!(pids.get_pids().len(), 2);
    assert_eq!(pids.get_pids()[0].get_name(), "a");
    let taken = pids.take_pids();
    assert_eq!(taken.len(), 2);
    assert!(pids.get_pids().is_empty());
    pids.set_pids(taken);
    pids.clear_pids();
    assert!(pids.get_pids().is_empty());

    let mut members = Members::new();
    members.mut_members().push(Member::new());
    assert_eq!(members.get_members().len(), 1);
    assert_eq!(members.take_members().len(), 1);
    members.set_members(vec![Member::new(), Member::new()]);
    members.clear_members();
    assert!(members.get_members().is_empty());

    let mut metrics = Metrics::new();
    metrics.set_metrics(vec![Metric::new()]);
    metrics.mut_metrics().push(Metric::new());
    assert_eq!(metrics.get_metrics().len(), 2);
    assert_eq!(metrics.take_metrics().len(), 2);
    metrics.clear_metrics();
    assert!(metrics.get_metrics().is_empty());
}

#[test]
fn oneof_scalar_accessors() {
    let mut m = PbMsg::new();
    m.set_get_metrics(true);
    assert!(m.has_get_metrics() && m.get_get_metrics());
    assert!(!m.has_start_timer());
    assert_eq!(m.get_start_timer(), 0);
    m.set_start_timer(250);
    assert!(!m.has_get_metrics() && !m.get_get_metrics());
    assert!(m.has_start_timer());
    assert_eq!(m.get_start_timer(), 250);
    m.set_cancel_timer(true);
    assert!(m.has_cancel_timer() && m.get_cancel_timer());
    assert!(!m.has_start_timer());
    m.set_shutdown(false);
    assert!(m.has_shutdown());
    assert!(!m.get_shutdown());
    // clearing one case clears the group, whichever case it holds
    m.clear_get_metrics();
    assert!(!m.has_shutdown());
    assert!(m.request.is_none());
    m.set_timeout(true);
    assert!(m.has_timeout() && m.get_timeout());
    m.set_start_timer(1);
    assert!(m.has_timeout() && m.has_start_timer());
    m.clear_timeout();
    assert!(!m.has_timeout());
    assert!(m.has_start_timer());
    m.clear_start_timer();
    m.set_cancel_timer(true);
    m.clear_cancel_timer();
    m.set_shutdown(true);
    m.clear_shutdown();
    assert!(m.request.is_none());
}

#[test]
fn oneof_message_accessors() {
    let mut m = PbMsg::new();
    assert_eq!(m.get_get_processes(), NodeId::new());
    assert!(m.request.is_none());
    m.mut_get_processes().set_name("n".to_string());
    assert!(m.has_get_processes());
    assert_eq!(m.get_get_processes().get_name(), "n");
    assert!(matches!(m.request, Some(PbMsg_oneof_request::get_processes(_))));
    // taking another case changes nothing
    let other = m.take_get_services();
    assert!(!other.has_name());
    assert!(m.has_get_processes());
    assert_eq!(m.take_get_processes().get_name(), "n");
    assert!(m.request.is_none());
    m.set_get_services(NodeId::new());
    assert!(m.has_get_services());
    m.mut_get_services().set_addr("a".to_string());
    assert_eq!(m.get_get_services().get_addr(), "a");
    // asking for another case replaces the one that is held
    m.mut_get_processes();
    assert!(!m.has_get_services());
    assert!(!m.get_get_processes().has_addr());
    m.clear_get_processes();
    m.set_get_processes(NodeId::new());
    m.clear_get_services();
    assert!(m.request.is_none());

    m.set_metrics(Metrics::new());
    assert!(m.has_metrics());
    m.mut_metrics().mut_metrics().push(Metric::new());
    assert_eq!(m.get_metrics().get_metrics().len(), 1);
    assert_eq!(m.take_metrics().get_metrics().len(), 1);
    assert!(m.reply.is_none());
    m.mut_processes().mut_pids().push(Pid::new());
    assert!(matches!(m.reply, Some(PbMsg_oneof_reply::processes(_))));
    assert_eq!(m.get_processes().get_pids().len(), 1);
    assert_eq!(m.get_services(), Pids::new());
    assert!(m.take_services().get_pids().is_empty());
    assert_eq!(m.take_processes().get_pids().len(), 1);
    m.set_services(Pids::new());
    assert!(m.has_services() && !m.has_processes());
    m.mut_services();
    m.clear_services();
    m.set_processes(Pids::new());
    m.clear_processes();
    m.set_members(Members::new());
    assert!(m.has_members());
    m.mut_members().mut_members().push(Member::new());
    assert_eq!(m.get_members().get_members().len(), 1);
    assert_eq!(m.take_members().get_members().len(), 1);
    assert!(!m.has_members());
    m.mut_metrics();
    m.clear_metrics();
    m.mut_members();
    m.clear_members();
    assert!(m.reply.is_none());
}

#[test]
fn bytes_field_accessors() {
    let mut m = PbMsg::new();
    assert!(m.get_user_msg().is_empty());
    m.set_user_msg(vec![1, 2, 3]);
    assert!(m.has_user_msg());
    assert_eq!(m.get_user_msg(), &[1, 2, 3]);
    m.mut_user_msg().push(4);
    assert_eq!(m.take_user_msg(), vec![1, 2, 3, 4]);
    assert!(!m.has_user_msg());
    assert!(m.take_user_msg().is_empty());
    m.mut_user_msg();
    assert!(m.has_user_msg());
    m.clear_user_msg();
    assert!(!m.has_user_msg());

    let mut o = MemberORSet::new();
    o.set_orset(vec![9]);
    assert_eq!(o.get_orset(), &[9]);
    o.mut_orset().push(8);
    assert_eq!(o.take_orset(), vec![9, 8]);
    assert!(o.get_orset().is_empty());
    o.clear_orset();
    o.set_from(NodeId::new());
    o.mut_from().set_name("f".to_string());
    assert_eq!(o.get_from().get_name(), "f");
    assert_eq!(o.take_from().get_name(), "f");
    o.clear_from();
    assert!(!o.has_from());
}

#[test]
fn metric_accessors() {
    let mut m = Metric::new();
    m.set_gauge(-5);
    assert!(m.has_gauge());
    assert_eq!(m.get_gauge(), -5);
    assert_eq!(m.get_counter(), 0);
    m.set_counter(5);
    assert!(!m.has_gauge() && m.has_counter());
    assert_eq!(m.get_gauge(), 0);
    assert_eq!(m.get_counter(), 5);
    m.set_v2_serialized_histogram(vec![1]);
    assert!(m.has_v2_serialized_histogram());
    assert!(matches!(m.metric, Some(Metric_oneof_metric::v2_serialized_histogram(_))));
    m.mut_v2_serialized_histogram().push(2);
    assert_eq!(m.get_v2_serialized_histogram(), &[1, 2]);
    assert_eq!(m.take_v2_serialized_histogram(), vec![1, 2]);
    assert!(m.metric.is_none());
    assert!(m.take_v2_serialized_histogram().is_empty());
    m.set_gauge(1);
    assert!(m.take_v2_serialized_histogram().is_empty());
    assert!(m.has_gauge());
    assert!(m.get_v2_serialized_histogram().is_empty());
    m.clear_gauge();
    m.set_counter(1);
    m.clear_counter();
    m.mut_v2_serialized_histogram();
    assert!(m.has_v2_serialized_histogram());
    m.clear_v2_serialized_histogram();
    assert!(m.metric.is_none());
}

#[test]
fn cluster_server_msg_accessors() {
    let mut m = ClusterServerMsg::new();
    m.set_Ping(true);
    assert!(m.has_Ping() && m.get_Ping());
    m.set_Delta(vec![1, 2]);
    assert!(!m.has_Ping() && !m.get_Ping());
    assert!(m.has_Delta());
    assert_eq!(m.get_Delta(), &[1, 2]);
    m.mut_Delta().push(3);
    assert_eq!(m.take_Delta(), vec![1, 2, 3]);
    assert!(m.msg.is_none());
    m.mut_orset().set_orset(vec![7]);
    assert!(m.has_orset());
    assert!(matches!(m.msg, Some(ClusterServerMsg_oneof_msg::orset(_))));
    assert_eq!(m.get_orset().get_orset(), &[7]);
    assert_eq!(m.get_envelope(), Envelope::new());
    assert!(!m.take_envelope().has_to());
    assert_eq!(m.take_orset().get_orset(), &[7]);
    m.set_envelope(Envelope::new());
    assert!(m.has_envelope());
    m.mut_envelope().mut_to().set_name("t".to_string());
    assert_eq!(m.get_envelope().get_to().get_name(), "t");
    assert_eq!(m.take_envelope().get_to().get_name(), "t");
    m.set_orset(MemberORSet::new());
    m.clear_orset();
    m.set_Ping(false);
    m.clear_Ping();
    m.set_envelope(Envelope::new());
    m.clear_envelope();
    m.mut_Delta();
    assert!(m.has_Delta() && m.get_Delta().is_empty());
    m.clear_Delta();
    assert!(m.msg.is_none());
}

#[test]
fn envelope_accessors() {
    let mut e = Envelope::new();
    e.mut_to().set_name("to".to_string());
    e.mut_from().set_name("from".to_string());
    e.mut_cid().set_handle(3);
    e.mut_msg().set_timeout(true);
    assert!(e.has_to() && e.has_from() && e.has_cid() && e.has_msg());
    assert_eq!(e.get_to().get_name(), "to");
    assert_eq!(e.get_from().get_name(), "from");
    assert_eq!(e.get_cid().get_handle(), 3);
    assert!(e.get_msg().get_timeout());
    assert_eq!(e.take_to().get_name(), "to");
    assert_eq!(e.take_from().get_name(), "from");
    assert_eq!(e.take_cid().get_handle(), 3);
    assert!(e.take_msg().has_timeout());
    assert!(!e.has_to() && !e.has_from() && !e.has_cid() && !e.has_msg());
    assert!(!e.take_to().has_name());
    assert!(!e.take_msg().has_timeout());
    e.set_to(Pid::new());
    e.set_from(Pid::new());
    e.set_cid(CorrelationId::new());
    e.set_msg(PbMsg::new());
    assert!(e.has_to() && e.has_from() && e.has_cid() && e.has_msg());
    e.clear_to();
    e.clear_from();
    e.clear_cid();
    e.clear_msg();
    assert_eq!(e.get_to(), Pid::new());
    assert_eq!(e.get_from(), Pid::new());
    assert_eq!(e.get_cid(), CorrelationId::new());
    assert_eq!(e.get_msg(), PbMsg::new());
    assert!(!e.has_to() && !e.has_from() && !e.has_cid() && !e.has_msg());
}

#[test]
fn unset_message_fields_read_as_empty_messages() {
    let p = Pid::new();
    assert!(!p.has_name() && !p.has_group() && !p.has_node());
    assert_eq!(p.get_name(), "");
    assert_eq!(p.get_group(), "");
    assert_eq!(p.get_node(), NodeId::new());
    assert!(!p.has_node());
    let e = Envelope::new();
    assert_eq!(e.get_cid(), CorrelationId::new());
    assert!(!e.has_cid());
    assert_eq!(CorrelationId::new().get_pid(), Pid::new());
    assert_eq!(Member::new().get_node(), NodeId::new());
    assert_eq!(MemberORSet::new().get_from(), NodeId::new());
    let m = PbMsg::new();
    assert_eq!(m.get_get_services(), NodeId::new());
    assert_eq!(m.get_metrics(), Metrics::new());
    assert_eq!(m.get_processes(), Pids::new());
    assert_eq!(m.get_members(), Members::new());
    let c = ClusterServerMsg::new();
    assert_eq!(c.get_orset(), MemberORSet::new());
    assert_eq!(c.get_envelope(), Envelope::new());
}

#[test]
fn take_msg_leaves_the_body_unset() {
    let mut m = PbMsg::new();
    m.set_shutdown(true);
    let mut e = Envelope::new();
    e.set_msg(m.clone());
    assert_eq!(e.get_msg(), m);
    assert_eq!(e.take_msg(), m);
    assert!(!e.has_msg());
    assert_eq!(e.get_msg(), PbMsg::new());
    assert!(!e.has_to() && !e.has_from() && !e.has_cid());
    assert_eq!(e.take_msg(), PbMsg::new());
}

#[test]
fn getters_and_clones_copy_everything() {
    let mut n = NodeId::new();
    n.set_name("n".to_string());
    let mut p = Pid::new();
    p.set_name("p".to_string());
    p.set_node(n.clone());
    let mut pids = Pids::new();
    pids.set_pids(vec![p.clone(), Pid::new()]);
    let mut gauge = Metric::new();
    gauge.set_v2_serialized_histogram(vec![1, 2, 3]);
    let mut metrics = Metrics::new();
    metrics.set_metrics(vec![gauge.clone()]);
    let mut body = PbMsg::new();
    body.set_user_msg(vec![4, 5]);
    body.set_start_timer(6);
    body.set_metrics(metrics.clone());
    assert_eq!(body.get_metrics(), metrics);
    assert_eq!(body.clone(), body);
    body.set_processes(pids.clone());
    assert_eq!(body.get_processes(), pids);
    assert_eq!(body.get_services(), Pids::new());
    let mut member = Member::new();
    member.set_node(n.clone());
    let mut members = Members::new();
    members.set_members(vec![member.clone()]);
    body.set_members(members.clone());
    assert_eq!(body.get_members(), members);
    assert_eq!(members.clone(), members);
    let mut e = Envelope::new();
    e.set_msg(body.clone());
    e.set_to(p.clone());
    assert_eq!(e.get_msg(), body);
    assert_eq!(e.get_to(), p);
    assert_eq!(e.clone(), e);
    let mut o = MemberORSet::new();
    o.set_orset(vec![9]);
    o.set_from(n.clone());
    let mut c = ClusterServerMsg::new();
    c.set_orset(o.clone());
    assert_eq!(c.get_orset(), o);
    assert_eq!(c.clone(), c);
    c.set_envelope(e.clone());
    assert_eq!(c.get_envelope(), e);
    assert_eq!(c.get_orset(), MemberORSet::new());
    assert_eq!(rabble::pb_messages::field::copy_bytes(&vec![1, 2]), vec![1, 2]);
}
