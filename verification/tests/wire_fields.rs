use rabble::pb_messages::{
    ClusterServerMsg, CorrelationId, Envelope, FieldKind, FieldRef, FieldValue, Member,
    MemberORSet, Members, Metric, Metrics, NodeId, PbMsg, Pid, Pids, WireKind,
};

fn node(name: &str) -> NodeId {
    let mut n = NodeId::new();
    n.set_name(name.to_string());
    n
}

#[test]
fn fields_accept_only_their_layout() {
    assert_eq!(NodeId::accepts(1, WireKind::LengthDelimited), Some(FieldKind::Text));
    assert_eq!(NodeId::accepts(1, WireKind::Varint), None);
    assert_eq!(NodeId::accepts(3, WireKind::LengthDelimited), None);
    assert_eq!(CorrelationId::accepts(2, WireKind::Varint), Some(FieldKind::Uint64));
    assert_eq!(CorrelationId::accepts(2, WireKind::Fixed64), None);
    assert_eq!(CorrelationId::accepts(1, WireKind::LengthDelimited), Some(FieldKind::Pid));
    assert_eq!(PbMsg::accepts(50001, WireKind::Varint), Some(FieldKind::Bool));
    assert_eq!(PbMsg::accepts(50001, WireKind::Fixed32), None);
    assert_eq!(PbMsg::accepts(100000, WireKind::LengthDelimited), Some(FieldKind::Bytes));
    assert_eq!(PbMsg::accepts(100000, WireKind::StartGroup), None);
    assert_eq!(Metric::accepts(1, WireKind::Varint), Some(FieldKind::Int64));
    assert_eq!(Metric::accepts(1, WireKind::EndGroup), None);
    assert_eq!(Pids::accepts(1, WireKind::LengthDelimited), Some(FieldKind::Pid));
    assert_eq!(Pids::accepts(1, WireKind::Varint), None);
}

#[test]
fn kinds_have_their_layout() {
    assert_eq!(FieldKind::Bool.wire_kind(), WireKind::Varint);
    assert_eq!(FieldKind::Uint64.wire_kind(), WireKind::Varint);
    assert_eq!(FieldKind::Int64.wire_kind(), WireKind::Varint);
    assert_eq!(FieldKind::Text.wire_kind(), WireKind::LengthDelimited);
    assert_eq!(FieldKind::Bytes.wire_kind(), WireKind::LengthDelimited);
    assert_eq!(FieldKind::NodeId.wire_kind(), WireKind::LengthDelimited);
    assert_eq!(FieldKind::PbMsg.wire_kind(), WireKind::LengthDelimited);
    assert_eq!(FieldKind::MemberORSet.wire_kind(), WireKind::LengthDelimited);
}

#[test]
fn field_numbers_of_the_schema() {
    assert_eq!(NodeId::field_kind(1), Some(FieldKind::Text));
    assert_eq!(NodeId::field_kind(2), Some(FieldKind::Text));
    assert_eq!(NodeId::field_kind(0), None);
    assert_eq!(NodeId::field_kind(3), None);
    assert_eq!(Pids::field_kind(1), Some(FieldKind::Pid));
    assert_eq!(Pids::field_kind(2), None);
    assert_eq!(Pid::field_kind(1), Some(FieldKind::Text));
    assert_eq!(Pid::field_kind(2), Some(FieldKind::Text));
    assert_eq!(Pid::field_kind(3), Some(FieldKind::NodeId));
    assert_eq!(CorrelationId::field_kind(1), Some(FieldKind::Pid));
    assert_eq!(CorrelationId::field_kind(2), Some(FieldKind::Uint64));
    assert_eq!(CorrelationId::field_kind(3), Some(FieldKind::Uint64));
    assert_eq!(Envelope::field_kind(1), Some(FieldKind::Pid));
    assert_eq!(Envelope::field_kind(2), Some(FieldKind::Pid));
    assert_eq!(Envelope::field_kind(3), Some(FieldKind::CorrelationId));
    assert_eq!(Envelope::field_kind(4), Some(FieldKind::PbMsg));
    assert_eq!(PbMsg::field_kind(1), Some(FieldKind::Bool));
    assert_eq!(PbMsg::field_kind(2), Some(FieldKind::Uint64));
    assert_eq!(PbMsg::field_kind(3), Some(FieldKind::Bool));
    assert_eq!(PbMsg::field_kind(4), Some(FieldKind::Bool));
    assert_eq!(PbMsg::field_kind(5), Some(FieldKind::NodeId));
    assert_eq!(PbMsg::field_kind(6), Some(FieldKind::NodeId));
    assert_eq!(PbMsg::field_kind(7), None);
    assert_eq!(PbMsg::field_kind(50000), Some(FieldKind::Metrics));
    assert_eq!(PbMsg::field_kind(50001), Some(FieldKind::Bool));
    assert_eq!(PbMsg::field_kind(50002), Some(FieldKind::Pids));
    assert_eq!(PbMsg::field_kind(50003), Some(FieldKind::Pids));
    assert_eq!(PbMsg::field_kind(50004), Some(FieldKind::Members));
    assert_eq!(PbMsg::field_kind(100000), Some(FieldKind::Bytes));
    assert_eq!(Members::field_kind(1), Some(FieldKind::Member));
    assert_eq!(Member::field_kind(1), Some(FieldKind::NodeId));
    assert_eq!(Member::field_kind(2), Some(FieldKind::Bool));
    assert_eq!(Metrics::field_kind(1), Some(FieldKind::Metric));
    assert_eq!(Metric::field_kind(1), Some(FieldKind::Int64));
    assert_eq!(Metric::field_kind(2), Some(FieldKind::Uint64));
    assert_eq!(Metric::field_kind(3), Some(FieldKind::Bytes));
    assert_eq!(ClusterServerMsg::field_kind(1), Some(FieldKind::MemberORSet));
    assert_eq!(ClusterServerMsg::field_kind(2), Some(FieldKind::Bool));
    assert_eq!(ClusterServerMsg::field_kind(3), Some(FieldKind::Envelope));
    assert_eq!(ClusterServerMsg::field_kind(4), Some(FieldKind::Bytes));
    assert_eq!(ClusterServerMsg::field_kind(5), None);
    assert_eq!(MemberORSet::field_kind(1), Some(FieldKind::NodeId));
    assert_eq!(MemberORSet::field_kind(2), Some(FieldKind::Bytes));
}

#[test]
fn merge_field_sets_the_field_of_that_number() {
    let mut n = NodeId::new();
    assert!(n.merge_field(1, FieldValue::Text("a".to_string())));
    assert!(n.merge_field(2, FieldValue::Text("b".to_string())));
    assert_eq!(n.get_name(), "a");
    assert_eq!(n.get_addr(), "b");
    // the last value read wins
    assert!(n.merge_field(1, FieldValue::Text("c".to_string())));
    assert_eq!(n.get_name(), "c");
    let mut p = Pid::new();
    assert!(p.merge_field(3, FieldValue::NodeId(n.clone())));
    assert_eq!(p.get_node(), n);
    let mut c = CorrelationId::new();
    assert!(c.merge_field(2, FieldValue::Uint64(5)));
    assert!(c.merge_field(3, FieldValue::Uint64(6)));
    assert!(c.merge_field(1, FieldValue::Pid(p.clone())));
    assert_eq!((c.get_handle(), c.get_request()), (5, 6));
    assert_eq!(c.get_pid(), p);
    let mut m = Member::new();
    assert!(m.merge_field(2, FieldValue::Bool(true)));
    assert!(m.get_connected());
    let mut o = MemberORSet::new();
    assert!(o.merge_field(2, FieldValue::Bytes(vec![1])));
    assert!(o.merge_field(1, FieldValue::NodeId(n)));
    assert_eq!(o.get_orset(), &[1]);
    assert!(o.has_from());
}

#[test]
fn merge_field_refuses_other_kinds_and_numbers() {
    let mut n = node("a");
    let before = n.clone();
    assert!(!n.merge_field(1, FieldValue::Bytes(vec![1])));
    assert!(!n.merge_field(1, FieldValue::Bool(true)));
    assert!(!n.merge_field(3, FieldValue::Text("x".to_string())));
    assert!(!n.merge_field(0, FieldValue::Text("x".to_string())));
    assert_eq!(n, before);
    let mut m = PbMsg::new();
    assert!(!m.merge_field(1, FieldValue::Uint64(1)));
    assert!(!m.merge_field(5, FieldValue::Pid(Pid::new())));
    assert!(!m.merge_field(50002, FieldValue::Pid(Pid::new())));
    assert_eq!(m, PbMsg::new());
    let mut pids = Pids::new();
    assert!(!pids.merge_field(1, FieldValue::NodeId(NodeId::new())));
    assert!(!pids.merge_field(2, FieldValue::Pid(Pid::new())));
    assert!(pids.get_pids().is_empty());
}

#[test]
fn merge_field_replaces_the_case_of_a_oneof() {
    let mut m = PbMsg::new();
    assert!(m.merge_field(1, FieldValue::Bool(true)));
    assert!(m.has_get_metrics());
    assert!(m.merge_field(2, FieldValue::Uint64(9)));
    assert!(!m.has_get_metrics());
    assert_eq!(m.get_start_timer(), 9);
    assert!(m.merge_field(50001, FieldValue::Bool(true)));
    assert!(m.has_start_timer() && m.has_timeout());
    assert!(m.merge_field(50000, FieldValue::Metrics(Metrics::new())));
    assert!(!m.has_timeout() && m.has_metrics());
    assert!(m.merge_field(100000, FieldValue::Bytes(vec![1, 2])));
    assert_eq!(m.get_user_msg(), &[1, 2]);
    assert!(m.merge_field(6, FieldValue::NodeId(node("n"))));
    assert_eq!(m.get_get_services(), node("n"));
    assert!(m.merge_field(5, FieldValue::NodeId(node("m"))));
    assert!(!m.has_get_services());
    assert!(m.merge_field(3, FieldValue::Bool(false)));
    assert!(m.merge_field(4, FieldValue::Bool(true)));
    assert!(m.has_shutdown());
    assert!(m.merge_field(50002, FieldValue::Pids(Pids::new())));
    assert!(m.merge_field(50003, FieldValue::Pids(Pids::new())));
    assert!(m.merge_field(50004, FieldValue::Members(Members::new())));
    assert!(m.has_members());
    let mut metric = Metric::new();
    assert!(metric.merge_field(1, FieldValue::Int64(-3)));
    assert!(metric.merge_field(2, FieldValue::Uint64(3)));
    assert_eq!(metric.get_counter(), 3);
    assert!(!metric.has_gauge());
    assert!(metric.merge_field(3, FieldValue::Bytes(vec![])));
    assert!(metric.has_v2_serialized_histogram());
    let mut c = ClusterServerMsg::new();
    assert!(c.merge_field(2, FieldValue::Bool(true)));
    assert!(c.merge_field(4, FieldValue::Bytes(vec![1])));
    assert!(c.has_Delta() && !c.has_Ping());
    assert!(c.merge_field(1, FieldValue::MemberORSet(MemberORSet::new())));
    assert!(c.merge_field(3, FieldValue::Envelope(Envelope::new())));
    assert!(c.has_envelope());
}

#[test]
fn merge_field_appends_to_lists() {
    let mut pids = Pids::new();
    let mut a = Pid::new();
    a.set_name("a".to_string());
    assert!(pids.merge_field(1, FieldValue::Pid(a.clone())));
    assert!(pids.merge_field(1, FieldValue::Pid(Pid::new())));
    assert_eq!(pids.get_pids(), &[a, Pid::new()]);
    let mut members = Members::new();
    assert!(members.merge_field(1, FieldValue::Member(Member::new())));
    assert_eq!(members.get_members().len(), 1);
    let mut metrics = Metrics::new();
    assert!(metrics.merge_field(1, FieldValue::Metric(Metric::new())));
    assert!(metrics.merge_field(1, FieldValue::Metric(Metric::new())));
    assert_eq!(metrics.get_metrics().len(), 2);
}

#[test]
fn set_fields_list_what_is_written() {
    assert!(NodeId::new().set_fields().is_empty());
    let mut n = NodeId::new();
    n.set_addr("b".to_string());
    assert_eq!(n.set_fields(), vec![(2, FieldRef::Text("b"))]);
    n.set_name("a".to_string());
    assert_eq!(n.set_fields(), vec![(1, FieldRef::Text("a")), (2, FieldRef::Text("b"))]);
    let mut p = Pid::new();
    p.set_node(n.clone());
    p.set_group("g".to_string());
    assert_eq!(p.set_fields(), vec![(2, FieldRef::Text("g")), (3, FieldRef::NodeId(&n))]);
    let mut c = CorrelationId::new();
    c.set_request(3);
    c.set_handle(2);
    assert_eq!(c.set_fields(), vec![(2, FieldRef::Uint64(2)), (3, FieldRef::Uint64(3))]);
    let mut pids = Pids::new();
    pids.set_pids(vec![p.clone(), Pid::new()]);
    let empty = Pid::new();
    assert_eq!(pids.set_fields(), vec![(1, FieldRef::Pid(&p)), (1, FieldRef::Pid(&empty))]);
    let mut metric = Metric::new();
    metric.set_gauge(-1);
    assert_eq!(metric.set_fields(), vec![(1, FieldRef::Int64(-1))]);
    let mut member = Member::new();
    member.set_connected(false);
    assert_eq!(member.set_fields(), vec![(2, FieldRef::Bool(false))]);
}

#[test]
fn message_body_writes_the_user_message_first() {
    let mut m = PbMsg::new();
    m.set_timeout(true);
    m.set_start_timer(7);
    m.set_user_msg(vec![9]);
    assert_eq!(
        m.set_fields(),
        vec![
            (100000, FieldRef::Bytes(&[9])),
            (2, FieldRef::Uint64(7)),
            (50001, FieldRef::Bool(true))
        ]
    );
    let mut e = Envelope::new();
    e.set_msg(m.clone());
    e.set_to(Pid::new());
    let to = Pid::new();
    assert_eq!(e.set_fields(), vec![(1, FieldRef::Pid(&to)), (4, FieldRef::PbMsg(&m))]);
    let mut c = ClusterServerMsg::new();
    c.set_Ping(true);
    assert_eq!(c.set_fields(), vec![(2, FieldRef::Bool(true))]);
    c.set_envelope(e.clone());
    assert_eq!(c.set_fields(), vec![(3, FieldRef::Envelope(&e))]);
}

fn owned(field: FieldRef) -> FieldValue {
    match field {
        FieldRef::Bool(v) => FieldValue::Bool(v),
        FieldRef::Uint64(v) => FieldValue::Uint64(v),
        FieldRef::Int64(v) => FieldValue::Int64(v),
        FieldRef::Text(v) => FieldValue::Text(v.to_string()),
        FieldRef::Bytes(v) => FieldValue::Bytes(v.to_vec()),
        FieldRef::NodeId(v) => FieldValue::NodeId(v.clone()),
        FieldRef::Pids(v) => FieldValue::Pids(v.clone()),
        FieldRef::Pid(v) => FieldValue::Pid(v.clone()),
        FieldRef::CorrelationId(v) => FieldValue::CorrelationId(v.clone()),
        FieldRef::Envelope(v) => FieldValue::Envelope(v.clone()),
        FieldRef::PbMsg(v) => FieldValue::PbMsg(v.clone()),
        FieldRef::Members(v) => FieldValue::Members(v.clone()),
        FieldRef::Member(v) => FieldValue::Member(v.clone()),
        FieldRef::Metrics(v) => FieldValue::Metrics(v.clone()),
        FieldRef::Metric(v) => FieldValue::Metric(v.clone()),
        FieldRef::MemberORSet(v) => FieldValue::MemberORSet(v.clone()),
    }
}

#[test]
fn what_a_message_writes_it_reads_back() {
    let mut n = NodeId::new();
    n.set_name("node1".to_string());
    n.set_addr("127.0.0.1:11000".to_string());
    let mut back = NodeId::new();
    for (number, field) in n.set_fields() {
        assert_eq!(NodeId::field_kind(number).map(|k| k.wire_kind()).is_some(), true);
        assert!(back.merge_field(number, owned(field)));
    }
    assert_eq!(back, n);

    let mut p = Pid::new();
    p.set_name("svc".to_string());
    p.set_node(n.clone());
    let mut pids = Pids::new();
    pids.set_pids(vec![p.clone(), Pid::new(), p.clone()]);
    let mut back = Pids::new();
    for (number, field) in pids.set_fields() {
        assert!(back.merge_field(number, owned(field)));
    }
    assert_eq!(back, pids);

    let mut body = PbMsg::new();
    body.set_user_msg(vec![1, 2, 3]);
    body.set_get_services(n.clone());
    body.set_processes(pids);
    let mut c = CorrelationId::new();
    c.set_pid(p.clone());
    c.set_request(9);
    let mut e = Envelope::new();
    e.set_to(p.clone());
    e.set_from(p);
    e.set_cid(c);
    e.set_msg(body.clone());
    let mut back = Envelope::new();
    for (number, field) in e.set_fields() {
        assert!(back.merge_field(number, owned(field)));
    }
    assert_eq!(back, e);
    let mut back = PbMsg::new();
    for (number, field) in body.set_fields() {
        assert!(back.merge_field(number, owned(field)));
    }
    assert_eq!(back, body);
    let mut m = ClusterServerMsg::new();
    m.set_envelope(e);
    let mut back = ClusterServerMsg::new();
    for (number, field) in m.set_fields() {
        assert!(back.merge_field(number, owned(field)));
    }
    assert_eq!(back, m);
}
