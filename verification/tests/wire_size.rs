use rabble::pb_messages::size::{
    add_size, bool_field_size, bytes_field_size, int64_field_size, nested_size, text_field_size,
    uint64_field_size, FIELD_NUMBER_MAX, MAX_PAYLOAD,
};
use rabble::pb_messages::{
    ClusterServerMsg, CorrelationId, Envelope, Member, MemberORSet, Members, Metric, Metrics,
    NodeId, PbMsg, Pid, Pids,
};

fn node(name: &str, addr: &str) -> NodeId {
    let mut n = NodeId::new();
    n.set_name(name.to_string());
    n.set_addr(addr.to_string());
    n
}

fn pid(name: &str) -> Pid {
    let mut p = Pid::new();
    p.set_name(name.to_string());
    p.set_node(node("n", "a"));
    p
}

#[test]
fn field_sizes_follow_the_variable_length_encoding() {
    // a tag of one byte for the field numbers below 16
    assert_eq!(bool_field_size(1), 2);
    assert_eq!(bool_field_size(15), 2);
    assert_eq!(bool_field_size(16), 3);
    assert_eq!(bool_field_size(2047), 3);
    assert_eq!(bool_field_size(2048), 4);
    assert_eq!(bool_field_size(50001), 4);
    assert_eq!(bool_field_size(FIELD_NUMBER_MAX), 6);
    assert_eq!(uint64_field_size(2, 0), 2);
    assert_eq!(uint64_field_size(2, 127), 2);
    assert_eq!(uint64_field_size(2, 128), 3);
    assert_eq!(uint64_field_size(2, 16383), 3);
    assert_eq!(uint64_field_size(2, 16384), 4);
    assert_eq!(uint64_field_size(2, u64::MAX), 11);
    assert_eq!(uint64_field_size(2, (1 << 63) - 1), 10);
    assert_eq!(int64_field_size(1, 0), 2);
    assert_eq!(int64_field_size(1, 127), 2);
    assert_eq!(int64_field_size(1, 128), 3);
    assert_eq!(int64_field_size(1, -1), 11);
    assert_eq!(int64_field_size(1, i64::MIN), 11);
    assert_eq!(int64_field_size(1, i64::MAX), 10);
}

#[test]
fn delimited_field_sizes_count_tag_length_and_payload() {
    assert_eq!(text_field_size(1, ""), Some(2));
    assert_eq!(text_field_size(1, "abc"), Some(5));
    // bytes, not characters
    assert_eq!(text_field_size(1, "é"), Some(4));
    assert_eq!(text_field_size(100000, "abc"), Some(3 + 1 + 3));
    assert_eq!(bytes_field_size(2, &[]), Some(2));
    assert_eq!(bytes_field_size(2, &[0; 127]), Some(1 + 1 + 127));
    assert_eq!(bytes_field_size(2, &[0; 128]), Some(1 + 2 + 128));
    assert_eq!(nested_size(3, 0), Some(2));
    assert_eq!(nested_size(3, 127), Some(129));
    assert_eq!(nested_size(3, 128), Some(131));
    assert_eq!(nested_size(50000, 1), Some(3 + 1 + 1));
    assert_eq!(nested_size(1, u32::MAX - 6), Some(u32::MAX));
    assert_eq!(nested_size(1, u32::MAX - 5), None);
    assert_eq!(nested_size(1, u32::MAX), None);
    assert_eq!(add_size(1, 2), Some(3));
    assert_eq!(add_size(u32::MAX - 1, 1), Some(u32::MAX));
    assert_eq!(add_size(u32::MAX, 1), None);
    assert_eq!(MAX_PAYLOAD, 0xffff_fff5);
}

#[test]
fn empty_messages_take_no_bytes() {
    assert_eq!(NodeId::new().checked_size(), Some(0));
    assert_eq!(Pid::new().compute_size(), 0);
    assert_eq!(Pids::new().compute_size(), 0);
    assert_eq!(CorrelationId::new().compute_size(), 0);
    assert_eq!(Envelope::new().compute_size(), 0);
    assert_eq!(PbMsg::new().compute_size(), 0);
    assert_eq!(Members::new().compute_size(), 0);
    assert_eq!(Member::new().compute_size(), 0);
    assert_eq!(Metrics::new().compute_size(), 0);
    assert_eq!(Metric::new().compute_size(), 0);
    assert_eq!(ClusterServerMsg::new().compute_size(), 0);
    assert_eq!(MemberORSet::new().compute_size(), 0);
}

#[test]
fn node_id_size() {
    let n = node("node1", "127.0.0.1:11000");
    assert_eq!(n.compute_size(), (2 + 5) + (2 + 15));
    assert_eq!(n.checked_size(), Some(24));
    let mut only_name = NodeId::new();
    only_name.set_name(String::new());
    assert_eq!(only_name.compute_size(), 2);
}

#[test]
fn pid_and_correlation_id_sizes() {
    let p = pid("svc");
    // name, then the node as a nested message of 6 bytes
    assert_eq!(p.compute_size(), (2 + 3) + (2 + 6));
    let mut q = pid("svc");
    q.set_group("g".to_string());
    assert_eq!(q.compute_size(), 13 + 3);
    let mut c = CorrelationId::new();
    c.set_pid(pid("svc"));
    c.set_handle(1);
    c.set_request(300);
    assert_eq!(c.compute_size(), (2 + 13) + 2 + 3);
}

#[test]
fn repeated_fields_add_up() {
    let mut pids = Pids::new();
    pids.set_pids(vec![pid("a"), pid("bc"), Pid::new()]);
    assert_eq!(pids.compute_size(), (2 + 11) + (2 + 12) + 2);
    let mut m = Member::new();
    m.set_node(node("n", "a"));
    m.set_connected(true);
    assert_eq!(m.compute_size(), (2 + 6) + 2);
    let mut members = Members::new();
    members.set_members(vec![m.clone(), m, Member::new()]);
    assert_eq!(members.compute_size(), 12 + 12 + 2);
    let mut gauge = Metric::new();
    gauge.set_gauge(-1);
    let mut counter = Metric::new();
    counter.set_counter(5);
    let mut histogram = Metric::new();
    histogram.set_v2_serialized_histogram(vec![1, 2, 3]);
    assert_eq!(gauge.compute_size(), 11);
    assert_eq!(counter.compute_size(), 2);
    assert_eq!(histogram.compute_size(), 5);
    let mut metrics = Metrics::new();
    metrics.set_metrics(vec![gauge, counter, histogram]);
    assert_eq!(metrics.compute_size(), (2 + 11) + (2 + 2) + (2 + 5));
}

#[test]
fn message_body_sizes() {
    let mut m = PbMsg::new();
    m.set_get_metrics(true);
    assert_eq!(m.compute_size(), 2);
    m.set_start_timer(1000);
    assert_eq!(m.compute_size(), 1 + 2);
    m.set_timeout(true);
    assert_eq!(m.compute_size(), 3 + 4);
    m.set_user_msg(vec![0; 10]);
    assert_eq!(m.compute_size(), 3 + 4 + (3 + 1 + 10));
    let mut m = PbMsg::new();
    m.set_get_processes(node("n", "a"));
    assert_eq!(m.compute_size(), 2 + 6);
    let mut pids = Pids::new();
    pids.set_pids(vec![pid("a")]);
    m.set_processes(pids.clone());
    assert_eq!(m.compute_size(), 8 + (3 + 1 + 13));
    m.set_services(pids);
    assert_eq!(m.compute_size(), 8 + (3 + 1 + 13));
    m.set_metrics(Metrics::new());
    assert_eq!(m.compute_size(), 8 + (3 + 1));
    m.set_members(Members::new());
    assert_eq!(m.compute_size(), 8 + 4);
}

#[test]
fn envelope_and_cluster_message_sizes() {
    let mut e = Envelope::new();
    e.set_to(pid("to"));
    e.set_from(pid("from"));
    let mut body = PbMsg::new();
    body.set_timeout(true);
    e.set_msg(body);
    let mut c = CorrelationId::new();
    c.set_handle(1);
    e.set_cid(c);
    let expected = (2 + 12) + (2 + 14) + (2 + 4) + (2 + 2);
    assert_eq!(e.compute_size(), expected);
    let mut m = ClusterServerMsg::new();
    m.set_envelope(e);
    assert_eq!(m.compute_size(), 2 + expected);
    m.set_Ping(true);
    assert_eq!(m.compute_size(), 2);
    m.set_Delta(vec![7; 200]);
    assert_eq!(m.compute_size(), 1 + 2 + 200);
    let mut o = MemberORSet::new();
    o.set_from(node("n", "a"));
    o.set_orset(vec![1, 2, 3]);
    assert_eq!(o.compute_size(), (2 + 6) + (2 + 3));
    m.set_orset(o);
    assert_eq!(m.compute_size(), 2 + 13);
}
