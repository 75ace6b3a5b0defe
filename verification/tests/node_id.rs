use rabble::pb_messages;
use rabble::NodeId;

fn node(name: &str, addr: &str) -> NodeId {
    NodeId { name: name.to_string(), addr: addr.to_string() }
}

#[test]
fn node_id_text_joins_name_and_address() {
    let n = node("node1", "127.0.0.1:11000");
    assert_eq!(n.to_string(), "node1@127.0.0.1:11000");
    assert_eq!(node("", "").to_string(), "@");
}

#[test]
fn node_ids_order_by_name_then_address() {
    assert!(node("a", "z") < node("b", "a"));
    assert!(node("a", "1") < node("a", "2"));
    assert!(!(node("a", "1") < node("a", "1")));
    assert!(node("a", "1").sorts_before(&node("a", "2")));
    assert!(!node("b", "1").sorts_before(&node("a", "2")));
    assert!(!node("a", "2").sorts_before(&node("a", "2")));
    assert!(node("a", "") < node("a", "0"));
    assert!(node("", "z") < node("a", ""));
    assert!(node("ab", "") > node("a", "zzz"));
}

#[test]
fn node_id_order_agrees_with_the_derived_one() {
    let nodes = [node("a", "1"), node("a", "2"), node("b", "0"), node("", "9"), node("é", "1")];
    for x in nodes.iter() {
        for y in nodes.iter() {
            assert_eq!(x.sorts_before(y), x.cmp(y) == std::cmp::Ordering::Less);
            assert_eq!(x == y, x.cmp(y) == std::cmp::Ordering::Equal);
            assert_eq!(x.partial_cmp(y), Some(x.cmp(y)));
        }
    }
}

#[test]
fn node_id_order_is_total_and_asymmetric() {
    let a = node("node1", "127.0.0.1:11000");
    let b = node("node2", "127.0.0.1:11001");
    assert!(a.sorts_before(&b) ^ b.sorts_before(&a));
}

#[test]
fn node_id_from_str_reads_name_and_address() {
    let n = NodeId::from_str("node1@127.0.0.1:11000").unwrap();
    assert_eq!(n, node("node1", "127.0.0.1:11000"));
    assert_eq!(NodeId::from_str("@").unwrap(), node("", ""));
    assert_eq!(NodeId::from_str("a@").unwrap(), node("a", ""));
    assert_eq!(NodeId::from_str("@b").unwrap(), node("", "b"));
    assert_eq!(NodeId::from_str("é@ü").unwrap(), node("é", "ü"));
}

#[test]
fn node_id_from_str_rejects_other_forms() {
    let msg = "Invalid Pid format - Must be of form 'name@addr'".to_string();
    assert_eq!(NodeId::from_str("node1"), Err(msg.clone()));
    assert_eq!(NodeId::from_str(""), Err(msg.clone()));
    assert_eq!(NodeId::from_str("a@b@c"), Err(msg.clone()));
    assert_eq!(NodeId::from_str("@@"), Err(msg));
}

#[test]
fn node_id_text_reads_back() {
    let n = node("node1", "127.0.0.1:11000");
    assert_eq!(NodeId::from_str(&n.to_string()), Ok(n));
}

#[test]
fn node_id_clone_is_equal() {
    let n = node("node1", "127.0.0.1:11000");
    assert_eq!(n.clone(), n);
}

#[test]
fn node_id_from_wire_form_reads_unset_as_empty() {
    let mut pb = pb_messages::NodeId::new();
    assert_eq!(NodeId::from(pb_messages::NodeId::new()), node("", ""));
    pb.set_name("node1".to_string());
    let n = NodeId::from(pb);
    assert_eq!(n, node("node1", ""));
}

#[test]
fn node_id_wire_form_round_trip() {
    let n = node("node1", "127.0.0.1:11000");
    let pb = pb_messages::NodeId::from(n.clone());
    assert!(pb.has_name());
    assert!(pb.has_addr());
    assert_eq!(pb.get_name(), "node1");
    assert_eq!(pb.get_addr(), "127.0.0.1:11000");
    assert_eq!(NodeId::from(pb), n);
}
