use rabble::cluster::established::Established;
use rabble::cluster::listing::{items_of, keys_of};
use rabble::cluster::metrics::{bump, bump_by};
use rabble::members::contains_node;
use rabble::cluster::{ClusterMetrics, Conn};
use rabble::{ErrorKind, Metric, NodeId, Pid};
use std::collections::{HashMap, HashSet};

fn node(name: &str) -> NodeId {
    NodeId { name: name.to_string(), addr: "127.0.0.1:11000".to_string() }
}

#[test]
fn established_index_keeps_one_entry_per_node() {
    let mut index = Established::new();
    assert_eq!(index.len(), 0);
    assert_eq!(index.get(&node("a")), None);
    assert_eq!(index.insert(node("a"), 1), None);
    assert_eq!(index.insert(node("b"), 2), None);
    assert_eq!(index.insert(node("a"), 3), Some(1));
    assert_eq!(index.len(), 2);
    assert_eq!(index.get(&node("a")), Some(3));
    assert_eq!(index.get(&node("b")), Some(2));
    assert_eq!(index.keys(), vec![node("a"), node("b")]);
    assert_eq!(index.remove(&node("c")), None);
    assert_eq!(index.remove(&node("a")), Some(3));
    assert_eq!(index.get(&node("a")), None);
    assert_eq!(index.keys(), vec![node("b")]);
    index.clear();
    assert_eq!(index.len(), 0);
    assert!(index.keys().is_empty());
}

#[test]
fn listings_name_each_item_once() {
    let mut m: HashMap<usize, bool> = HashMap::new();
    m.insert(3, true);
    m.insert(5, false);
    m.insert(3, false);
    let keys = keys_of(&m);
    assert_eq!(keys.len(), 2);
    assert_eq!(keys.into_iter().collect::<HashSet<usize>>(), [3, 5].into_iter().collect());
    let s: HashSet<usize> = [1, 2, 9].into_iter().collect();
    let items = items_of(&s);
    assert_eq!(items.len(), 3);
    assert_eq!(items.into_iter().collect::<HashSet<usize>>(), s);
    assert!(keys_of(&HashMap::<usize, u8>::new()).is_empty());
    assert!(contains_node(&vec![node("a"), node("b")], &node("b")));
    assert!(!contains_node(&vec![node("a"), node("b")], &node("c")));
    assert!(!contains_node(&vec![], &node("c")));
}

#[test]
fn counters_stop_at_their_limit() {
    assert_eq!(bump(0), 1);
    assert_eq!(bump(u64::MAX - 1), u64::MAX);
    assert_eq!(bump(u64::MAX), u64::MAX);
    assert_eq!(bump_by(5, 0), 5);
    assert_eq!(bump_by(5, 7), 12);
    assert_eq!(bump_by(u64::MAX - 3, 3), u64::MAX);
    assert_eq!(bump_by(u64::MAX - 3, 4), u64::MAX);
    assert_eq!(bump_by(u64::MAX, 1), u64::MAX);
}

#[test]
fn fresh_metrics_are_zero() {
    let m = ClusterMetrics::new();
    let data = m.data();
    assert_eq!(data.len(), 9);
    for (_, v) in &data {
        assert_eq!(*v, Metric::Counter(0));
    }
    assert_eq!(data[0].0, "errors");
    assert_eq!(data[8].0, "connection_attempts");
    let m = ClusterMetrics { leaves: 4, ..m };
    assert_eq!(m.data()[3], ("leaves".to_string(), Metric::Counter(4)));
}

#[test]
fn fresh_connection_record() {
    let c = Conn::new(Some(node("a")), true);
    assert_eq!(c.node, Some(node("a")));
    assert!(c.is_client);
    assert!(!c.members_sent);
    assert_eq!(c.timer_wheel_index, 0);
    let c = Conn::new(None, false);
    assert!(c.node.is_none() && !c.is_client);
}

fn ids(e: &ErrorKind) -> HashSet<usize> {
    e.get_ids().into_iter().collect()
}

#[test]
fn errors_name_their_connections() {
    let n = Some(node("a"));
    assert!(ids(&ErrorKind::EncodeError(None, n.clone())).is_empty());
    assert_eq!(ids(&ErrorKind::EncodeError(Some(1), None)), [1].into_iter().collect());
    assert_eq!(ids(&ErrorKind::DecodeError(2, n.clone())), [2].into_iter().collect());
    assert!(ids(&ErrorKind::RegistrarError(None, None)).is_empty());
    assert_eq!(ids(&ErrorKind::RegistrarError(Some(3), None)), [3].into_iter().collect());
    assert_eq!(ids(&ErrorKind::ReadError(4, None)), [4].into_iter().collect());
    assert_eq!(ids(&ErrorKind::WriteError(5, n)), [5].into_iter().collect());
    assert!(ids(&ErrorKind::SendError("x".to_string(), None)).is_empty());
    assert!(ids(&ErrorKind::ConnectError(node("a"))).is_empty());
    assert!(ids(&ErrorKind::Msg("Failed to create a IPv4 socket".to_string())).is_empty());
    let pid = Pid { name: "p".to_string(), group: None, node: node("a") };
    assert!(ids(&ErrorKind::Shutdown(pid)).is_empty());
    let nested = ErrorKind::PollNotificationErrors(vec![
        ErrorKind::ReadError(1, None),
        ErrorKind::BroadcastError(vec![
            ErrorKind::WriteError(2, None),
            ErrorKind::WriteError(3, None),
        ]),
        ErrorKind::ConnectError(node("b")),
        ErrorKind::ReadError(1, None),
    ]);
    assert_eq!(ids(&nested), [1, 2, 3].into_iter().collect());
    assert!(ids(&ErrorKind::BroadcastError(vec![])).is_empty());
}

#[test]
fn only_a_lost_executor_and_shutdown_are_fatal() {
    let pid = Pid { name: "p".to_string(), group: None, node: node("a") };
    assert!(ErrorKind::SendError("ExecutorMsg::Envelope".to_string(), Some(pid.clone())).is_fatal());
    assert!(ErrorKind::Shutdown(pid.clone()).is_fatal());
    assert!(!ErrorKind::EncodeError(Some(1), None).is_fatal());
    assert!(!ErrorKind::DecodeError(1, None).is_fatal());
    assert!(!ErrorKind::RegistrarError(None, None).is_fatal());
    assert!(!ErrorKind::ConnectError(node("a")).is_fatal());
    assert!(!ErrorKind::ReadError(1, None).is_fatal());
    assert!(!ErrorKind::WriteError(1, None).is_fatal());
    assert!(!ErrorKind::Msg("x".to_string()).is_fatal());
    assert!(!ErrorKind::PollNotificationErrors(vec![ErrorKind::ReadError(1, None)]).is_fatal());
    assert!(ErrorKind::PollNotificationErrors(vec![
        ErrorKind::ReadError(1, None),
        ErrorKind::BroadcastError(vec![ErrorKind::SendError("x".to_string(), None)]),
    ])
    .is_fatal());
    assert!(!ErrorKind::BroadcastError(vec![]).is_fatal());
}
