use rabble::cluster::{Action, ClusterServer, Event, ExternalMsg, Notification};
use rabble::{
    ClusterMsg, CorrelationId, Envelope, ErrorKind, ExecutorMsg, Metric, Msg, NodeId, Pid, Req,
    Rpy,
};
use std::collections::HashSet;

type Act = Action<u64>;

fn node(name: &str) -> NodeId {
    NodeId { name: name.to_string(), addr: format!("127.0.0.1:{}", 11000 + name.len()) }
}

fn pid(name: &str, n: &NodeId) -> Pid {
    Pid { name: name.to_string(), group: None, node: n.clone() }
}

fn set(nodes: &[NodeId]) -> HashSet<NodeId> {
    nodes.iter().cloned().collect()
}

fn members_of(actions: &[Act]) -> (Vec<usize>, NodeId, HashSet<NodeId>) {
    assert_eq!(actions.len(), 1);
    match &actions[0] {
        Action::Send { to, msg: ExternalMsg::Members { from, orset } } => {
            let members = orset
                .elements()
                .into_iter()
                .map(|(name, addr)| NodeId { name, addr })
                .collect();
            (to.clone(), from.clone(), members)
        }
        _ => panic!("expected the member set to be sent"),
    }
}

fn snapshot_of(server: &ClusterServer) -> ExternalMsg<u64> {
    server.members_msg()
}

fn status(server: &ClusterServer) -> rabble::ClusterStatus {
    let me = server.pid().clone();
    let actions: Vec<Act> = server.get_status(CorrelationId::pid(me));
    match actions.into_iter().next() {
        Some(Action::Executor(ExecutorMsg::Envelope(e))) => match e.msg {
            Msg::Rpy(Rpy::ClusterStatus(s)) => s,
            _ => panic!("expected a status"),
        },
        _ => panic!("expected a reply for the executor"),
    }
}

fn closed(action: &Act) -> HashSet<usize> {
    match action {
        Action::Close(ids) => {
            let s: HashSet<usize> = ids.iter().cloned().collect();
            assert_eq!(s.len(), ids.len());
            s
        }
        _ => panic!("expected a close"),
    }
}

fn connected(action: &Act) -> HashSet<NodeId> {
    match action {
        Action::Connect(nodes) => {
            let s: HashSet<NodeId> = nodes.iter().cloned().collect();
            assert_eq!(s.len(), nodes.len());
            s
        }
        _ => panic!("expected a connect"),
    }
}

fn ids(list: &[usize]) -> HashSet<usize> {
    list.iter().cloned().collect()
}

/// Establishes the connection `id` of `server` with the peer `peer`, whose
/// member set is that of a fresh server of `peer` plus `extra`.
fn establish(server: &mut ClusterServer, id: usize, peer: &NodeId, extra: &[NodeId]) -> Vec<Act> {
    let mut other = ClusterServer::new(peer.clone());
    for n in extra {
        let _: Vec<Act> = other.join(n.clone());
    }
    server.handle_decoded_message(id, snapshot_of(&other))
}

#[test]
fn new_server_knows_only_itself() {
    let a = node("a");
    let server = ClusterServer::new(a.clone());
    let s = status(&server);
    assert_eq!(s.members, vec![a.clone()]);
    assert!(s.established.is_empty());
    assert_eq!(s.num_connections, 0);
    assert_eq!(
        server.pid(),
        &Pid { name: "cluster_server".to_string(), group: Some("rabble".to_string()), node: a }
    );
    assert_eq!(rabble::cluster::server::MAX_FRAME_SIZE, 100 * 1024 * 1024);
    assert_eq!(rabble::cluster::server::REQUEST_TIMEOUT / rabble::cluster::server::TICK_TIME, 5);
    assert_eq!(rabble::cluster::server::EXECUTOR_TICK_TIME, 100);
}

#[test]
fn accepted_connection_gets_the_member_set_at_once() {
    let a = node("a");
    let mut server = ClusterServer::new(a.clone());
    let actions: Vec<Act> = server.accept_connection(4);
    let (to, from, members) = members_of(&actions);
    assert_eq!(to, vec![4]);
    assert_eq!(from, a);
    assert_eq!(members, set(&[a]));
    assert_eq!(server.members_sent(4), Some(true));
    assert_eq!(status(&server).num_connections, 1);
    assert!(status(&server).established.is_empty());
}

#[test]
fn outgoing_connection_sends_the_member_set_when_first_ready() {
    let a = node("a");
    let b = node("bb");
    let mut server = ClusterServer::new(a.clone());
    server.init_connection(9, Some(b));
    assert_eq!(server.members_sent(9), Some(false));
    let actions: Vec<Act> = server.read(9);
    let (to, from, _) = members_of(&actions);
    assert_eq!(to, vec![9]);
    assert_eq!(from, a);
    assert_eq!(server.members_sent(9), Some(true));
    let actions: Vec<Act> = server.read(9);
    assert!(matches!(actions.as_slice(), [Action::Read(9)]));
}

#[test]
fn readiness_of_an_unknown_socket_does_nothing() {
    let mut server = ClusterServer::new(node("a"));
    assert_eq!(server.members_sent(3), None);
    let actions: Vec<Act> = server.read(3);
    assert!(actions.is_empty());
    let actions: Vec<Act> = server.write(3);
    assert!(actions.is_empty());
    let actions: Vec<Act> =
        server.do_socket_io(Notification { id: 3, event: Event::Both });
    assert!(actions.is_empty());
}

#[test]
fn socket_io_reads_then_writes() {
    let mut server = ClusterServer::new(node("a"));
    let _: Vec<Act> = server.accept_connection(5);
    let actions: Vec<Act> = server.do_socket_io(Notification { id: 5, event: Event::Read });
    assert!(matches!(actions.as_slice(), [Action::Read(5)]));
    let actions: Vec<Act> = server.do_socket_io(Notification { id: 5, event: Event::Write });
    assert!(matches!(actions.as_slice(), [Action::Flush(5)]));
    let actions: Vec<Act> = server.do_socket_io(Notification { id: 5, event: Event::Both });
    assert!(matches!(actions.as_slice(), [Action::Read(5), Action::Flush(5)]));
    server.init_connection(6, Some(node("bb")));
    let actions: Vec<Act> = server.do_socket_io(Notification { id: 6, event: Event::Both });
    assert_eq!(actions.len(), 2);
    assert!(matches!(actions[0], Action::Send { .. }));
    assert!(matches!(actions[1], Action::Flush(6)));
}

#[test]
fn poll_notifications_go_by_registration() {
    let mut server = ClusterServer::new(node("a"));
    server.set_registrations(1, 2, 3);
    let actions: Vec<Act> =
        server.handle_poll_notification(Notification { id: 1, event: Event::Read });
    assert!(matches!(actions.as_slice(), [Action::Accept]));
    let actions: Vec<Act> =
        server.handle_poll_notification(Notification { id: 3, event: Event::Read });
    assert!(matches!(
        actions.as_slice(),
        [Action::Arm(3), Action::Executor(ExecutorMsg::Tick)]
    ));
    let actions: Vec<Act> =
        server.handle_poll_notification(Notification { id: 2, event: Event::Read });
    assert_eq!(actions.len(), 5);
    assert!(matches!(actions[0], Action::Arm(2)));
    assert!(closed(&actions[1]).is_empty());
    assert!(matches!(&actions[2], Action::Send { to, msg: ExternalMsg::Ping } if to.is_empty()));
    assert!(connected(&actions[3]).is_empty());
    assert!(closed(&actions[4]).is_empty());
    let _: Vec<Act> = server.accept_connection(8);
    let actions: Vec<Act> =
        server.handle_poll_notification(Notification { id: 8, event: Event::Write });
    assert!(matches!(actions.as_slice(), [Action::Flush(8)]));
}

#[test]
fn listener_wins_over_timers_with_the_same_registration() {
    let mut server = ClusterServer::new(node("a"));
    let actions: Vec<Act> =
        server.handle_poll_notification(Notification { id: 0, event: Event::Read });
    assert!(matches!(actions.as_slice(), [Action::Accept]));
    server.set_registrations(1, 0, 0);
    let actions: Vec<Act> =
        server.handle_poll_notification(Notification { id: 0, event: Event::Read });
    assert!(matches!(actions[0], Action::Arm(0)));
    assert_eq!(actions.len(), 5);
}

#[test]
fn handshake_establishes_the_connection_and_merges_members() {
    let a = node("a");
    let b = node("bb");
    let c = node("ccc");
    let mut server = ClusterServer::new(a.clone());
    let _: Vec<Act> = server.accept_connection(4);
    let _: Vec<Act> = server.join(b.clone());
    let actions = establish(&mut server, 4, &b, &[c.clone()]);
    let s = status(&server);
    assert_eq!(set(&s.members), set(&[a, b.clone(), c.clone()]));
    assert_eq!(s.established, vec![b]);
    assert_eq!(s.num_connections, 1);
    // reconciliation follows: c has no connection yet
    assert_eq!(actions.len(), 2);
    assert_eq!(connected(&actions[0]), set(&[c]));
    assert!(closed(&actions[1]).is_empty());
}

#[test]
fn handshake_on_an_unknown_connection_only_merges() {
    let a = node("a");
    let b = node("bb");
    let mut server = ClusterServer::new(a.clone());
    let actions = establish(&mut server, 4, &b, &[]);
    let s = status(&server);
    assert_eq!(set(&s.members), set(&[a, b.clone()]));
    assert!(s.established.is_empty());
    assert_eq!(actions.len(), 2);
    assert_eq!(connected(&actions[0]), set(&[b]));
}

/// Both links of a simultaneous double connect on the side of `local`: the
/// connection 1 was opened by `local`, the connection 2 by `peer`. The links
/// identify themselves in the order given; returns what is closed.
fn double_connect(local: &NodeId, peer: &NodeId, first: usize, second: usize) -> HashSet<usize> {
    let mut server = ClusterServer::new(local.clone());
    let _: Vec<Act> = server.join(peer.clone());
    server.init_connection(1, Some(peer.clone()));
    let _: Vec<Act> = server.accept_connection(2);
    let actions = establish(&mut server, first, peer, &[local.clone()]);
    assert_eq!(actions.len(), 2);
    assert_eq!(status(&server).established, vec![peer.clone()]);
    let actions = establish(&mut server, second, peer, &[local.clone()]);
    assert_eq!(actions.len(), 3);
    let gone = closed(&actions[0]);
    let s = status(&server);
    assert_eq!(s.num_connections, 1);
    assert_eq!(s.established, vec![peer.clone()]);
    for id in [1usize, 2] {
        assert_eq!(server.members_sent(id).is_some(), !gone.contains(&id));
    }
    gone
}

#[test]
fn duplicate_link_resolution_is_symmetric() {
    let a = node("a");
    let b = node("bb");
    assert!(a < b);
    // On a, link 1 is the one a opened; on b, link 2 is the one a opened.
    assert_eq!(double_connect(&a, &b, 1, 2), ids(&[1]));
    assert_eq!(double_connect(&a, &b, 2, 1), ids(&[1]));
    assert_eq!(double_connect(&b, &a, 1, 2), ids(&[2]));
    assert_eq!(double_connect(&b, &a, 2, 1), ids(&[2]));
}

#[test]
fn choose_connection_to_close_follows_the_rule() {
    let a = node("a");
    let b = node("bb");
    let mut server = ClusterServer::new(a.clone());
    assert_eq!(server.choose_connection_to_close(7, &b), None);
    server.init_connection(1, Some(b.clone()));
    assert_eq!(server.choose_connection_to_close(7, &b), None);
    let _ = establish(&mut server, 1, &b, &[]);
    // the saved link was opened by a, the lesser node: it goes
    assert_eq!(server.choose_connection_to_close(7, &b), Some(1));
    let mut server = ClusterServer::new(b.clone());
    server.init_connection(1, Some(a.clone()));
    let _ = establish(&mut server, 1, &a, &[]);
    // the saved link was opened by b, the greater node: the new one goes
    assert_eq!(server.choose_connection_to_close(7, &a), Some(7));
}

#[test]
fn second_handshake_on_the_same_connection_closes_it() {
    let a = node("a");
    let b = node("bb");
    let mut server = ClusterServer::new(a.clone());
    let _: Vec<Act> = server.accept_connection(2);
    let _ = establish(&mut server, 2, &b, &[a.clone()]);
    let actions = establish(&mut server, 2, &b, &[a.clone()]);
    assert_eq!(closed(&actions[0]), ids(&[2]));
    let s = status(&server);
    assert_eq!(s.num_connections, 0);
    assert!(s.established.is_empty());
}

#[test]
fn connection_that_changes_its_identity_is_indexed_once() {
    let a = node("a");
    let b = node("bb");
    let c = node("ccc");
    let mut server = ClusterServer::new(a.clone());
    let _: Vec<Act> = server.accept_connection(2);
    let _ = establish(&mut server, 2, &b, &[a.clone(), c.clone()]);
    let _ = establish(&mut server, 2, &c, &[a.clone(), b.clone()]);
    let s = status(&server);
    assert_eq!(s.established, vec![c]);
    assert_eq!(s.num_connections, 1);
}

#[test]
fn reconciliation_connects_to_missing_members() {
    let a = node("a");
    let b = node("bb");
    let c = node("ccc");
    let mut server = ClusterServer::new(a.clone());
    let _: Vec<Act> = server.join(b.clone());
    let _: Vec<Act> = server.join(c.clone());
    // the connection set {a}: one connection, whose peer is a itself
    server.init_connection(1, Some(a.clone()));
    let actions: Vec<Act> = server.check_connections();
    assert_eq!(actions.len(), 2);
    assert_eq!(connected(&actions[0]), set(&[b, c]));
    assert!(closed(&actions[1]).is_empty());
    assert_eq!(status(&server).num_connections, 1);
}

#[test]
fn reconciliation_disconnects_from_strangers() {
    let a = node("a");
    let b = node("bb");
    let c = node("ccc");
    let d = node("dddd");
    let mut server = ClusterServer::new(a.clone());
    let _: Vec<Act> = server.join(b.clone());
    let _: Vec<Act> = server.join(c.clone());
    let _: Vec<Act> = server.join(d.clone());
    let everyone = [a.clone(), b.clone(), c.clone(), d.clone()];
    for (i, n) in everyone.iter().enumerate() {
        server.init_connection(i + 1, Some(n.clone()));
        let mut others: Vec<NodeId> = everyone.to_vec();
        others.retain(|x| x != n);
        let _ = establish(&mut server, i + 1, n, &others);
    }
    assert_eq!(status(&server).num_connections, 4);
    let _: Vec<Act> = server.leave(d.clone());
    let actions: Vec<Act> = server.check_connections();
    assert_eq!(actions.len(), 2);
    assert!(connected(&actions[0]).is_empty());
    assert_eq!(closed(&actions[1]), ids(&[4]));
    let s = status(&server);
    assert_eq!(s.num_connections, 3);
    assert_eq!(set(&s.established), set(&[a, b, c]));
    // a second pass finds nothing to do
    let actions: Vec<Act> = server.check_connections();
    assert!(connected(&actions[0]).is_empty());
    assert!(closed(&actions[1]).is_empty());
}

#[test]
fn reconciliation_closes_pending_connections_to_strangers() {
    let a = node("a");
    let d = node("dddd");
    let mut server = ClusterServer::new(a.clone());
    let _: Vec<Act> = server.join(d.clone());
    server.init_connection(1, Some(d.clone()));
    let _: Vec<Act> = server.accept_connection(2);
    let actions: Vec<Act> = server.check_connections();
    assert!(connected(&actions[0]).is_empty());
    assert!(closed(&actions[1]).is_empty());
    let _: Vec<Act> = server.leave(d);
    let actions: Vec<Act> = server.check_connections();
    assert!(connected(&actions[0]).is_empty());
    assert_eq!(closed(&actions[1]), ids(&[1]));
    assert_eq!(status(&server).num_connections, 1);
    assert_eq!(server.members_sent(1), None);
    assert_eq!(server.members_sent(2), Some(true));
}

#[test]
fn tick_disconnects_every_connection_to_a_stranger() {
    let a = node("a");
    let b = node("bb");
    let c = node("ccc");
    let d = node("dddd");
    let mut server = ClusterServer::new(a.clone());
    for n in [&b, &c, &d] {
        let _: Vec<Act> = server.join(n.clone());
    }
    server.init_connection(1, Some(b.clone()));
    let _ = establish(&mut server, 1, &b, &[a.clone(), c.clone(), d.clone()]);
    server.init_connection(2, Some(c.clone()));
    server.init_connection(3, Some(d.clone()));
    let _ = establish(&mut server, 3, &d, &[a.clone(), b.clone(), c.clone()]);
    server.init_connection(4, Some(d.clone()));
    let _: Vec<Act> = server.leave(d.clone());
    let actions: Vec<Act> = server.tick();
    assert_eq!(actions.len(), 5);
    assert!(closed(&actions[1]).is_empty());
    assert!(connected(&actions[3]).is_empty());
    assert_eq!(closed(&actions[4]), ids(&[3, 4]));
    let s = status(&server);
    assert_eq!(s.num_connections, 2);
    assert_eq!(s.established, vec![b.clone()]);
    assert_eq!(set(&server.known_peers()), set(&[b, c]));
}

#[test]
fn reconciliation_does_not_connect_twice() {
    let a = node("a");
    let b = node("bb");
    let mut server = ClusterServer::new(a.clone());
    let actions: Vec<Act> = server.join(b.clone());
    assert_eq!(actions.len(), 2);
    assert_eq!(connected(&actions[1]), set(&[b.clone()]));
    server.init_connection(1, Some(b.clone()));
    let actions: Vec<Act> = server.check_connections();
    assert!(connected(&actions[0]).is_empty());
}

#[test]
fn self_eviction_closes_every_connection() {
    let a = node("a");
    let b = node("bb");
    let c = node("ccc");
    let mut server = ClusterServer::new(a.clone());
    let _: Vec<Act> = server.join(b.clone());
    let _: Vec<Act> = server.join(c.clone());
    server.init_connection(1, Some(b.clone()));
    let _ = establish(&mut server, 1, &b, &[a.clone(), c.clone()]);
    let _: Vec<Act> = server.accept_connection(2);
    server.init_connection(3, Some(c.clone()));
    let _: Vec<Act> = server.leave(a.clone());
    let actions: Vec<Act> = server.check_connections();
    assert_eq!(actions.len(), 1);
    assert_eq!(closed(&actions[0]), ids(&[1, 2, 3]));
    let s = status(&server);
    assert_eq!(s.num_connections, 0);
    assert!(s.established.is_empty());
    assert_eq!(set(&s.members), set(&[b, c]));
    // nothing is left in the timing wheel either
    for _ in 0..10 {
        let actions: Vec<Act> = server.tick();
        assert!(closed(&actions[1]).is_empty());
    }
}

#[test]
fn self_eviction_by_a_peer_takes_effect_at_the_next_pass() {
    let a = node("a");
    let b = node("bb");
    let mut server = ClusterServer::new(a.clone());
    let mut peer = ClusterServer::new(b.clone());
    let _: Vec<Act> = server.accept_connection(1);
    let first = snapshot_of(&server);
    let _: Vec<Act> = peer.handle_decoded_message(1, first);
    let removal: Vec<Act> = peer.leave(a.clone());
    let delta = match removal.into_iter().next() {
        Some(Action::Send { msg, .. }) => msg,
        _ => panic!("the removal is gossiped"),
    };
    let _: Vec<Act> = server.handle_decoded_message(1, snapshot_of(&peer));
    assert_eq!(status(&server).num_connections, 0);
    let _: Vec<Act> = server.accept_connection(2);
    let _: Vec<Act> = server.handle_decoded_message(2, delta);
    let actions: Vec<Act> = server.tick();
    assert_eq!(closed(&actions[3]), ids(&[2]));
}

#[test]
fn silent_connection_is_closed_after_the_request_timeout() {
    let a = node("a");
    let mut server = ClusterServer::new(a.clone());
    server.set_registrations(100, 101, 102);
    let _: Vec<Act> = server.accept_connection(1);
    for _ in 0..4 {
        let actions: Vec<Act> = server.tick();
        assert!(matches!(actions[0], Action::Arm(101)));
        assert!(closed(&actions[1]).is_empty());
        assert!(matches!(&actions[2], Action::Send { to, msg: ExternalMsg::Ping } if to == &vec![1]));
    }
    let actions: Vec<Act> = server.tick();
    assert_eq!(closed(&actions[1]), ids(&[1]));
    assert!(matches!(&actions[2], Action::Send { to, msg: ExternalMsg::Ping } if to.is_empty()));
    assert_eq!(server.members_sent(1), None);
    let actions: Vec<Act> = server.tick();
    assert!(closed(&actions[1]).is_empty());
}

#[test]
fn ping_keeps_a_connection_alive() {
    let mut server = ClusterServer::new(node("a"));
    let _: Vec<Act> = server.accept_connection(1);
    let _: Vec<Act> = server.accept_connection(2);
    for round in 0..12 {
        let actions: Vec<Act> = server.handle_decoded_message(1, ExternalMsg::Ping);
        assert!(actions.is_empty());
        let actions: Vec<Act> = server.tick();
        if round == 4 {
            assert_eq!(closed(&actions[1]), ids(&[2]));
        } else {
            assert!(closed(&actions[1]).is_empty());
        }
    }
    assert_eq!(server.members_sent(1), Some(true));
    server.reset_timer(77);
    assert_eq!(server.members_sent(77), None);
}

#[test]
fn deregister_closes_the_listed_connections() {
    let mut server = ClusterServer::new(node("a"));
    let _: Vec<Act> = server.accept_connection(1);
    let _: Vec<Act> = server.accept_connection(2);
    let action: Act = server.deregister(ids(&[2, 9]));
    assert_eq!(closed(&action), ids(&[2]));
    assert_eq!(status(&server).num_connections, 1);
    let actions: Vec<Act> = server.close(1);
    assert!(matches!(actions.as_slice(), [Action::Close(l)] if l == &vec![1]));
    let actions: Vec<Act> = server.close(1);
    assert!(actions.is_empty());
    assert_eq!(status(&server).num_connections, 0);
}

#[test]
fn closing_an_established_connection_clears_the_index() {
    let a = node("a");
    let b = node("bb");
    let mut server = ClusterServer::new(a.clone());
    let _: Vec<Act> = server.accept_connection(1);
    let _ = establish(&mut server, 1, &b, &[a.clone()]);
    assert_eq!(status(&server).established, vec![b.clone()]);
    let _: Vec<Act> = server.close(1);
    assert!(status(&server).established.is_empty());
    let e = Envelope {
        to: pid("x", &b),
        from: pid("y", &a),
        msg: Msg::User(1u64),
        correlation_id: None,
    };
    let actions: Vec<Act> = server.send_remote(e);
    assert!(actions.is_empty());
}

#[test]
fn replacing_a_connection_record_keeps_one_place_in_the_wheel() {
    let a = node("a");
    let b = node("bb");
    let mut server = ClusterServer::new(a.clone());
    let _: Vec<Act> = server.accept_connection(1);
    let _ = establish(&mut server, 1, &b, &[a.clone()]);
    let _: Vec<Act> = server.tick();
    server.init_connection(1, None);
    let s = status(&server);
    assert_eq!(s.num_connections, 1);
    assert!(s.established.is_empty());
    assert_eq!(server.members_sent(1), Some(false));
    let mut closes = 0;
    for _ in 0..10 {
        let actions: Vec<Act> = server.tick();
        closes += closed(&actions[1]).len();
    }
    assert_eq!(closes, 1);
}

#[test]
fn broadcast_reaches_connections_with_members_sent() {
    let a = node("a");
    let mut server = ClusterServer::new(a.clone());
    let _: Vec<Act> = server.accept_connection(1);
    let _: Vec<Act> = server.accept_connection(2);
    server.init_connection(3, Some(node("bb")));
    assert_eq!(ids(&server.broadcast_targets()), ids(&[1, 2]));
    let action: Act = server.broadcast_pings();
    match action {
        Action::Send { to, msg: ExternalMsg::Ping } => assert_eq!(ids(&to), ids(&[1, 2])),
        _ => panic!("expected a ping"),
    }
    let actions: Vec<Act> = server.join(node("ccc"));
    match &actions[0] {
        Action::Send { to, msg: ExternalMsg::Delta(_) } => assert_eq!(ids(to), ids(&[1, 2])),
        _ => panic!("expected a delta"),
    }
    let actions: Vec<Act> = server.send_members(3);
    assert_eq!(members_of(&actions).0, vec![3]);
    assert_eq!(ids(&server.broadcast_targets()), ids(&[1, 2, 3]));
    let actions: Vec<Act> = server.send_members(4);
    assert!(actions.is_empty());
}

#[test]
fn join_and_leave_gossip_their_deltas() {
    let a = node("a");
    let b = node("bb");
    let mut server = ClusterServer::new(a.clone());
    let mut peer = ClusterServer::new(node("ccc"));
    let actions: Vec<Act> = server.join(b.clone());
    assert_eq!(actions.len(), 2);
    assert_eq!(connected(&actions[1]), set(&[b.clone()]));
    let delta = match actions.into_iter().next() {
        Some(Action::Send { msg, .. }) => msg,
        _ => panic!("expected a delta"),
    };
    let _: Vec<Act> = peer.accept_connection(1);
    let gossip: Vec<Act> = peer.handle_decoded_message(1, delta);
    assert!(matches!(
        gossip.as_slice(),
        [Action::Send { to, msg: ExternalMsg::Delta(_) }] if to == &vec![1]
    ));
    assert_eq!(set(&status(&peer).members), set(&[node("ccc"), b.clone()]));
    let actions: Vec<Act> = server.leave(b.clone());
    assert_eq!(actions.len(), 1);
    let removal = match actions.into_iter().next() {
        Some(Action::Send { msg, .. }) => msg,
        _ => panic!("expected a delta"),
    };
    let gossip: Vec<Act> = peer.handle_decoded_message(1, removal);
    assert_eq!(gossip.len(), 1);
    assert_eq!(set(&status(&peer).members), set(&[node("ccc")]));
    let actions: Vec<Act> = server.leave(b);
    assert!(actions.is_empty());
}

#[test]
fn known_delta_is_not_gossiped_again() {
    let mut server = ClusterServer::new(node("a"));
    let mut peer = ClusterServer::new(node("ccc"));
    let _: Vec<Act> = peer.accept_connection(1);
    let actions: Vec<Act> = server.join(node("bb"));
    let delta = match &actions[0] {
        Action::Send { msg: ExternalMsg::Delta(d), .. } => d.clone(),
        _ => panic!("expected a delta"),
    };
    let first: Vec<Act> = peer.handle_decoded_message(1, ExternalMsg::Delta(delta.clone()));
    assert_eq!(first.len(), 1);
    let second: Vec<Act> = peer.handle_decoded_message(1, ExternalMsg::Delta(delta));
    assert!(second.is_empty());
}

#[test]
fn remote_envelope_goes_to_the_executor_unchanged() {
    let a = node("a");
    let b = node("bb");
    let mut server = ClusterServer::new(a.clone());
    let e = Envelope {
        to: pid("x", &a),
        from: pid("y", &b),
        msg: Msg::User(42u64),
        correlation_id: Some(CorrelationId::request(pid("y", &b), 1, 2)),
    };
    let actions: Vec<Act> = server.handle_decoded_message(1, ExternalMsg::Envelope(e.clone()));
    match actions.as_slice() {
        [Action::Executor(ExecutorMsg::Envelope(got))] => assert_eq!(got, &e),
        _ => panic!("expected the envelope for the executor"),
    }
}

#[test]
fn local_envelope_is_relayed_or_dropped() {
    let a = node("a");
    let b = node("bb");
    let mut server = ClusterServer::new(a.clone());
    let e = Envelope {
        to: pid("x", &b),
        from: pid("y", &a),
        msg: Msg::User(7u64),
        correlation_id: None,
    };
    let r = server.handle_cluster_msg(ClusterMsg::Envelope(e.clone())).unwrap();
    assert!(r.is_empty());
    let _: Vec<Act> = server.accept_connection(3);
    let _ = establish(&mut server, 3, &b, &[a.clone()]);
    let r = server.handle_cluster_msg(ClusterMsg::Envelope(e.clone())).unwrap();
    match r.as_slice() {
        [Action::Send { to, msg: ExternalMsg::Envelope(got) }] => {
            assert_eq!(to, &vec![3]);
            assert_eq!(got, &e);
        }
        _ => panic!("expected the envelope on the connection"),
    }
}

fn counter(data: &[(String, Metric)], name: &str) -> u64 {
    for (n, m) in data {
        if n == name {
            match m {
                Metric::Counter(c) => return *c,
                _ => panic!("expected a counter"),
            }
        }
    }
    panic!("no such metric")
}

#[test]
fn metrics_request_is_answered_through_the_executor() {
    let a = node("a");
    let b = node("bb");
    let mut server = ClusterServer::new(a.clone());
    let _ = server.handle_cluster_msg::<u64>(ClusterMsg::Join(b.clone())).unwrap();
    let _ = server.handle_cluster_msg::<u64>(ClusterMsg::Leave(b.clone())).unwrap();
    let _ = server
        .handle_cluster_msg::<u64>(ClusterMsg::GetStatus(CorrelationId::pid(pid("s", &a))))
        .unwrap();
    let _ = server.handle_cluster_msg::<u64>(ClusterMsg::PollNotifications(vec![])).unwrap();
    let _: Vec<Act> = server.accept_connection(1);
    let _ = server.handle_error::<u64>(&ErrorKind::ConnectError(b.clone()));
    let cid = CorrelationId::pid(pid("asker", &a));
    let request = Envelope {
        to: server.pid().clone(),
        from: pid("asker", &a),
        msg: Msg::<u64>::Req(Req::GetMetrics),
        correlation_id: Some(cid.clone()),
    };
    let actions = server.handle_cluster_msg(ClusterMsg::Envelope(request)).unwrap();
    match actions.as_slice() {
        [Action::Executor(ExecutorMsg::Envelope(reply))] => {
            assert_eq!(reply.to, pid("asker", &a));
            assert_eq!(&reply.from, server.pid());
            assert_eq!(reply.correlation_id, Some(cid));
            match &reply.msg {
                Msg::Rpy(Rpy::Metrics(data)) => {
                    let names: Vec<&str> = data.iter().map(|(n, _)| n.as_str()).collect();
                    assert_eq!(
                        names,
                        vec![
                            "errors",
                            "poll_notifications",
                            "joins",
                            "leaves",
                            "received_local_envelopes",
                            "received_remote_envelopes",
                            "status_requests",
                            "accepted_connections",
                            "connection_attempts"
                        ]
                    );
                    assert_eq!(counter(data, "errors"), 1);
                    assert_eq!(counter(data, "poll_notifications"), 1);
                    assert_eq!(counter(data, "joins"), 1);
                    assert_eq!(counter(data, "leaves"), 1);
                    assert_eq!(counter(data, "received_local_envelopes"), 1);
                    assert_eq!(counter(data, "received_remote_envelopes"), 0);
                    assert_eq!(counter(data, "status_requests"), 1);
                    assert_eq!(counter(data, "accepted_connections"), 1);
                    assert_eq!(counter(data, "connection_attempts"), 1);
                }
                _ => panic!("expected metrics"),
            }
        }
        _ => panic!("expected a reply for the executor"),
    }
}

#[test]
fn other_envelopes_to_the_server_are_ignored() {
    let a = node("a");
    let mut server = ClusterServer::new(a.clone());
    let e = Envelope {
        to: server.pid().clone(),
        from: pid("asker", &a),
        msg: Msg::<u64>::Req(Req::Shutdown),
        correlation_id: None,
    };
    let actions = server.handle_cluster_msg(ClusterMsg::Envelope(e)).unwrap();
    assert!(actions.is_empty());
}

#[test]
fn status_goes_to_the_issuer() {
    let a = node("a");
    let b = node("bb");
    let mut server = ClusterServer::new(a.clone());
    let _: Vec<Act> = server.accept_connection(1);
    let _ = establish(&mut server, 1, &b, &[a.clone()]);
    let cid = CorrelationId::handle(pid("asker", &b), 5);
    let actions = server.handle_cluster_msg::<u64>(ClusterMsg::GetStatus(cid.clone())).unwrap();
    match actions.as_slice() {
        [Action::Executor(ExecutorMsg::Envelope(reply))] => {
            assert_eq!(reply.to, pid("asker", &b));
            assert_eq!(&reply.from, server.pid());
            assert_eq!(reply.correlation_id, Some(cid));
            match &reply.msg {
                Msg::Rpy(Rpy::ClusterStatus(s)) => {
                    assert_eq!(set(&s.members), set(&[a, b.clone()]));
                    assert_eq!(s.established, vec![b]);
                    assert_eq!(s.num_connections, 1);
                }
                _ => panic!("expected a status"),
            }
        }
        _ => panic!("expected a reply for the executor"),
    }
    let nobody = CorrelationId { pid: None, handle: None, request: None };
    let actions = server.handle_cluster_msg::<u64>(ClusterMsg::GetStatus(nobody)).unwrap();
    assert!(actions.is_empty());
}

#[test]
fn poll_notifications_are_handed_back_for_handling() {
    let mut server = ClusterServer::new(node("a"));
    let batch = vec![
        Notification { id: 1, event: Event::Read },
        Notification { id: 2, event: Event::Both },
    ];
    let actions =
        server.handle_cluster_msg::<u64>(ClusterMsg::PollNotifications(batch.clone())).unwrap();
    match actions.as_slice() {
        [Action::Poll(list)] => assert_eq!(list, &batch),
        _ => panic!("expected the notifications"),
    }
}

#[test]
fn shutdown_ends_the_server() {
    let a = node("a");
    let mut server = ClusterServer::new(a.clone());
    let r = server.handle_cluster_msg::<u64>(ClusterMsg::Shutdown);
    match r {
        Err(ErrorKind::Shutdown(p)) => {
            assert_eq!(&p, server.pid());
            assert!(ErrorKind::Shutdown(p).is_fatal());
        }
        _ => panic!("expected the shutdown error"),
    }
    assert_eq!(status(&server).members, vec![a]);
}

#[test]
fn errors_close_their_connections() {
    let a = node("a");
    let mut server = ClusterServer::new(a.clone());
    for id in 1..=4 {
        let _: Vec<Act> = server.accept_connection(id);
    }
    let (actions, stop) = server.handle_error::<u64>(&ErrorKind::DecodeError(1, None));
    assert!(!stop);
    assert_eq!(actions.len(), 1);
    assert_eq!(closed(&actions[0]), ids(&[1]));
    let batch = ErrorKind::PollNotificationErrors(vec![
        ErrorKind::WriteError(2, None),
        ErrorKind::BroadcastError(vec![ErrorKind::WriteError(3, None)]),
        ErrorKind::ReadError(9, None),
        ErrorKind::EncodeError(None, None),
    ]);
    let (actions, stop) = server.handle_error::<u64>(&batch);
    assert!(!stop);
    assert_eq!(closed(&actions[0]), ids(&[2, 3]));
    assert_eq!(status(&server).num_connections, 1);
    let fatal = ErrorKind::PollNotificationErrors(vec![ErrorKind::SendError(
        "ExecutorMsg::Envelope".to_string(),
        None,
    )]);
    let (actions, stop) = server.handle_error::<u64>(&fatal);
    assert!(stop);
    assert!(closed(&actions[0]).is_empty());
    let (_, stop) = server.handle_error::<u64>(&ErrorKind::RegistrarError(Some(4), None));
    assert!(!stop);
    assert_eq!(status(&server).num_connections, 0);
}

/// Hands the messages that one server sends on `link` to its peer, which
/// holds the other end as `peer_link`. What the peer then has for its executor
/// goes to `peer_executor`; the rest of what the peer asks for is returned.
fn deliver(
    actions: Vec<Act>,
    link: usize,
    peer: &mut ClusterServer,
    peer_link: usize,
    peer_executor: &mut Vec<Envelope<u64>>,
) -> Vec<Act> {
    let mut rest = Vec::new();
    for action in actions {
        if let Action::Send { to, msg } = action {
            if to.contains(&link) {
                for reaction in peer.handle_decoded_message(peer_link, msg) {
                    match reaction {
                        Action::Executor(ExecutorMsg::Envelope(e)) => peer_executor.push(e),
                        other => rest.push(other),
                    }
                }
            }
        }
    }
    rest
}

#[test]
fn two_node_cluster_bootstrap() {
    let n1 = node("node1");
    let n2 = node("node22");
    let mut s1 = ClusterServer::new(n1.clone());
    let mut s2 = ClusterServer::new(n2.clone());
    let mut exec1: Vec<Envelope<u64>> = Vec::new();
    let mut exec2: Vec<Envelope<u64>> = Vec::new();

    // node1 is told to join node2: it asks for a connection
    let actions = s1.handle_cluster_msg::<u64>(ClusterMsg::Join(n2.clone())).unwrap();
    assert_eq!(connected(&actions[1]), set(&[n2.clone()]));
    // node1 connects, node2 accepts
    s1.init_connection(10, Some(n2.clone()));
    let hello2: Vec<Act> = s2.accept_connection(20);
    // node2's member set reaches node1, which establishes the connection
    let rest = deliver(hello2, 20, &mut s1, 10, &mut exec1);
    assert_eq!(rest.len(), 2);
    assert!(connected(&rest[0]).is_empty());
    assert!(closed(&rest[1]).is_empty());
    assert_eq!(status(&s1).established, vec![n2.clone()]);
    // node1's socket becomes readable: it sends its own member set
    let hello1: Vec<Act> = s1.read(10);
    let rest = deliver(hello1, 10, &mut s2, 20, &mut exec2);
    assert!(connected(&rest[0]).is_empty());
    let st2 = status(&s2);
    assert_eq!(set(&st2.members), set(&[n1.clone(), n2.clone()]));
    assert_eq!(st2.established, vec![n1.clone()]);
    assert_eq!(st2.num_connections, 1);
    assert_eq!(set(&status(&s1).members), set(&[n1.clone(), n2.clone()]));

    // an envelope from node1 to a pid on node2 arrives at node2's executor
    let e = Envelope {
        to: Pid { name: "test-service".to_string(), group: Some("Service".to_string()), node: n2 },
        from: pid("sender", &n1),
        msg: Msg::User(99u64),
        correlation_id: Some(CorrelationId::pid(pid("sender", &n1))),
    };
    let out = s1.handle_cluster_msg(ClusterMsg::Envelope(e.clone())).unwrap();
    let rest = deliver(out, 10, &mut s2, 20, &mut exec2);
    assert!(rest.is_empty());
    assert_eq!(exec2, vec![e]);
    assert!(exec1.is_empty());
}

#[test]
fn known_peers_are_the_peers_of_all_connections() {
    let a = node("a");
    let b = node("bb");
    let c = node("ccc");
    let mut server = ClusterServer::new(a.clone());
    assert!(server.known_peers().is_empty());
    server.init_connection(1, Some(b.clone()));
    let _: Vec<Act> = server.accept_connection(2);
    let _ = establish(&mut server, 2, &c, &[a.clone(), b.clone()]);
    assert_eq!(set(&server.known_peers()), set(&[b, c]));
}

#[test]
fn disconnect_all_leaves_nothing() {
    let a = node("a");
    let b = node("bb");
    let mut server = ClusterServer::new(a.clone());
    server.init_connection(1, Some(b.clone()));
    let _ = establish(&mut server, 1, &b, &[a.clone()]);
    let _: Vec<Act> = server.accept_connection(2);
    let action: Act = server.disconnect_all();
    assert_eq!(closed(&action), ids(&[1, 2]));
    let s = status(&server);
    assert_eq!(s.num_connections, 0);
    assert!(s.established.is_empty());
    assert_eq!(set(&s.members), set(&[a, b]));
    let action: Act = server.disconnect_all();
    assert!(closed(&action).is_empty());
}

#[test]
fn disconnect_established_closes_every_connection_of_the_listed_peers() {
    let a = node("a");
    let b = node("bb");
    let c = node("ccc");
    let mut server = ClusterServer::new(a.clone());
    server.init_connection(1, Some(b.clone()));
    let _ = establish(&mut server, 1, &b, &[a.clone(), c.clone()]);
    server.init_connection(2, Some(c.clone()));
    let _: Vec<Act> = server.accept_connection(3);
    assert_eq!(ids(&server.peer_connections(&vec![c.clone(), node("dddd")])), ids(&[2]));
    let action: Act = server.disconnect_established(vec![node("dddd")]);
    assert!(closed(&action).is_empty());
    assert_eq!(status(&server).num_connections, 3);
    let action: Act = server.disconnect_established(vec![b.clone(), b.clone(), c]);
    assert_eq!(closed(&action), ids(&[1, 2]));
    let s = status(&server);
    assert_eq!(s.num_connections, 1);
    assert!(s.established.is_empty());
}

#[test]
fn members_message_carries_identity_and_snapshot() {
    let a = node("a");
    let mut server = ClusterServer::new(a.clone());
    let _: Vec<Act> = server.join(node("bb"));
    match server.members_msg::<u64>() {
        ExternalMsg::Members { from, orset } => {
            assert_eq!(from, a);
            assert_eq!(orset.elements().len(), 2);
            assert_eq!(orset.name, a.to_string());
        }
        _ => panic!("expected the member set"),
    }
    let _: Vec<Act> = server.accept_connection(1);
    let e = Envelope {
        to: pid("x", &a),
        from: pid("y", &a),
        msg: Msg::User(1u64),
        correlation_id: None,
    };
    match server.broadcast(ExternalMsg::Envelope(e.clone())) {
        Action::Send { to, msg: ExternalMsg::Envelope(got) } => {
            assert_eq!(to, vec![1]);
            assert_eq!(got, e);
        }
        _ => panic!("expected the envelope"),
    }
}

#[test]
fn executor_tick_arms_its_timer_and_tells_the_executor() {
    let mut server = ClusterServer::new(node("a"));
    server.set_registrations(7, 8, 9);
    let actions: Vec<Act> = server.tick_executor();
    assert!(matches!(
        actions.as_slice(),
        [Action::Arm(9), Action::Executor(ExecutorMsg::Tick)]
    ));
}

#[test]
fn join_counts_an_attempt_even_for_a_known_peer() {
    let a = node("a");
    let b = node("bb");
    let mut server = ClusterServer::new(a.clone());
    server.init_connection(1, Some(b.clone()));
    let actions: Vec<Act> = server.join(b.clone());
    assert_eq!(actions.len(), 2);
    assert_eq!(connected(&actions[1]), set(&[b.clone()]));
    let actions: Vec<Act> = server.join(a.clone());
    assert_eq!(connected(&actions[1]), set(&[a]));
}

#[test]
fn any_frame_keeps_a_connection_alive() {
    let a = node("a");
    let b = node("bb");
    let mut origin = ClusterServer::new(node("ccc"));
    let mut server = ClusterServer::new(a.clone());
    let _: Vec<Act> = server.accept_connection(1);
    let _: Vec<Act> = server.accept_connection(2);
    let _: Vec<Act> = server.accept_connection(3);
    for round in 0..12 {
        let e = Envelope {
            to: pid("x", &a),
            from: pid("y", &b),
            msg: Msg::User(round as u64),
            correlation_id: None,
        };
        let _: Vec<Act> = server.handle_decoded_message(1, ExternalMsg::Envelope(e));
        let gossip: Vec<Act> = origin.join(node(&format!("n{}", round)));
        let delta = match gossip.into_iter().next() {
            Some(Action::Send { msg, .. }) => msg,
            _ => panic!("expected a delta"),
        };
        let _: Vec<Act> = server.handle_decoded_message(2, delta);
        let actions: Vec<Act> = server.tick();
        if round == 4 {
            assert_eq!(closed(&actions[1]), ids(&[3]));
        } else {
            assert!(closed(&actions[1]).is_empty());
        }
    }
    assert_eq!(server.members_sent(1), Some(true));
    assert_eq!(server.members_sent(2), Some(true));
    assert_eq!(server.members_sent(3), None);
}
