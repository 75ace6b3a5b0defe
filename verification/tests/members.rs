use rabble::Members;
use rabble::NodeId;
use std::collections::HashSet;

fn node(name: &str) -> NodeId {
    NodeId { name: name.to_string(), addr: format!("127.0.0.1:{}", name.len() + 11000) }
}

fn all(m: &Members) -> HashSet<NodeId> {
    let v = m.all();
    let n = v.len();
    let s: HashSet<NodeId> = v.into_iter().collect();
    assert_eq!(s.len(), n);
    s
}

fn set(nodes: &[NodeId]) -> HashSet<NodeId> {
    nodes.iter().cloned().collect()
}

#[test]
fn new_replica_holds_its_owner() {
    let a = node("a");
    let m = Members::new(a.clone());
    assert_eq!(m.me(), &a);
    assert_eq!(all(&m), set(&[a]));
    assert!(m.can_add());
}

#[test]
fn add_makes_a_member_and_returns_its_delta() {
    let a = node("a");
    let b = node("b");
    let mut m = Members::new(a.clone());
    let delta = m.add(b.clone());
    assert_eq!(all(&m), set(&[a.clone(), b.clone()]));
    match delta {
        orset::Delta::Add { element, .. } => assert_eq!(element, (b.name.clone(), b.addr.clone())),
        _ => panic!("an addition gives an add delta"),
    }
    let mut other = Members::new(a.clone());
    let delta = m.try_add(node("ccc")).unwrap();
    assert!(other.join_delta(delta));
    assert_eq!(all(&other), set(&[a, node("ccc")]));
}

#[test]
fn leave_removes_a_member_and_returns_its_delta() {
    let a = node("a");
    let b = node("b");
    let mut m = Members::new(a.clone());
    m.add(b.clone());
    let delta = m.leave(b.clone());
    assert!(delta.is_some());
    assert_eq!(all(&m), set(&[a.clone()]));
    match delta.unwrap() {
        orset::Delta::Remove { element, dots } => {
            assert_eq!(element, (b.name.clone(), b.addr.clone()));
            assert_eq!(dots.len(), 1);
        }
        _ => panic!("a removal gives a remove delta"),
    }
}

#[test]
fn leave_of_a_stranger_changes_nothing() {
    let a = node("a");
    let mut m = Members::new(a.clone());
    assert!(m.leave(node("b")).is_none());
    assert_eq!(all(&m), set(&[a]));
}

#[test]
fn leave_covers_every_tag_of_the_member() {
    let a = node("a");
    let b = node("b");
    let mut m = Members::new(a.clone());
    m.add(b.clone());
    m.add(b.clone());
    let delta = m.leave(b.clone()).unwrap();
    match delta {
        orset::Delta::Remove { dots, .. } => assert_eq!(dots.len(), 2),
        _ => panic!("a removal gives a remove delta"),
    }
    assert_eq!(all(&m), set(&[a]));
}

#[test]
fn join_delta_is_idempotent() {
    let a = node("a");
    let b = node("b");
    let mut origin = Members::new(a.clone());
    let delta = origin.add(b.clone());
    let mut m = Members::new(node("ccc"));
    assert!(m.join_delta(delta.clone()));
    let once = all(&m);
    assert!(!m.join_delta(delta));
    assert_eq!(all(&m), once);
    assert_eq!(once, set(&[node("ccc"), b]));
}

#[test]
fn join_snapshot_is_idempotent() {
    let a = node("a");
    let mut origin = Members::new(a.clone());
    origin.add(node("b"));
    let mut m = Members::new(node("ccc"));
    assert!(m.join(origin.get_orset()));
    let once = all(&m);
    assert!(!m.join(origin.get_orset()));
    assert_eq!(all(&m), once);
    assert_eq!(once, set(&[a, node("b"), node("ccc")]));
}

#[test]
fn replicas_converge_whatever_the_order_of_deltas() {
    let mut origin = Members::new(node("a"));
    let d1 = origin.add(node("b"));
    let d2 = origin.add(node("ccc"));
    let d3 = origin.leave(node("b")).unwrap();
    let d4 = origin.add(node("dddd"));
    let deltas = vec![d1, d2, d3, d4];
    let orders: Vec<Vec<usize>> = vec![
        vec![0, 1, 2, 3],
        vec![3, 2, 1, 0],
        vec![2, 0, 3, 1],
        vec![2, 2, 0, 0, 1, 3, 3, 1],
        vec![1, 3, 0, 2, 0],
    ];
    let mut results = Vec::new();
    for order in orders {
        let mut replica = Members::new(node("zz"));
        for i in order {
            replica.join_delta(deltas[i].clone());
        }
        results.push(all(&replica));
    }
    for r in &results {
        assert_eq!(r, &results[0]);
    }
    assert_eq!(results[0], set(&[node("zz"), node("ccc"), node("dddd")]));
}

#[test]
fn replicas_converge_by_exchanging_snapshots() {
    let mut r1 = Members::new(node("a"));
    let mut r2 = Members::new(node("b"));
    r1.add(node("ccc"));
    r2.add(node("dddd"));
    r2.leave(node("dddd"));
    let s1 = r1.get_orset();
    let s2 = r2.get_orset();
    r1.join(s2);
    r2.join(s1);
    assert_eq!(all(&r1), all(&r2));
    assert_eq!(all(&r1), set(&[node("a"), node("b"), node("ccc")]));
}

#[test]
fn concurrent_add_survives_concurrent_remove() {
    let x = node("x");
    let mut a = Members::new(node("a"));
    let first = a.add(x.clone());
    let mut b = Members::new(node("b"));
    b.join_delta(first);
    // a adds x again while b, which saw only the first addition, removes it.
    let second = a.add(x.clone());
    let removal = b.leave(x.clone()).unwrap();
    assert!(!all(&b).contains(&x));
    a.join_delta(removal.clone());
    b.join_delta(second.clone());
    assert!(all(&a).contains(&x));
    assert!(all(&b).contains(&x));
    // the same holds for a third replica, in either order
    let mut c = Members::new(node("ccc"));
    c.join_delta(removal.clone());
    c.join_delta(second.clone());
    assert!(all(&c).contains(&x));
    let mut d = Members::new(node("dddd"));
    d.join_delta(second);
    d.join_delta(removal);
    assert!(all(&d).contains(&x));
}

#[test]
fn removed_tag_does_not_come_back() {
    let x = node("x");
    let mut a = Members::new(node("a"));
    let add = a.add(x.clone());
    let removal = a.leave(x.clone()).unwrap();
    let mut b = Members::new(node("b"));
    assert!(b.join_delta(removal));
    assert!(!b.join_delta(add));
    assert!(!all(&b).contains(&x));
}

#[test]
fn snapshot_is_a_copy() {
    let mut a = Members::new(node("a"));
    let snapshot = a.get_orset();
    a.add(node("b"));
    let elements: Vec<(String, String)> = snapshot.elements();
    assert_eq!(elements, vec![(node("a").name, node("a").addr)]);
    assert_eq!(snapshot.name, node("a").to_string());
}
