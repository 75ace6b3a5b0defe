use rabble::TimerWheel;

#[test]
fn silent_key_is_reported_exactly_once_after_a_full_turn() {
    let n = 5;
    let mut wheel = TimerWheel::new(n);
    assert_eq!(wheel.num_slots(), 5);
    let slot = wheel.insert(7);
    assert_eq!(slot, 0);
    for _ in 0..(n - 1) {
        assert!(wheel.expire().is_empty());
    }
    let expired = wheel.expire();
    assert_eq!(expired.len(), 1);
    assert!(expired.contains(&7));
    for _ in 0..(3 * n) {
        assert!(wheel.expire().is_empty());
    }
}

#[test]
fn key_reset_every_tick_is_never_reported() {
    let mut wheel = TimerWheel::new(5);
    let mut slot = wheel.insert(7);
    for _ in 0..50 {
        wheel.remove(7, slot);
        slot = wheel.insert(7);
        assert!(wheel.expire().is_empty());
    }
}

#[test]
fn key_reset_every_tick_in_a_wheel_of_two_is_never_reported() {
    let mut wheel = TimerWheel::new(2);
    let mut slot = wheel.insert(1);
    for _ in 0..10 {
        wheel.remove(1, slot);
        slot = wheel.insert(1);
        assert!(wheel.expire().is_empty());
    }
}

#[test]
fn wheel_of_one_bucket_reports_at_the_next_tick() {
    let mut wheel = TimerWheel::new(1);
    wheel.insert(3);
    let expired = wheel.expire();
    assert!(expired.contains(&3));
    assert!(wheel.expire().is_empty());
}

#[test]
fn insert_returns_the_freshest_bucket() {
    let mut wheel = TimerWheel::new(3);
    assert_eq!(wheel.insert(1), 0);
    wheel.expire();
    assert_eq!(wheel.insert(2), 1);
    wheel.expire();
    assert_eq!(wheel.insert(3), 2);
    let expired = wheel.expire();
    assert_eq!(expired.len(), 1);
    assert!(expired.contains(&1));
    assert_eq!(wheel.insert(4), 0);
    let expired = wheel.expire();
    assert!(expired.contains(&2));
    let expired = wheel.expire();
    assert!(expired.contains(&3));
    let expired = wheel.expire();
    assert!(expired.contains(&4));
    assert_eq!(expired.len(), 1);
}

#[test]
fn removed_key_is_not_reported() {
    let mut wheel = TimerWheel::new(3);
    let slot = wheel.insert(9);
    let other = wheel.insert(10);
    assert_eq!(slot, other);
    wheel.remove(9, slot);
    wheel.expire();
    wheel.expire();
    let expired = wheel.expire();
    assert_eq!(expired.len(), 1);
    assert!(expired.contains(&10));
}

#[test]
fn remove_from_another_bucket_changes_nothing() {
    let mut wheel = TimerWheel::new(3);
    let slot = wheel.insert(9);
    wheel.remove(9, (slot + 1) % 3);
    wheel.expire();
    wheel.expire();
    assert!(wheel.expire().contains(&9));
}

#[test]
fn keys_of_one_bucket_are_reported_together() {
    let mut wheel = TimerWheel::new(2);
    wheel.insert(1);
    wheel.insert(2);
    wheel.insert(2);
    assert!(wheel.expire().is_empty());
    let expired = wheel.expire();
    assert_eq!(expired.len(), 2);
    assert!(expired.contains(&1) && expired.contains(&2));
}
