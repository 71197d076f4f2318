use mutsuki_link::permits::{one_more, ConnectionCounter};

#[test]
fn connection_permits_return_after_repeated_disconnects() {
    let counter = ConnectionCounter::default();
    for _ in 0..10_000 {
        let permit = counter.try_acquire(1).unwrap();
        assert_eq!(counter.active(), 1);
        drop(permit);
    }
    assert_eq!(counter.active(), 0);
}

#[test]
fn permits_are_refused_at_the_limit() {
    let counter = ConnectionCounter::default();
    let shared = counter.clone();
    let first = counter.try_acquire(2).unwrap();
    let second = shared.try_acquire(2).unwrap();
    assert!(counter.try_acquire(2).is_none());
    assert_eq!(shared.active(), 2);
    drop(first);
    let third = counter.try_acquire(2).unwrap();
    assert!(shared.try_acquire(2).is_none());
    drop(second);
    drop(third);
    assert_eq!(counter.active(), 0);
    assert!(counter.try_acquire(0).is_none());
}

#[test]
fn one_more_stops_at_the_limit() {
    assert_eq!(one_more(0, 1), Some(1));
    assert_eq!(one_more(1, 1), None);
    assert_eq!(one_more(7, 3), None);
}
