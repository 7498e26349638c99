use dispatch_pool::atomic_counter::{counter_cap, slot_of, AtomicCounter};

#[test]
fn test_1() {
    let a = AtomicCounter::new(4);
    assert_eq!(a.fetch_incr(), 0);
    assert_eq!(a.fetch_incr(), 1);
    assert_eq!(a.fetch_incr(), 2);
    assert_eq!(a.fetch_incr(), 3);
    assert_eq!(a.fetch_incr(), 0);
}

#[test]
fn counter_of_one_always_gives_zero() {
    let a = AtomicCounter::new(1);
    for _ in 0..5 {
        assert_eq!(a.fetch_incr(), 0);
    }
    assert_eq!(a.wrap_at(), 1);
}

#[test]
fn counter_cycles_without_skips() {
    let a = AtomicCounter::new(3);
    let got: Vec<usize> = (0..10).map(|_| a.fetch_incr()).collect();
    assert_eq!(got, vec![0, 1, 2, 0, 1, 2, 0, 1, 2, 0]);
}

#[test]
fn cap_is_the_largest_multiple() {
    assert_eq!(counter_cap(1), usize::MAX);
    assert_eq!(counter_cap(2), usize::MAX - 1);
    assert_eq!(counter_cap(4), usize::MAX - 3);
    assert_eq!(counter_cap(usize::MAX), usize::MAX);
    assert_eq!(counter_cap(10) % 10, 0);
    assert!(usize::MAX - counter_cap(10) < 10);
}

#[test]
fn slot_is_the_remainder() {
    assert_eq!(slot_of(0, 4), 0);
    assert_eq!(slot_of(7, 4), 3);
    assert_eq!(slot_of(8, 4), 0);
    assert_eq!(slot_of(usize::MAX, 1), 0);
}
