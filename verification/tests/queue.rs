use dispatch_pool::queue::{append, pop_if_held, push_if_held, take_front, Queue};

#[test]
fn queue_pop_is_in_order() {
    // Arrange
    let tq = Queue::new();
    tq.push(0).unwrap();
    tq.push(1).unwrap();

    // Act
    let a = tq.pop();
    let b = tq.pop();

    // Assert
    assert_eq!(a, Ok(0));
    assert_eq!(b, Ok(1));
}

#[test]
fn queue_try_pop_empty_queue() {
    // Arrange
    let tq = Queue::<i32>::new();

    // Act
    let a = tq.try_pop();

    // Assert
    assert_eq!(a, Ok(Some(None)));
}

#[test]
fn queue_try_pop_locked_queue() {
    // Arrange
    let tq = Queue::<i32>::new();
    let _handle = tq.lock();

    // Act
    let a = tq.try_pop();

    // Assert
    assert_eq!(a, Ok(None));
}

#[test]
fn queue_try_push_reports_the_lock() {
    let tq = Queue::<i32>::new();
    {
        let _handle = tq.lock();
        assert_eq!(tq.try_push(1), Ok(false));
    }
    assert_eq!(tq.try_push(2), Ok(true));
    assert_eq!(tq.try_pop(), Ok(Some(Some(2))));
    assert_eq!(tq.try_pop(), Ok(Some(None)));
}

#[test]
fn queue_is_first_in_first_out() {
    let tq = Queue::new();
    for v in 0..100 {
        tq.push(v).unwrap();
    }
    for v in 0..50 {
        assert_eq!(tq.pop(), Ok(v));
    }
    tq.push(100).unwrap();
    for v in 50..101 {
        assert_eq!(tq.try_pop(), Ok(Some(Some(v))));
    }
    assert_eq!(tq.try_pop(), Ok(Some(None)));
}

#[test]
fn queue_try_pop_tells_locked_from_empty() {
    let tq = Queue::<i32>::new();
    let empty = tq.try_pop();
    let locked = {
        let _handle = tq.lock();
        tq.try_pop()
    };
    assert_eq!(empty, Ok(Some(None)));
    assert_eq!(locked, Ok(None));
    assert_ne!(empty, locked);
}

#[test]
fn append_and_take_front_on_a_plain_sequence() {
    let mut items = std::collections::VecDeque::new();
    assert_eq!(take_front(&mut items), None);
    append(&mut items, 'a');
    append(&mut items, 'b');
    assert_eq!(take_front(&mut items), Some('a'));
    append(&mut items, 'c');
    assert_eq!(take_front(&mut items), Some('b'));
    assert_eq!(take_front(&mut items), Some('c'));
    assert_eq!(take_front(&mut items), None);
}

#[test]
fn the_lock_attempt_decides_a_try_pop() {
    let mut items = std::collections::VecDeque::new();
    assert_eq!(pop_if_held::<i32>(None), None);
    assert_eq!(pop_if_held(Some(&mut items)), Some(None));
    items.push_back(3);
    items.push_back(4);
    assert_eq!(pop_if_held(Some(&mut items)), Some(Some(3)));
    assert_eq!(items.len(), 1);
    assert_eq!(pop_if_held(Some(&mut items)), Some(Some(4)));
    assert_eq!(pop_if_held(Some(&mut items)), Some(None));
}

#[test]
fn the_lock_attempt_decides_a_try_push() {
    let mut items = std::collections::VecDeque::new();
    assert!(!push_if_held::<i32>(None, 1));
    assert!(push_if_held(Some(&mut items), 2));
    assert!(push_if_held(Some(&mut items), 3));
    assert_eq!(items.iter().copied().collect::<Vec<i32>>(), vec![2, 3]);
}
