use dispatch_pool::handler::{answer, ascii_to_u64, fibonacci, is_digit};

#[test]
fn digits_are_read_from_ascii() {
    assert_eq!(ascii_to_u64(b'0'), 0);
    assert_eq!(ascii_to_u64(b'7'), 7);
    assert_eq!(ascii_to_u64(b'9'), 9);
    assert!(is_digit(b'0'));
    assert!(is_digit(b'9'));
    assert!(!is_digit(b'/'));
    assert!(!is_digit(b':'));
}

#[test]
fn fibonacci_starts_with_two_ones() {
    assert_eq!(fibonacci(0), 1);
    assert_eq!(fibonacci(1), 1);
    assert_eq!(fibonacci(2), 2);
    assert_eq!(fibonacci(10), 89);
    assert_eq!(fibonacci(20), 10946);
}

#[test]
fn a_request_is_answered_by_its_digit() {
    assert_eq!(answer(b"GET /0 HTTP/1.1"), Some(1));
    assert_eq!(answer(b"GET /1 HTTP/1.1"), Some(8));
    assert_eq!(answer(b"GET /2 HTTP/1.1"), Some(89));
    assert_eq!(answer(b"GET /4 HTTP/1.1"), Some(10946));
    assert_eq!(answer(b"GET /6 HTTP/1.1"), Some(1346269));
    assert_eq!(answer(b"GET / HTTP/1.1"), None);
    assert_eq!(answer(b"GET /"), None);
    assert_eq!(answer(b""), None);
}
