use gearbot::correlator::{ChunkRequests, Delivery, WaiterHandle};

#[test]
fn a_reply_reaches_the_waiter_that_registered_under_its_nonce() {
    let mut requests = ChunkRequests::new();
    let handle = requests.register(String::from("abc")).unwrap();
    assert!(requests.is_pending("abc"));
    assert_eq!(requests.pending_count(), 1);
    let delivery = requests.resolve("abc", 77u32);
    assert_eq!(delivery, Some(Delivery { waiter: handle, payload: 77u32 }));
    assert!(!requests.is_pending("abc"));
    assert_eq!(requests.pending_count(), 0);
}

#[test]
fn a_repeated_reply_is_ignored() {
    let mut requests = ChunkRequests::new();
    requests.register(String::from("abc")).unwrap();
    assert!(requests.resolve("abc", 1u8).is_some());
    assert_eq!(requests.resolve("abc", 2u8), None);
    assert_eq!(requests.pending_count(), 0);
}

#[test]
fn a_reply_with_an_unknown_nonce_is_ignored() {
    let mut requests = ChunkRequests::new();
    let handle = requests.register(String::from("abc")).unwrap();
    assert_eq!(requests.resolve("abd", 1u8), None);
    assert_eq!(requests.resolve("", 1u8), None);
    assert!(requests.is_pending("abc"));
    assert_eq!(requests.resolve("abc", 3u8), Some(Delivery { waiter: handle, payload: 3u8 }));
}

#[test]
fn a_late_reply_after_the_timeout_is_ignored() {
    let mut requests = ChunkRequests::new();
    let handle = requests.register(String::from("abc")).unwrap();
    assert!(requests.cancel("abc", handle));
    assert!(!requests.is_pending("abc"));
    assert_eq!(requests.resolve("abc", 1u8), None);
    assert_eq!(requests.pending_count(), 0);
}

#[test]
fn only_the_first_of_timeout_and_reply_wins() {
    let mut requests = ChunkRequests::new();
    let handle = requests.register(String::from("abc")).unwrap();
    assert!(requests.resolve("abc", 1u8).is_some());
    assert!(!requests.cancel("abc", handle));
    assert!(!requests.cancel("abc", handle));
}

#[test]
fn a_stale_timeout_leaves_a_later_request_under_the_same_nonce_alone() {
    let mut requests = ChunkRequests::new();
    let first = requests.register(String::from("abc")).unwrap();
    assert!(requests.resolve("abc", 1u8).is_some());
    let second = requests.register(String::from("abc")).unwrap();
    assert_ne!(first, second);
    assert!(!requests.cancel("abc", first));
    assert!(requests.is_pending("abc"));
    assert_eq!(requests.resolve("abc", 2u8), Some(Delivery { waiter: second, payload: 2u8 }));
}

#[test]
fn tickets_are_given_out_in_order_and_never_twice() {
    let mut requests = ChunkRequests::new();
    assert_eq!(requests.upcoming_ticket(), 0);
    assert_eq!(requests.register(String::from("a")), Some(WaiterHandle { ticket: 0 }));
    assert_eq!(requests.register(String::from("b")), Some(WaiterHandle { ticket: 1 }));
    assert_eq!(requests.register(String::from("a")), Some(WaiterHandle { ticket: 2 }));
    assert_eq!(requests.upcoming_ticket(), 3);
    assert_eq!(requests.pending_count(), 2);
    assert_eq!(
        requests.resolve("a", ()),
        Some(Delivery { waiter: WaiterHandle { ticket: 2 }, payload: () })
    );
}

#[test]
fn a_timeout_touches_no_other_request() {
    let mut requests = ChunkRequests::new();
    let one = requests.register(String::from("one")).unwrap();
    let two = requests.register(String::from("two")).unwrap();
    assert!(requests.cancel("one", one));
    assert!(requests.is_pending("two"));
    assert_eq!(requests.resolve("two", 5u8), Some(Delivery { waiter: two, payload: 5u8 }));
}
