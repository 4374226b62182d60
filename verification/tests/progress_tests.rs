use zest_backend::numtext::u64_to_string;
use zest_backend::progress::ProgressChannel;
use zest_backend::Error;

#[test]
fn publish_without_subscriber_is_dropped() {
    let mut sse = ProgressChannel::new();
    // Nobody is connected: the event is dropped, not queued.
    assert!(!sse.publish(1, "event one".to_string()));
    let token = sse.generate_auth_token(1);
    sse.subscribe(1, token).unwrap();
    assert!(sse.take_events(1).is_empty());
}

#[test]
fn publish_queues_for_the_live_subscriber() {
    let mut sse = ProgressChannel::new();
    let token = sse.generate_auth_token(42);
    sse.subscribe(42, token).unwrap();

    assert!(sse.publish(42, "first".to_string()));
    assert!(sse.publish(42, "second".to_string()));
    // Another user's events do not leak into this queue.
    assert!(!sse.publish(7, "other".to_string()));

    let events = sse.take_events(42);
    assert_eq!(events, vec!["first".to_string(), "second".to_string()]);
    // Taking the events drained the in-flight queue.
    assert!(sse.take_events(42).is_empty());
}

#[test]
fn subscribe_requires_a_matching_token() {
    let mut sse = ProgressChannel::new();
    let token_for_3 = sse.generate_auth_token(3);
    let err = sse.subscribe(4, token_for_3).unwrap_err();
    assert_eq!(err, Error::InvalidToken);
    // A token that was never minted is invalid too.
    let err = sse.subscribe(3, 999).unwrap_err();
    assert_eq!(err, Error::InvalidToken);
    // The right pairing works.
    sse.subscribe(3, token_for_3).unwrap();
}

#[test]
fn resubscribe_replaces_the_old_connection() {
    let mut sse = ProgressChannel::new();
    let token = sse.generate_auth_token(5);
    sse.subscribe(5, token).unwrap();
    assert!(sse.publish(5, "before".to_string()));

    // A new subscription starts with a fresh, empty queue.
    let token2 = sse.generate_auth_token(5);
    sse.subscribe(5, token2).unwrap();
    assert!(sse.take_events(5).is_empty());
}

#[test]
fn disconnect_ends_delivery() {
    let mut sse = ProgressChannel::new();
    let token = sse.generate_auth_token(9);
    sse.subscribe(9, token).unwrap();
    assert!(sse.publish(9, "while connected".to_string()));
    sse.disconnect(9);
    assert!(!sse.publish(9, "after disconnect".to_string()));
    assert!(sse.take_events(9).is_empty());
}

#[test]
fn tokens_render_in_decimal() {
    assert_eq!(u64_to_string(0), "0");
    assert_eq!(u64_to_string(7), "7");
    assert_eq!(u64_to_string(42), "42");
    assert_eq!(u64_to_string(1000), "1000");
    assert_eq!(u64_to_string(u64::MAX), "18446744073709551615");
}
