use cruft_crawler::channel::{Channel, SendOutcome};

#[test]
fn ordering_is_fifo() {
    let mut ch: Channel<u64> = Channel::new(8);
    for v in [10u64, 20, 30, 40, 50] {
        assert!(matches!(ch.try_send(v), SendOutcome::Success));
    }
    let mut seen = Vec::new();
    while let Some(v) = ch.try_take() {
        seen.push(v);
    }
    assert_eq!(seen, vec![10u64, 20, 30, 40, 50]);
}

#[test]
fn backpressure_blocks_at_capacity() {
    let mut ch: Channel<&'static str> = Channel::new(2);
    assert!(matches!(ch.try_send("a"), SendOutcome::Success));
    assert!(matches!(ch.try_send("b"), SendOutcome::Success));
    // the (C+1)-th send reports Blocked and hands the item back
    match ch.try_send("c") {
        SendOutcome::Blocked(item) => assert_eq!(item, "c"),
        _ => panic!("expected Blocked"),
    }
    assert_eq!(ch.fill(), 2);
    // one take frees room for the next send
    assert_eq!(ch.try_take(), Some("a"));
    assert!(matches!(ch.try_send("c"), SendOutcome::Success));
    assert_eq!(ch.try_take(), Some("b"));
    assert_eq!(ch.try_take(), Some("c"));
}

#[test]
fn closed_and_empty_is_terminal() {
    let mut ch: Channel<u8> = Channel::new(3);
    assert!(matches!(ch.try_send(1), SendOutcome::Success));
    assert!(matches!(ch.try_send(2), SendOutcome::Success));
    ch.mark_closed();
    // closing drops nothing: the consumer still drains the items
    assert!(!ch.is_closed_and_empty());
    assert_eq!(ch.try_take(), Some(1));
    assert_eq!(ch.try_take(), Some(2));
    assert!(ch.is_closed_and_empty());
    // no subsequent send can succeed
    match ch.try_send(3) {
        SendOutcome::Closed(item) => assert_eq!(item, 3),
        _ => panic!("expected Closed"),
    }
    // reading from a closed-and-empty channel stays None, not an error
    assert_eq!(ch.try_take(), None);
    assert!(ch.is_closed_and_empty());
    // closing again is idempotent
    ch.mark_closed();
    assert!(ch.is_closed_and_empty());
}

#[test]
fn send_into_closed_channel_is_reported() {
    let mut ch: Channel<u8> = Channel::new(2);
    ch.mark_closed();
    assert!(matches!(ch.try_send(7), SendOutcome::Closed(7)));
    assert!(ch.is_closed());
}

#[test]
fn readiness_conditions() {
    let mut ch: Channel<u8> = Channel::new(2);
    assert!(ch.vacant_for(2));
    assert!(!ch.available_for(1));
    assert!(matches!(ch.try_send(1), SendOutcome::Success));
    assert!(ch.vacant_for(1));
    assert!(!ch.vacant_for(2));
    assert!(ch.available_for(1));
    assert_eq!(ch.capacity(), 2);
    assert_eq!(ch.fill(), 1);
    // a closed channel opens both conditions so stages wake up and terminate
    ch.mark_closed();
    assert!(ch.vacant_for(100));
    assert!(!ch.available_for(2));
    assert_eq!(ch.try_take(), Some(1));
    assert!(ch.available_for(5));
}
